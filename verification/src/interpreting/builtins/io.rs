use vstd::prelude::*;
use vstd::string::StringExecFns;
use crate::interpreting::interpreter::Interpreter;
use crate::interpreting::outcome::{
    computes, Builtin, Computed, ComputedView, Outcome, Pending, PendingView, Request, RequestView,
    RuntimeError, RuntimeErrorView,
};
use crate::interpreting::typing::{
    all_shown, joined, kind_of, literals_view, push_joined, show_all, Literal, LiteralView,
};
use crate::parsing::typing::names_view;
use crate::text::push_char;

verus! {

/// The first place at or after `from` where a value stands that is no string.
pub open spec fn first_other(args: Seq<LiteralView>, from: int) -> Option<int>
    decreases args.len() - from,
{
    if 0 <= from < args.len() {
        if args[from] is String {
            first_other(args, from + 1)
        } else {
            Some(from)
        }
    } else {
        None
    }
}

/// What strings hold, each as it is.
pub open spec fn raw_texts(args: Seq<LiteralView>) -> Seq<Seq<char>> {
    Seq::new(
        args.len(),
        |i: int|
            match args[i] {
                LiteralView::String(s) => s,
                _ => Seq::empty(),
            },
    )
}

/// The end of a line where one is asked for.
pub open spec fn line_end(newline: bool) -> Seq<char> {
    if newline {
        seq!['\n']
    } else {
        Seq::empty()
    }
}

/// A request to write `text`.
pub open spec fn ask_write(text: Seq<char>) -> Outcome {
    Ok(ComputedView::Ask(RequestView::Write(text), PendingView::Written))
}

/// `putStr` and `putStrLn`: a request to write the strings with a space
/// between each two, and the line's end where asked for. A value that is no
/// string is refused, and then nothing is written.
pub open spec fn put(builtin: Builtin, args: Seq<LiteralView>, newline: bool) -> Outcome {
    match first_other(args, 0) {
        Some(i) => Err(RuntimeErrorView::InvalidArgument(builtin, kind_of(args[i]))),
        None => ask_write(joined(raw_texts(args), seq![' '], 0) + line_end(newline)),
    }
}

/// `print` and `printLn`: a request to write the values as they are shown,
/// with a space between each two, and the line's end where asked for.
pub open spec fn printed(args: Seq<LiteralView>, newline: bool) -> Outcome {
    ask_write(joined(all_shown(args), seq![' '], 0) + line_end(newline))
}

/// The strings that the values hold, or the kind of the first that is none.
fn raw(builtin: Builtin, args: &Vec<Literal>) -> (r: Result<Vec<String>, RuntimeError>)
    ensures
        match first_other(literals_view(args@), 0) {
            Some(i) => r matches Err(e) && e.deep_view() == RuntimeErrorView::InvalidArgument(
                builtin,
                kind_of(literals_view(args@)[i]),
            ),
            None => r matches Ok(texts) && names_view(texts@) == raw_texts(literals_view(args@)),
        },
{
    let ghost views = literals_view(args@);
    let mut texts: Vec<String> = Vec::new();
    let mut i: usize = 0;
    while i < args.len()
        invariant
            i <= args.len(),
            views == literals_view(args@),
            texts.len() == i,
            first_other(views, 0) == first_other(views, i as int),
            forall|j: int| 0 <= j < i ==> (#[trigger] texts@[j])@ == raw_texts(views)[j],
        decreases args.len() - i,
    {
        match &args[i] {
            Literal::String(string) => {
                texts.push(string.clone());
            },
            unexpected => {
                return Err(RuntimeError::InvalidArgument(builtin, unexpected.kind()));
            },
        }
        i += 1;
    }
    assert(names_view(texts@) =~= raw_texts(views));
    Ok(texts)
}

/// A request to write `parts` with a space between each two, and the line's
/// end where asked for.
fn write(parts: &Vec<String>, newline: bool) -> (r: Result<Computed, RuntimeError>)
    ensures
        computes(r, ask_write(joined(names_view(parts@), seq![' '], 0) + line_end(newline))),
{
    let mut text = String::new();
    push_joined(&mut text, parts, " ");
    if newline {
        push_char(&mut text, '\n');
    }
    proof {
        reveal_strlit(" ");
        assert(" "@ =~= seq![' ']);
        assert(text@ =~= joined(names_view(parts@), seq![' '], 0) + line_end(newline));
    }
    Ok(Computed::Ask(Request::Write(text), Pending::Written))
}

impl Interpreter {
    /// The built-in `putStr`.
    pub fn put_str(args: &Vec<Literal>) -> (r: Result<Computed, RuntimeError>)
        ensures
            computes(r, put(Builtin::PutStr, literals_view(args@), false)),
    {
        match raw(Builtin::PutStr, args) {
            Ok(texts) => write(&texts, false),
            Err(e) => Err(e),
        }
    }

    /// The built-in `putStrLn`.
    pub fn put_str_ln(args: &Vec<Literal>) -> (r: Result<Computed, RuntimeError>)
        ensures
            computes(r, put(Builtin::PutStrLn, literals_view(args@), true)),
    {
        match raw(Builtin::PutStrLn, args) {
            Ok(texts) => write(&texts, true),
            Err(e) => Err(e),
        }
    }

    /// The built-in `print`.
    pub fn print(args: &Vec<Literal>) -> (r: Result<Computed, RuntimeError>)
        ensures
            computes(r, printed(literals_view(args@), false)),
    {
        write(&show_all(args), false)
    }

    /// The built-in `printLn`.
    pub fn print_ln(args: &Vec<Literal>) -> (r: Result<Computed, RuntimeError>)
        ensures
            computes(r, printed(literals_view(args@), true)),
    {
        write(&show_all(args), true)
    }

    /// The built-in `flushStdout`: a request to flush the output.
    pub fn flush_stdout(args: &Vec<Literal>) -> (r: Result<Computed, RuntimeError>)
        ensures
            computes(r, Ok(ComputedView::Ask(RequestView::Flush, PendingView::Written))),
    {
        Ok(Computed::Ask(Request::Flush, Pending::Written))
    }

    /// The built-in `readLine`: a request to read a line.
    pub fn read_line(args: &Vec<Literal>) -> (r: Result<Computed, RuntimeError>)
        ensures
            computes(r, Ok(ComputedView::Ask(RequestView::ReadLine, PendingView::Line))),
    {
        Ok(Computed::Ask(Request::ReadLine, Pending::Line))
    }
}

} // verus!
