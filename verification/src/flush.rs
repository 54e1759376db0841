//! From a source text to a machine that is ready to run, and the rules by
//! which one file loads another.
//!
//! The library reads no file. Its host finds out what is on disk and hands
//! over what it found: whether a path is there, the text of a file, the
//! absolute path that a `load` points to.

use vstd::prelude::*;
use vstd::string::StringExecFns;
use crate::error::{FlushError, FlushErrorView};
use crate::interpreting::interpreter::{initial, Interpreter};
use crate::lexing::lexer::{lex_report, tokens_of, Lexer};
use crate::parsing::grammar::program_of;
use crate::parsing::parser::Parser;
use crate::parsing::typing::{names_view, statements_view, Statement, StatementView};
use crate::report::{in_ticks, parse_report};
use crate::text::push_char;

verus! {

/// What is wrong with a path, if anything: it must be there, and be a file.
pub open spec fn path_problem(raw: Seq<char>, is_there: bool, is_file: bool) -> Option<Seq<char>> {
    if !is_there {
        Some(in_ticks(raw) + " does not exist!"@)
    } else if !is_file {
        Some(in_ticks(raw) + " is not a file!"@)
    } else {
        None
    }
}

/// The absolute path for the path `raw_file_path` as written, given what the
/// host found there: whether anything is there, whether it is a file, and
/// what its absolute path is. A path that is not there, or is no file, is
/// refused with a message.
pub fn process_file_path(
    raw_file_path: &str,
    is_there: bool,
    is_file: bool,
    absolute_path: String,
) -> (r: Result<String, String>)
    ensures
        match path_problem(raw_file_path@, is_there, is_file) {
            Some(message) => r matches Err(m) && m@ == message,
            None => r matches Ok(path) && path@ == absolute_path@,
        },
{
    if !is_there || !is_file {
        let mut message = String::new();
        push_char(&mut message, '`');
        message.append(raw_file_path);
        push_char(&mut message, '`');
        if !is_there {
            message.append(" does not exist!");
        } else {
            message.append(" is not a file!");
        }
        assert(message@ =~= path_problem(raw_file_path@, is_there, is_file)->0);
        Err(message)
    } else {
        Ok(absolute_path)
    }
}

/// Whether `path` is among the files that were loaded.
pub fn cached(cache: &Vec<String>, path: &String) -> (r: bool)
    ensures
        r == names_view(cache@).contains(path@),
{
    let ghost paths = names_view(cache@);
    let mut i: usize = 0;
    while i < cache.len()
        invariant
            i <= cache.len(),
            paths == names_view(cache@),
            forall|j: int| 0 <= j < i ==> paths[j] != path@,
        decreases cache.len() - i,
    {
        if cache[i] == *path {
            assert(paths[i as int] == path@);
            return true;
        }
        i += 1;
    }
    false
}

/// The statements that a source text spells, or the first error of its
/// tokens or of its grammar, reported for the file `file`.
pub open spec fn compiled(source: Seq<char>, file: Seq<char>) -> Result<
    Seq<StatementView>,
    FlushErrorView,
> {
    match tokens_of(source) {
        Err(e) => Err(lex_report(file, e)),
        Ok(tokens) => match program_of(tokens) {
            Err(e) => Err(parse_report(file, e)),
            Ok(statements) => Ok(statements),
        },
    }
}

/// Reads a source text into statements.
pub fn compile(source: &str, file_path: &String) -> (r: Result<Vec<Statement>, FlushError>)
    ensures
        match compiled(source@, file_path@) {
            Ok(statements) => r matches Ok(v) && statements_view(v@) == statements,
            Err(e) => r matches Err(x) && x.deep_view() == e,
        },
{
    let mut lexer = Lexer::new(source, file_path.clone());
    let tokens = match lexer.tokenize() {
        Ok(tokens) => tokens,
        Err(e) => {
            return Err(e);
        },
    };
    let mut parser = Parser::new(&tokens, file_path.clone());
    parser.parse()
}

/// The paths of the top-level loads among the statements from `from` on, as
/// written and in their order.
pub open spec fn load_paths(statements: Seq<StatementView>, from: int) -> Seq<Seq<char>>
    decreases statements.len() - from,
{
    if 0 <= from < statements.len() {
        match statements[from] {
            StatementView::Load(path) => seq![path] + load_paths(statements, from + 1),
            _ => load_paths(statements, from + 1),
        }
    } else {
        Seq::empty()
    }
}

/// The paths of the top-level loads of a program, as written and in their order.
pub fn loads(statements: &Vec<Statement>) -> (r: Vec<String>)
    ensures
        names_view(r@) == load_paths(statements_view(statements@), 0),
{
    let ghost views = statements_view(statements@);
    let mut paths: Vec<String> = Vec::new();
    let mut i: usize = 0;
    while i < statements.len()
        invariant
            i <= statements.len(),
            views == statements_view(statements@),
            names_view(paths@) + load_paths(views, i as int) =~= load_paths(views, 0),
        decreases statements.len() - i,
    {
        let ghost before = names_view(paths@);
        match &statements[i] {
            Statement::Load(path) => {
                paths.push(path.clone());
                assert(names_view(paths@) =~= before.push(path@));
            },
            _ => {},
        }
        i += 1;
    }
    paths
}

/// Whether a load of the file at `target` from the file `file` would go
/// round in a circle: the file loads itself, or a file that was loaded.
pub open spec fn circular(target: Seq<char>, file: Seq<char>, cache: Seq<Seq<char>>) -> bool {
    target == file || cache.contains(target)
}

/// The statements from `from` on without the top-level loads that would go
/// round in a circle, after those of `kept`; and the absolute paths of the
/// loads left out, after those of `dropped`. The `turn`th load points to the
/// `turn`th of `resolved`; a load beyond those stays.
pub open spec fn sorted_out(
    statements: Seq<StatementView>,
    resolved: Seq<Seq<char>>,
    file: Seq<char>,
    cache: Seq<Seq<char>>,
    from: int,
    turn: int,
    kept: Seq<StatementView>,
    dropped: Seq<Seq<char>>,
) -> (Seq<StatementView>, Seq<Seq<char>>)
    decreases statements.len() - from,
{
    if 0 <= from < statements.len() {
        match statements[from] {
            StatementView::Load(_) => {
                if 0 <= turn < resolved.len() && circular(resolved[turn], file, cache) {
                    sorted_out(
                        statements,
                        resolved,
                        file,
                        cache,
                        from + 1,
                        turn + 1,
                        kept,
                        dropped.push(resolved[turn]),
                    )
                } else {
                    sorted_out(
                        statements,
                        resolved,
                        file,
                        cache,
                        from + 1,
                        turn + 1,
                        kept.push(statements[from]),
                        dropped,
                    )
                }
            },
            other => sorted_out(
                statements,
                resolved,
                file,
                cache,
                from + 1,
                turn,
                kept.push(other),
                dropped,
            ),
        }
    } else {
        (kept, dropped)
    }
}

/// The statements of a program without the top-level loads that would go
/// round in a circle, and the absolute paths that those loads point to.
/// `resolved` holds the absolute path for each top-level load, in their order.
pub fn without_cycles(
    statements: Vec<Statement>,
    resolved: &Vec<String>,
    file_path: &String,
    cache: &Vec<String>,
) -> (r: (Vec<Statement>, Vec<String>))
    ensures
        (statements_view(r.0@), names_view(r.1@)) == sorted_out(
            statements_view(statements@),
            names_view(resolved@),
            file_path@,
            names_view(cache@),
            0,
            0,
            Seq::empty(),
            Seq::empty(),
        ),
{
    let ghost views = statements_view(statements@);
    let ghost targets = names_view(resolved@);
    let ghost known = names_view(cache@);
    let mut kept: Vec<Statement> = Vec::new();
    let mut dropped: Vec<String> = Vec::new();
    assert(statements_view(kept@) =~= Seq::empty());
    assert(names_view(dropped@) =~= Seq::empty());
    let mut turn: usize = 0;
    let mut i: usize = 0;
    while i < statements.len()
        invariant
            i <= statements.len(),
            turn <= i,
            views == statements_view(statements@),
            targets == names_view(resolved@),
            known == names_view(cache@),
            sorted_out(views, targets, file_path@, known, 0, 0, Seq::empty(), Seq::empty())
                == sorted_out(
                views,
                targets,
                file_path@,
                known,
                i as int,
                turn as int,
                statements_view(kept@),
                names_view(dropped@),
            ),
        decreases statements.len() - i,
    {
        let ghost kept_before = statements_view(kept@);
        let ghost dropped_before = names_view(dropped@);
        let is_load = matches!(statements[i], Statement::Load(_));
        if is_load {
            let goes_round = turn < resolved.len() && (resolved[turn] == *file_path || cached(
                cache,
                &resolved[turn],
            ));
            if goes_round {
                dropped.push(resolved[turn].clone());
                assert(names_view(dropped@) =~= dropped_before.push(targets[turn as int]));
            } else {
                kept.push(statements[i].clone());
                assert(statements_view(kept@) =~= kept_before.push(views[i as int]));
            }
            turn += 1;
        } else {
            kept.push(statements[i].clone());
            assert(statements_view(kept@) =~= kept_before.push(views[i as int]));
        }
        i += 1;
    }
    (kept, dropped)
}

/// Makes the machine for a file's statements. The file is entered among the
/// files that were loaded, before anything of it runs, so that no file that
/// it loads will load it again. Top-level loads that would go round in a
/// circle are left out, and their absolute paths handed out. The first file
/// of all is the one whose `main` is called.
pub fn run(
    statements: Vec<Statement>,
    file_path: String,
    cache: &mut Vec<String>,
    resolved: &Vec<String>,
) -> (r: (Interpreter, Vec<String>))
    ensures
        names_view(final(cache)@) == names_view(old(cache)@).push(file_path@),
        ({
            let sorted = sorted_out(
                statements_view(statements@),
                names_view(resolved@),
                file_path@,
                names_view(final(cache)@),
                0,
                0,
                Seq::empty(),
                Seq::empty(),
            );
            &&& r.0@ == initial(sorted.0, file_path@, old(cache).len() == 0)
            &&& names_view(r.1@) == sorted.1
        }),
{
    let ghost before = names_view(cache@);
    cache.push(file_path.clone());
    assert(names_view(cache@) =~= before.push(file_path@));
    let (kept, dropped) = without_cycles(statements, resolved, &file_path, cache);
    let eval_main = cache.len() == 1;
    (Interpreter::new(kept, file_path, eval_main), dropped)
}

/// A file whose only top-level load points back to a file that was loaded,
/// or to the file itself, is left with its other statements, in their order.
pub proof fn lemma_circular_load_dropped(
    before: Seq<StatementView>,
    path: Seq<char>,
    target: Seq<char>,
    file: Seq<char>,
    cache: Seq<Seq<char>>,
)
    requires
        circular(target, file, cache),
        forall|i: int| 0 <= i < before.len() ==> !(#[trigger] before[i] is Load),
    ensures
        sorted_out(
            before.push(StatementView::Load(path)),
            seq![target],
            file,
            cache,
            0,
            0,
            Seq::empty(),
            Seq::empty(),
        ) == (before, seq![target]),
{
    let all = before.push(StatementView::Load(path));
    lemma_sorted_out_plain(all, seq![target], file, cache, 0, Seq::empty(), before.len() as int);
    let n = before.len() as int;
    assert(all.subrange(0, n) =~= before);
    assert(Seq::<StatementView>::empty() + before =~= before);
    assert(Seq::<Seq<char>>::empty().push(target) =~= seq![target]);
    assert(all[n] == StatementView::Load(path));
    assert(seq![target][0] == target);
    assert(sorted_out(all, seq![target], file, cache, n, 0, before, Seq::empty()) == sorted_out(
        all,
        seq![target],
        file,
        cache,
        n + 1,
        1,
        before,
        seq![target],
    ));
    assert(sorted_out(all, seq![target], file, cache, n + 1, 1, before, seq![target]) == (
        before,
        seq![target],
    ));
}

/// Statements that are no loads are all kept.
proof fn lemma_sorted_out_plain(
    statements: Seq<StatementView>,
    resolved: Seq<Seq<char>>,
    file: Seq<char>,
    cache: Seq<Seq<char>>,
    from: int,
    kept: Seq<StatementView>,
    upto: int,
)
    requires
        0 <= from <= upto <= statements.len(),
        forall|i: int| from <= i < upto ==> !(#[trigger] statements[i] is Load),
    ensures
        sorted_out(statements, resolved, file, cache, from, 0, kept, Seq::empty()) == sorted_out(
            statements,
            resolved,
            file,
            cache,
            upto,
            0,
            kept + statements.subrange(from, upto),
            Seq::empty(),
        ),
    decreases upto - from,
{
    if from < upto {
        lemma_sorted_out_plain(
            statements,
            resolved,
            file,
            cache,
            from + 1,
            kept.push(statements[from]),
            upto,
        );
        assert(kept.push(statements[from]) + statements.subrange(from + 1, upto) =~= kept
            + statements.subrange(from, upto));
    } else {
        assert(kept + statements.subrange(from, upto) =~= kept);
    }
}

} // verus!
