//! What running a program gives and asks for: errors, and the requests that
//! the machine makes of its host with the replies it takes.
//!
//! The library computes nothing on floats and does no input or output. It asks
//! its host, who answers with the next call.

use vstd::prelude::*;
use crate::interpreting::typing::{literal_view, table_view, Kind, Literal, LiteralView};
use crate::parsing::typing::BinOp;

verus! {

/// The built-in functions.
#[derive(Clone, Copy, Debug, PartialEq, Eq, Structural)]
pub enum Builtin {
    PutStr,
    PutStrLn,
    Print,
    PrintLn,
    FlushStdout,
    ReadLine,
    Cos,
    Sin,
    Tan,
    Acos,
    Asin,
    Atan,
    Range,
    Random,
    ParseInt,
    ParseFloat,
    ToString,
}

/// What can go wrong while a program runs.
#[derive(Debug, PartialEq)]
pub enum RuntimeError {
    /// No scope holds a variable of this name.
    UndefinedVariable(String),
    /// A variable of this name is there already.
    AlreadyDefined(String),
    /// Neither a built-in nor a function in scope has this name.
    UndefinedFunction(String),
    /// A call gives fewer arguments than the function takes: the function,
    /// the number it takes, the number given.
    NotEnoughArguments(String, usize, usize),
    /// An operator does not take operands of these kinds.
    InvalidOperands(BinOp, Kind, Kind),
    /// A built-in does not take an argument of this kind.
    InvalidArgument(Builtin, Kind),
    /// A value of this kind cannot be indexed.
    NotIndexable(Kind),
    /// A value of this kind cannot serve as the index: a list and a string
    /// take an integer, a dictionary a string.
    InvalidIndex(Kind),
    /// A list was wanted, to loop over or to assign an item in, and a value
    /// of this kind was found.
    NotAList(Kind),
    /// An index at or beyond the length: the length, the index.
    IndexOutOfRange(usize, i32),
    /// An index below zero.
    NegativeIndex(i32),
    /// The dictionary has no such key.
    MissingKey(String),
    /// `break` where no loop is running.
    BreakOutsideLoop,
    /// An expression as a statement where no function is running.
    ExpressionOutsideFunction,
    /// A condition gave a value of this kind, which is no boolean.
    ConditionNotBoolean(Kind),
    /// `parseInt` of a text that is no integer of 32 bits.
    InvalidInteger(String),
    /// A text that the host does not read as a float.
    InvalidFloat(String),
    /// An integer divided by zero, or its remainder by zero taken.
    DivisionByZero,
    /// The result of an integer operation does not fit in 32 bits.
    Overflow,
    /// An integer raised to a negative power.
    NegativeExponent,
    /// A string repeated a negative number of times.
    NegativeRepeat,
    /// `random` between integers of which the first is not below the second.
    EmptyRange,
    /// The host's reply is not one that the request admits.
    UnexpectedReply,
    /// The host failed, and said so in these words.
    Host(String),
}

/// The mathematical value of a [`RuntimeError`].
pub ghost enum RuntimeErrorView {
    UndefinedVariable(Seq<char>),
    AlreadyDefined(Seq<char>),
    UndefinedFunction(Seq<char>),
    NotEnoughArguments(Seq<char>, usize, usize),
    InvalidOperands(BinOp, Kind, Kind),
    InvalidArgument(Builtin, Kind),
    NotIndexable(Kind),
    InvalidIndex(Kind),
    NotAList(Kind),
    IndexOutOfRange(usize, i32),
    NegativeIndex(i32),
    MissingKey(Seq<char>),
    BreakOutsideLoop,
    ExpressionOutsideFunction,
    ConditionNotBoolean(Kind),
    InvalidInteger(Seq<char>),
    InvalidFloat(Seq<char>),
    DivisionByZero,
    Overflow,
    NegativeExponent,
    NegativeRepeat,
    EmptyRange,
    UnexpectedReply,
    Host(Seq<char>),
}

impl DeepView for RuntimeError {
    type V = RuntimeErrorView;

    open spec fn deep_view(&self) -> RuntimeErrorView {
        match self {
            RuntimeError::UndefinedVariable(s) => RuntimeErrorView::UndefinedVariable(s@),
            RuntimeError::AlreadyDefined(s) => RuntimeErrorView::AlreadyDefined(s@),
            RuntimeError::UndefinedFunction(s) => RuntimeErrorView::UndefinedFunction(s@),
            RuntimeError::NotEnoughArguments(s, expected, given) => {
                RuntimeErrorView::NotEnoughArguments(s@, *expected, *given)
            },
            RuntimeError::InvalidOperands(op, left, right) => RuntimeErrorView::InvalidOperands(
                *op,
                *left,
                *right,
            ),
            RuntimeError::InvalidArgument(builtin, kind) => RuntimeErrorView::InvalidArgument(
                *builtin,
                *kind,
            ),
            RuntimeError::NotIndexable(kind) => RuntimeErrorView::NotIndexable(*kind),
            RuntimeError::InvalidIndex(kind) => RuntimeErrorView::InvalidIndex(*kind),
            RuntimeError::NotAList(kind) => RuntimeErrorView::NotAList(*kind),
            RuntimeError::IndexOutOfRange(len, index) => RuntimeErrorView::IndexOutOfRange(
                *len,
                *index,
            ),
            RuntimeError::NegativeIndex(index) => RuntimeErrorView::NegativeIndex(*index),
            RuntimeError::MissingKey(s) => RuntimeErrorView::MissingKey(s@),
            RuntimeError::BreakOutsideLoop => RuntimeErrorView::BreakOutsideLoop,
            RuntimeError::ExpressionOutsideFunction => RuntimeErrorView::ExpressionOutsideFunction,
            RuntimeError::ConditionNotBoolean(kind) => RuntimeErrorView::ConditionNotBoolean(*kind),
            RuntimeError::InvalidInteger(s) => RuntimeErrorView::InvalidInteger(s@),
            RuntimeError::InvalidFloat(s) => RuntimeErrorView::InvalidFloat(s@),
            RuntimeError::DivisionByZero => RuntimeErrorView::DivisionByZero,
            RuntimeError::Overflow => RuntimeErrorView::Overflow,
            RuntimeError::NegativeExponent => RuntimeErrorView::NegativeExponent,
            RuntimeError::NegativeRepeat => RuntimeErrorView::NegativeRepeat,
            RuntimeError::EmptyRange => RuntimeErrorView::EmptyRange,
            RuntimeError::UnexpectedReply => RuntimeErrorView::UnexpectedReply,
            RuntimeError::Host(s) => RuntimeErrorView::Host(s@),
        }
    }
}

impl Clone for RuntimeError {
    fn clone(&self) -> (r: Self)
        ensures
            r.deep_view() == self.deep_view(),
    {
        match self {
            RuntimeError::UndefinedVariable(s) => RuntimeError::UndefinedVariable(s.clone()),
            RuntimeError::AlreadyDefined(s) => RuntimeError::AlreadyDefined(s.clone()),
            RuntimeError::UndefinedFunction(s) => RuntimeError::UndefinedFunction(s.clone()),
            RuntimeError::NotEnoughArguments(s, expected, given) => {
                RuntimeError::NotEnoughArguments(s.clone(), *expected, *given)
            },
            RuntimeError::InvalidOperands(op, left, right) => RuntimeError::InvalidOperands(
                *op,
                *left,
                *right,
            ),
            RuntimeError::InvalidArgument(builtin, kind) => RuntimeError::InvalidArgument(
                *builtin,
                *kind,
            ),
            RuntimeError::NotIndexable(kind) => RuntimeError::NotIndexable(*kind),
            RuntimeError::InvalidIndex(kind) => RuntimeError::InvalidIndex(*kind),
            RuntimeError::NotAList(kind) => RuntimeError::NotAList(*kind),
            RuntimeError::IndexOutOfRange(len, index) => RuntimeError::IndexOutOfRange(
                *len,
                *index,
            ),
            RuntimeError::NegativeIndex(index) => RuntimeError::NegativeIndex(*index),
            RuntimeError::MissingKey(s) => RuntimeError::MissingKey(s.clone()),
            RuntimeError::BreakOutsideLoop => RuntimeError::BreakOutsideLoop,
            RuntimeError::ExpressionOutsideFunction => RuntimeError::ExpressionOutsideFunction,
            RuntimeError::ConditionNotBoolean(kind) => RuntimeError::ConditionNotBoolean(*kind),
            RuntimeError::InvalidInteger(s) => RuntimeError::InvalidInteger(s.clone()),
            RuntimeError::InvalidFloat(s) => RuntimeError::InvalidFloat(s.clone()),
            RuntimeError::DivisionByZero => RuntimeError::DivisionByZero,
            RuntimeError::Overflow => RuntimeError::Overflow,
            RuntimeError::NegativeExponent => RuntimeError::NegativeExponent,
            RuntimeError::NegativeRepeat => RuntimeError::NegativeRepeat,
            RuntimeError::EmptyRange => RuntimeError::EmptyRange,
            RuntimeError::UnexpectedReply => RuntimeError::UnexpectedReply,
            RuntimeError::Host(s) => RuntimeError::Host(s.clone()),
        }
    }
}

/// The operations on floats that the host performs. Each takes and gives
/// floats as decimal texts.
#[derive(Clone, Copy, Debug, PartialEq, Eq, Structural)]
pub enum FloatOp {
    Add,
    Sub,
    Mul,
    Div,
    FloorDiv,
    Mod,
    Pow,
    Cos,
    Sin,
    Tan,
    Acos,
    Asin,
    Atan,
    /// Reads the first text as a float, and gives it in the host's own writing.
    Parse,
    /// A float drawn between the first, included, and the second, excluded.
    Random,
}

/// How the host found two floats to compare.
#[derive(Clone, Copy, Debug, PartialEq, Eq, Structural)]
pub enum Order {
    Less,
    Equal,
    Greater,
    /// One of the two is no number.
    Unordered,
}

/// What the machine asks of its host.
#[derive(Debug, PartialEq)]
pub enum Request {
    /// Write this text to the output, as it is.
    Write(String),
    /// Flush the output.
    Flush,
    /// Read a line of input, and give it without the line's end.
    ReadLine,
    /// Compute on floats. An operation of one operand leaves the second text empty.
    Float(FloatOp, String, String),
    /// Compare two floats.
    Compare(String, String),
    /// Load the file at this path, and give its top-level bindings.
    Load(String),
}

/// The mathematical value of a [`Request`].
pub ghost enum RequestView {
    Write(Seq<char>),
    Flush,
    ReadLine,
    Float(FloatOp, Seq<char>, Seq<char>),
    Compare(Seq<char>, Seq<char>),
    Load(Seq<char>),
}

impl DeepView for Request {
    type V = RequestView;

    open spec fn deep_view(&self) -> RequestView {
        match self {
            Request::Write(s) => RequestView::Write(s@),
            Request::Flush => RequestView::Flush,
            Request::ReadLine => RequestView::ReadLine,
            Request::Float(op, a, b) => RequestView::Float(*op, a@, b@),
            Request::Compare(a, b) => RequestView::Compare(a@, b@),
            Request::Load(s) => RequestView::Load(s@),
        }
    }
}

/// What the host hands to the machine.
#[derive(Debug, PartialEq)]
pub enum Reply {
    /// Nothing: the machine asked for nothing, or for something that gives nothing.
    Empty,
    /// The line that was read.
    Line(String),
    /// The float that was computed.
    Float(String),
    /// How two floats compare.
    Order(Order),
    /// The text is no float.
    Invalid,
    /// The top-level bindings of the file that was loaded.
    Bindings(Vec<(String, Literal)>),
    /// The file was loaded before, or is being loaded: nothing new.
    Skipped,
    /// The host could not do what was asked.
    Failed(String),
}

/// The mathematical value of a [`Reply`].
pub ghost enum ReplyView {
    Empty,
    Line(Seq<char>),
    Float(Seq<char>),
    Order(Order),
    Invalid,
    Bindings(Seq<(Seq<char>, LiteralView)>),
    Skipped,
    Failed(Seq<char>),
}

impl DeepView for Reply {
    type V = ReplyView;

    open spec fn deep_view(&self) -> ReplyView {
        match self {
            Reply::Empty => ReplyView::Empty,
            Reply::Line(s) => ReplyView::Line(s@),
            Reply::Float(s) => ReplyView::Float(s@),
            Reply::Order(order) => ReplyView::Order(*order),
            Reply::Invalid => ReplyView::Invalid,
            Reply::Bindings(entries) => ReplyView::Bindings(table_view(entries@)),
            Reply::Skipped => ReplyView::Skipped,
            Reply::Failed(s) => ReplyView::Failed(s@),
        }
    }
}

/// What the machine does with the reply it waits for.
#[derive(Debug, PartialEq)]
pub enum Pending {
    /// Takes the float as the value.
    Float,
    /// Takes the float as the value; if this text was no float, fails.
    Parsed(String),
    /// Takes what the operator makes of the order as the value.
    Order(BinOp),
    /// Takes the line as the value, a string.
    Line,
    /// Takes nothing; the value is the unit.
    Written,
    /// Adds the bindings to the innermost scope.
    Loaded,
}

/// The mathematical value of a [`Pending`].
pub ghost enum PendingView {
    Float,
    Parsed(Seq<char>),
    Order(BinOp),
    Line,
    Written,
    Loaded,
}

impl DeepView for Pending {
    type V = PendingView;

    open spec fn deep_view(&self) -> PendingView {
        match self {
            Pending::Float => PendingView::Float,
            Pending::Parsed(s) => PendingView::Parsed(s@),
            Pending::Order(op) => PendingView::Order(*op),
            Pending::Line => PendingView::Line,
            Pending::Written => PendingView::Written,
            Pending::Loaded => PendingView::Loaded,
        }
    }
}

/// What an operation gives: a value, or a request whose reply will make the value.
#[derive(Debug, PartialEq)]
pub enum Computed {
    Value(Literal),
    Ask(Request, Pending),
}

/// The mathematical value of a [`Computed`].
pub ghost enum ComputedView {
    Value(LiteralView),
    Ask(RequestView, PendingView),
}

impl DeepView for Computed {
    type V = ComputedView;

    open spec fn deep_view(&self) -> ComputedView {
        match self {
            Computed::Value(v) => ComputedView::Value(literal_view(*v)),
            Computed::Ask(request, pending) => ComputedView::Ask(
                request.deep_view(),
                pending.deep_view(),
            ),
        }
    }
}

/// What a step of the machine tells its host.
#[derive(Debug, PartialEq)]
pub enum Signal {
    /// There is more to do, and nothing to ask.
    Running,
    /// The machine waits for the reply to this request.
    Request(Request),
    /// The program has run to its end.
    Finished,
    /// The program has failed.
    Failed(RuntimeError),
}

/// The mathematical value of a [`Signal`].
pub ghost enum SignalView {
    Running,
    Request(RequestView),
    Finished,
    Failed(RuntimeErrorView),
}

impl DeepView for Signal {
    type V = SignalView;

    open spec fn deep_view(&self) -> SignalView {
        match self {
            Signal::Running => SignalView::Running,
            Signal::Request(request) => SignalView::Request(request.deep_view()),
            Signal::Finished => SignalView::Finished,
            Signal::Failed(error) => SignalView::Failed(error.deep_view()),
        }
    }
}

/// The result of an operation: what it gives, or the error.
pub type Outcome = Result<ComputedView, RuntimeErrorView>;

/// Whether what an operation returned is what `wanted` says.
pub open spec fn computes(r: Result<Computed, RuntimeError>, wanted: Outcome) -> bool {
    match wanted {
        Ok(c) => r matches Ok(x) && x.deep_view() == c,
        Err(e) => r matches Err(x) && x.deep_view() == e,
    }
}

/// A value, as the result of an operation.
pub open spec fn value(v: LiteralView) -> Outcome {
    Ok(ComputedView::Value(v))
}

/// A request for a float, as the result of an operation.
pub open spec fn ask_float(op: FloatOp, left: Seq<char>, right: Seq<char>) -> Outcome {
    Ok(ComputedView::Ask(RequestView::Float(op, left, right), PendingView::Float))
}

} // verus!
