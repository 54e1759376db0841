//! The words that errors are reported in.

use vstd::prelude::*;
use vstd::string::StringExecFns;
use crate::error::{FlushError, FlushErrorView};
use crate::interpreting::builtins::math::builtin_name;
use crate::interpreting::outcome::{RuntimeError, RuntimeErrorView};
use crate::interpreting::typing::Kind;
use crate::lexing::typing::{Op, TokenKind, TokenKindView};
use crate::parsing::grammar::{
    Expected, Mark, ParseError, ParseErrorKind, ParseErrorKindView, ParseErrorView,
};
use crate::parsing::typing::BinOp;
use crate::text::{decimal, int_text, push_char, push_decimal, signed_decimal};

verus! {

/// The name of an operator token.
pub open spec fn op_text(op: Op) -> Seq<char> {
    match op {
        Op::Add => "Add"@,
        Op::Sub => "Sub"@,
        Op::Mul => "Mul"@,
        Op::Div => "Div"@,
        Op::FloorDiv => "FloorDiv"@,
        Op::Mod => "Mod"@,
        Op::Pow => "Pow"@,
        Op::Lt => "Lt"@,
        Op::Gt => "Gt"@,
        Op::Eq => "Eq"@,
        Op::Ne => "Ne"@,
        Op::Le => "Le"@,
        Op::Ge => "Ge"@,
    }
}

/// A name with what it holds in parentheses after it.
pub open spec fn holding(name: Seq<char>, held: Seq<char>) -> Seq<char> {
    name + seq!['('] + held + seq![')']
}

/// A text between double quotes.
pub open spec fn in_quotes(text: Seq<char>) -> Seq<char> {
    seq!['"'] + text + seq!['"']
}

/// A text between backticks.
pub open spec fn in_ticks(text: Seq<char>) -> Seq<char> {
    seq!['`'] + text + seq!['`']
}

/// The words for a token.
pub open spec fn token_text(kind: TokenKindView) -> Seq<char> {
    match kind {
        TokenKindView::LParen => "LParen"@,
        TokenKindView::RParen => "RParen"@,
        TokenKindView::LBrace => "LBrace"@,
        TokenKindView::RBrace => "RBrace"@,
        TokenKindView::LBracket => "LBracket"@,
        TokenKindView::RBracket => "RBracket"@,
        TokenKindView::Comma => "Comma"@,
        TokenKindView::Colon => "Colon"@,
        TokenKindView::If => "If"@,
        TokenKindView::Else => "Else"@,
        TokenKindView::Def => "Def"@,
        TokenKindView::SetVar => "Set"@,
        TokenKindView::Return => "Return"@,
        TokenKindView::While => "While"@,
        TokenKindView::For => "For"@,
        TokenKindView::In => "In"@,
        TokenKindView::Break => "Break"@,
        TokenKindView::Load => "Load"@,
        TokenKindView::String(s) => holding("String"@, in_quotes(s)),
        TokenKindView::Int(n) => holding("Int"@, signed_decimal(n as int)),
        TokenKindView::Float(x) => holding("Float"@, x),
        TokenKindView::Boolean(b) => holding(
            "Boolean"@,
            if b {
                "true"@
            } else {
                "false"@
            },
        ),
        TokenKindView::Ident(s) => holding("Ident"@, in_quotes(s)),
        TokenKindView::Op(op) => holding("Op"@, op_text(op)),
        TokenKindView::Assign => "Assign"@,
    }
}

/// The words for what the parser was looking for.
pub open spec fn expected_text(expected: Expected) -> Seq<char> {
    match expected {
        Expected::Mark(Mark::LParen) => "LParen"@,
        Expected::Mark(Mark::RParen) => "RParen"@,
        Expected::Mark(Mark::LBrace) => "LBrace"@,
        Expected::Mark(Mark::RBrace) => "RBrace"@,
        Expected::Mark(Mark::RBracket) => "RBracket"@,
        Expected::Mark(Mark::Comma) => "Comma"@,
        Expected::Mark(Mark::Colon) => "Colon"@,
        Expected::Mark(Mark::In) => "In"@,
        Expected::Mark(Mark::Assign) => "Assign"@,
        Expected::Expression => "Expression"@,
        Expected::Number => "Number"@,
        Expected::Text => "String"@,
    }
}

/// The message for a parse error.
pub open spec fn parse_message(kind: ParseErrorKindView) -> Seq<char> {
    match kind {
        ParseErrorKindView::UnexpectedToken(found, expected) => "Expected "@ + expected_text(
            expected,
        ) + ", found "@ + token_text(found),
        ParseErrorKindView::ExpectedIdentifier(Some(found)) => "Expected Identifier, found "@
            + token_text(found),
        ParseErrorKindView::ExpectedIdentifier(None) => "Expected Identifier, found nothing"@,
        ParseErrorKindView::UnterminatedConstruct(expected) => "Expected "@ + expected_text(
            expected,
        ) + ", found nothing"@,
        ParseErrorKindView::UnknownStatement(found) => "Unknown statement "@ + token_text(found),
        ParseErrorKindView::UnfinishedFunctionBody => "Unfinished function body"@,
        ParseErrorKindView::NumberOutOfRange => "Number out of range"@,
    }
}

/// A parse error as reported for the file `file`.
pub open spec fn parse_report(file: Seq<char>, e: ParseErrorView) -> FlushErrorView {
    FlushErrorView { file, line: e.line, message: parse_message(e.kind) }
}

/// The name of a kind of value.
pub open spec fn kind_text(kind: Kind) -> Seq<char> {
    match kind {
        Kind::String => "String"@,
        Kind::Int => "Int"@,
        Kind::Float => "Float"@,
        Kind::Boolean => "Boolean"@,
        Kind::List => "List"@,
        Kind::Dictionnary => "Dictionnary"@,
        Kind::Function => "Function"@,
        Kind::Unit => "None"@,
    }
}

/// An operator as it is written.
pub open spec fn operator_text(op: BinOp) -> Seq<char> {
    match op {
        BinOp::Add => "+"@,
        BinOp::Sub => "-"@,
        BinOp::Mul => "*"@,
        BinOp::Div => "/"@,
        BinOp::FloorDiv => "//"@,
        BinOp::Mod => "%"@,
        BinOp::Pow => "^"@,
        BinOp::Lt => "<"@,
        BinOp::Gt => ">"@,
        BinOp::Eq => "=="@,
        BinOp::Ne => "/="@,
        BinOp::Le => "<="@,
        BinOp::Ge => ">="@,
    }
}

/// The message for a runtime error.
pub open spec fn runtime_message(e: RuntimeErrorView) -> Seq<char> {
    match e {
        RuntimeErrorView::UndefinedVariable(name) => "The variable "@ + in_ticks(name)
            + " cannot be found!"@,
        RuntimeErrorView::AlreadyDefined(name) => "The "@ + in_ticks(name)
            + " variable already exists!"@,
        RuntimeErrorView::UndefinedFunction(name) => "Undefined function "@ + in_ticks(name)
            + seq!['!'],
        RuntimeErrorView::NotEnoughArguments(name, expected, given) => "Not enough arguments for "@
            + in_ticks(name) + ", expected "@ + in_ticks(decimal(expected as nat)) + " given "@
            + in_ticks(decimal(given as nat)) + seq!['!'],
        RuntimeErrorView::InvalidOperands(op, left, right) => "Can't apply "@ + in_ticks(
            operator_text(op),
        ) + " to "@ + kind_text(left) + " and "@ + kind_text(right),
        RuntimeErrorView::InvalidArgument(builtin, kind) => "The "@ + in_ticks(
            builtin_name(builtin),
        ) + " function does not take a "@ + kind_text(kind),
        RuntimeErrorView::NotIndexable(kind) => "Could not index "@ + kind_text(kind),
        RuntimeErrorView::InvalidIndex(kind) => "Could not index with "@ + kind_text(kind),
        RuntimeErrorView::NotAList(kind) => "Expected a List, found "@ + kind_text(kind),
        RuntimeErrorView::IndexOutOfRange(len, index) => "The list has a length of "@ + in_ticks(
            decimal(len as nat),
        ) + " but the index is "@ + in_ticks(signed_decimal(index as int)) + seq!['!'],
        RuntimeErrorView::NegativeIndex(index) => "The "@ + in_ticks(signed_decimal(index as int))
            + " is not valid as an index!"@,
        RuntimeErrorView::MissingKey(key) => "The key "@ + in_ticks(key) + " does not exist"@,
        RuntimeErrorView::BreakOutsideLoop => "The break keyword cannot be used outside a loop!"@,
        RuntimeErrorView::ExpressionOutsideFunction => {
            "Cannot evaluate expression outside a function!"@
        },
        RuntimeErrorView::ConditionNotBoolean(kind) => "An expression must return a boolean, not "@
            + in_ticks(kind_text(kind)),
        RuntimeErrorView::InvalidInteger(text) => "Invalid Integer "@ + in_ticks(text),
        RuntimeErrorView::InvalidFloat(text) => "Invalid Float "@ + in_ticks(text),
        RuntimeErrorView::DivisionByZero => "Division by zero"@,
        RuntimeErrorView::Overflow => "Integer overflow"@,
        RuntimeErrorView::NegativeExponent => "Negative exponent"@,
        RuntimeErrorView::NegativeRepeat => "Negative repeat count"@,
        RuntimeErrorView::EmptyRange => "Empty range"@,
        RuntimeErrorView::UnexpectedReply => "Unexpected reply from the host"@,
        RuntimeErrorView::Host(message) => message,
    }
}

fn op_name(op: Op) -> (r: &'static str)
    ensures
        r@ == op_text(op),
{
    match op {
        Op::Add => "Add",
        Op::Sub => "Sub",
        Op::Mul => "Mul",
        Op::Div => "Div",
        Op::FloorDiv => "FloorDiv",
        Op::Mod => "Mod",
        Op::Pow => "Pow",
        Op::Lt => "Lt",
        Op::Gt => "Gt",
        Op::Eq => "Eq",
        Op::Ne => "Ne",
        Op::Le => "Le",
        Op::Ge => "Ge",
    }
}

/// Appends `name` with `held` in parentheses after it.
fn push_holding(out: &mut String, name: &str, held: &str)
    ensures
        final(out)@ == old(out)@ + holding(name@, held@),
{
    out.append(name);
    push_char(out, '(');
    out.append(held);
    push_char(out, ')');
    assert(out@ =~= old(out)@ + holding(name@, held@));
}

/// Appends `text` between `mark`s.
fn push_between(out: &mut String, mark: char, text: &str)
    ensures
        final(out)@ == old(out)@ + (seq![mark] + text@ + seq![mark]),
{
    push_char(out, mark);
    out.append(text);
    push_char(out, mark);
    assert(out@ =~= old(out)@ + (seq![mark] + text@ + seq![mark]));
}

/// `text` between `mark`s.
fn between(mark: char, text: &str) -> (r: String)
    ensures
        r@ == seq![mark] + text@ + seq![mark],
{
    let mut out = String::new();
    push_between(&mut out, mark, text);
    assert(out@ =~= seq![mark] + text@ + seq![mark]);
    out
}

/// The decimal numeral of `n`.
fn count_text(n: usize) -> (r: String)
    ensures
        r@ == decimal(n as nat),
{
    let mut out = String::new();
    push_decimal(&mut out, n as u64);
    assert(out@ =~= decimal(n as nat));
    out
}

impl TokenKind {
    /// The words for this token.
    pub fn describe(&self) -> (r: String)
        ensures
            r@ == token_text(self.deep_view()),
    {
        let mut out = String::new();
        match self {
            TokenKind::LParen => out.append("LParen"),
            TokenKind::RParen => out.append("RParen"),
            TokenKind::LBrace => out.append("LBrace"),
            TokenKind::RBrace => out.append("RBrace"),
            TokenKind::LBracket => out.append("LBracket"),
            TokenKind::RBracket => out.append("RBracket"),
            TokenKind::Comma => out.append("Comma"),
            TokenKind::Colon => out.append("Colon"),
            TokenKind::If => out.append("If"),
            TokenKind::Else => out.append("Else"),
            TokenKind::Def => out.append("Def"),
            TokenKind::SetVar => out.append("Set"),
            TokenKind::Return => out.append("Return"),
            TokenKind::While => out.append("While"),
            TokenKind::For => out.append("For"),
            TokenKind::In => out.append("In"),
            TokenKind::Break => out.append("Break"),
            TokenKind::Load => out.append("Load"),
            TokenKind::String(s) => push_holding(&mut out, "String", between('"', s.as_str()).as_str()),
            TokenKind::Int(n) => push_holding(&mut out, "Int", int_text(*n).as_str()),
            TokenKind::Float(x) => push_holding(&mut out, "Float", x.as_str()),
            TokenKind::Boolean(b) => push_holding(
                &mut out,
                "Boolean",
                if *b {
                    "true"
                } else {
                    "false"
                },
            ),
            TokenKind::Ident(s) => push_holding(&mut out, "Ident", between('"', s.as_str()).as_str()),
            TokenKind::Op(op) => push_holding(&mut out, "Op", op_name(*op)),
            TokenKind::Assign => out.append("Assign"),
        }
        assert(out@ =~= token_text(self.deep_view()));
        out
    }
}

impl Expected {
    /// The words for what the parser was looking for.
    pub fn describe(self) -> (r: &'static str)
        ensures
            r@ == expected_text(self),
    {
        match self {
            Expected::Mark(Mark::LParen) => "LParen",
            Expected::Mark(Mark::RParen) => "RParen",
            Expected::Mark(Mark::LBrace) => "LBrace",
            Expected::Mark(Mark::RBrace) => "RBrace",
            Expected::Mark(Mark::RBracket) => "RBracket",
            Expected::Mark(Mark::Comma) => "Comma",
            Expected::Mark(Mark::Colon) => "Colon",
            Expected::Mark(Mark::In) => "In",
            Expected::Mark(Mark::Assign) => "Assign",
            Expected::Expression => "Expression",
            Expected::Number => "Number",
            Expected::Text => "String",
        }
    }
}

impl ParseError {
    /// The message for this error.
    pub fn message(&self) -> (r: String)
        ensures
            r@ == parse_message(self.deep_view().kind),
    {
        let mut out = String::new();
        match &self.kind {
            ParseErrorKind::UnexpectedToken(found, expected) => {
                out.append("Expected ");
                out.append(expected.describe());
                out.append(", found ");
                out.append(found.describe().as_str());
            },
            ParseErrorKind::ExpectedIdentifier(Some(found)) => {
                out.append("Expected Identifier, found ");
                out.append(found.describe().as_str());
            },
            ParseErrorKind::ExpectedIdentifier(None) => {
                out.append("Expected Identifier, found nothing");
            },
            ParseErrorKind::UnterminatedConstruct(expected) => {
                out.append("Expected ");
                out.append(expected.describe());
                out.append(", found nothing");
            },
            ParseErrorKind::UnknownStatement(found) => {
                out.append("Unknown statement ");
                out.append(found.describe().as_str());
            },
            ParseErrorKind::UnfinishedFunctionBody => {
                out.append("Unfinished function body");
            },
            ParseErrorKind::NumberOutOfRange => {
                out.append("Number out of range");
            },
        }
        assert(out@ =~= parse_message(self.deep_view().kind));
        out
    }

    /// This error as reported for the file `file`.
    pub fn report(&self, file: &String) -> (r: FlushError)
        ensures
            r.deep_view() == parse_report(file@, self.deep_view()),
    {
        FlushError(file.clone(), self.line, self.message())
    }
}

impl Kind {
    /// The name of this kind of value.
    pub fn name(self) -> (r: &'static str)
        ensures
            r@ == kind_text(self),
    {
        match self {
            Kind::String => "String",
            Kind::Int => "Int",
            Kind::Float => "Float",
            Kind::Boolean => "Boolean",
            Kind::List => "List",
            Kind::Dictionnary => "Dictionnary",
            Kind::Function => "Function",
            Kind::Unit => "None",
        }
    }
}

impl BinOp {
    /// This operator as it is written.
    pub fn symbol(self) -> (r: &'static str)
        ensures
            r@ == operator_text(self),
    {
        match self {
            BinOp::Add => "+",
            BinOp::Sub => "-",
            BinOp::Mul => "*",
            BinOp::Div => "/",
            BinOp::FloorDiv => "//",
            BinOp::Mod => "%",
            BinOp::Pow => "^",
            BinOp::Lt => "<",
            BinOp::Gt => ">",
            BinOp::Eq => "==",
            BinOp::Ne => "/=",
            BinOp::Le => "<=",
            BinOp::Ge => ">=",
        }
    }
}

impl RuntimeError {
    /// The message for this error.
    pub fn to_string(&self) -> (r: String)
        ensures
            r@ == runtime_message(self.deep_view()),
    {
        let mut out = String::new();
        match self {
            RuntimeError::UndefinedVariable(name) => {
                out.append("The variable ");
                push_between(&mut out, '`', name.as_str());
                out.append(" cannot be found!");
            },
            RuntimeError::AlreadyDefined(name) => {
                out.append("The ");
                push_between(&mut out, '`', name.as_str());
                out.append(" variable already exists!");
            },
            RuntimeError::UndefinedFunction(name) => {
                out.append("Undefined function ");
                push_between(&mut out, '`', name.as_str());
                push_char(&mut out, '!');
            },
            RuntimeError::NotEnoughArguments(name, expected, given) => {
                out.append("Not enough arguments for ");
                push_between(&mut out, '`', name.as_str());
                out.append(", expected ");
                push_between(&mut out, '`', count_text(*expected).as_str());
                out.append(" given ");
                push_between(&mut out, '`', count_text(*given).as_str());
                push_char(&mut out, '!');
            },
            RuntimeError::InvalidOperands(op, left, right) => {
                out.append("Can't apply ");
                push_between(&mut out, '`', op.symbol());
                out.append(" to ");
                out.append(left.name());
                out.append(" and ");
                out.append(right.name());
            },
            RuntimeError::InvalidArgument(builtin, kind) => {
                out.append("The ");
                push_between(&mut out, '`', builtin.name().as_str());
                out.append(" function does not take a ");
                out.append(kind.name());
            },
            RuntimeError::NotIndexable(kind) => {
                out.append("Could not index ");
                out.append(kind.name());
            },
            RuntimeError::InvalidIndex(kind) => {
                out.append("Could not index with ");
                out.append(kind.name());
            },
            RuntimeError::NotAList(kind) => {
                out.append("Expected a List, found ");
                out.append(kind.name());
            },
            RuntimeError::IndexOutOfRange(len, index) => {
                out.append("The list has a length of ");
                push_between(&mut out, '`', count_text(*len).as_str());
                out.append(" but the index is ");
                push_between(&mut out, '`', int_text(*index).as_str());
                push_char(&mut out, '!');
            },
            RuntimeError::NegativeIndex(index) => {
                out.append("The ");
                push_between(&mut out, '`', int_text(*index).as_str());
                out.append(" is not valid as an index!");
            },
            RuntimeError::MissingKey(key) => {
                out.append("The key ");
                push_between(&mut out, '`', key.as_str());
                out.append(" does not exist");
            },
            RuntimeError::BreakOutsideLoop => {
                out.append("The break keyword cannot be used outside a loop!");
            },
            RuntimeError::ExpressionOutsideFunction => {
                out.append("Cannot evaluate expression outside a function!");
            },
            RuntimeError::ConditionNotBoolean(kind) => {
                out.append("An expression must return a boolean, not ");
                push_between(&mut out, '`', kind.name());
            },
            RuntimeError::InvalidInteger(text) => {
                out.append("Invalid Integer ");
                push_between(&mut out, '`', text.as_str());
            },
            RuntimeError::InvalidFloat(text) => {
                out.append("Invalid Float ");
                push_between(&mut out, '`', text.as_str());
            },
            RuntimeError::DivisionByZero => {
                out.append("Division by zero");
            },
            RuntimeError::Overflow => {
                out.append("Integer overflow");
            },
            RuntimeError::NegativeExponent => {
                out.append("Negative exponent");
            },
            RuntimeError::NegativeRepeat => {
                out.append("Negative repeat count");
            },
            RuntimeError::EmptyRange => {
                out.append("Empty range");
            },
            RuntimeError::UnexpectedReply => {
                out.append("Unexpected reply from the host");
            },
            RuntimeError::Host(message) => {
                out.append(message.as_str());
            },
        }
        assert(out@ =~= runtime_message(self.deep_view()));
        out
    }
}

} // verus!
