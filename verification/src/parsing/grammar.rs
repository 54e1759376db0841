//! The grammar, as functions from a token sequence and a place in it to what
//! is read from there.
//!
//! There is no operator precedence: the right operand of an operator is the
//! whole rest of the expression, so operators group to the right.

use vstd::prelude::*;
use crate::lexing::typing::{Op, TokenKind, TokenKindView, TokenView};
use crate::parsing::typing::{BinOp, ExprView, StatementView};
use crate::table::put;

verus! {

/// A token without a payload that the grammar asks for by name.
#[derive(Clone, Copy, Debug, PartialEq, Eq, Structural)]
pub enum Mark {
    LParen,
    RParen,
    LBrace,
    RBrace,
    RBracket,
    Comma,
    Colon,
    In,
    Assign,
}

/// What the parser was looking for when it failed.
#[derive(Clone, Copy, Debug, PartialEq, Eq, Structural)]
pub enum Expected {
    Mark(Mark),
    Expression,
    Number,
    Text,
}

/// What can go wrong while parsing.
#[derive(Debug, PartialEq)]
pub enum ParseErrorKind {
    /// A token stands where something else was expected.
    UnexpectedToken(TokenKind, Expected),
    /// A name was expected; the token found instead, if there was one.
    ExpectedIdentifier(Option<TokenKind>),
    /// The input ended where something was still expected.
    UnterminatedConstruct(Expected),
    /// No statement starts with this token.
    UnknownStatement(TokenKind),
    /// The input ended inside the body of a function.
    UnfinishedFunctionBody,
    /// A number cannot be negated within 32 bits.
    NumberOutOfRange,
}

/// The mathematical value of a [`ParseErrorKind`].
pub ghost enum ParseErrorKindView {
    UnexpectedToken(TokenKindView, Expected),
    ExpectedIdentifier(Option<TokenKindView>),
    UnterminatedConstruct(Expected),
    UnknownStatement(TokenKindView),
    UnfinishedFunctionBody,
    NumberOutOfRange,
}

impl DeepView for ParseErrorKind {
    type V = ParseErrorKindView;

    open spec fn deep_view(&self) -> ParseErrorKindView {
        match self {
            ParseErrorKind::UnexpectedToken(found, expected) => ParseErrorKindView::UnexpectedToken(
                found.deep_view(),
                *expected,
            ),
            ParseErrorKind::ExpectedIdentifier(found) => ParseErrorKindView::ExpectedIdentifier(
                match found {
                    Some(kind) => Some(kind.deep_view()),
                    None => None,
                },
            ),
            ParseErrorKind::UnterminatedConstruct(expected) => {
                ParseErrorKindView::UnterminatedConstruct(*expected)
            },
            ParseErrorKind::UnknownStatement(found) => ParseErrorKindView::UnknownStatement(
                found.deep_view(),
            ),
            ParseErrorKind::UnfinishedFunctionBody => ParseErrorKindView::UnfinishedFunctionBody,
            ParseErrorKind::NumberOutOfRange => ParseErrorKindView::NumberOutOfRange,
        }
    }
}

/// A parse error and the line it was found on.
#[derive(Debug, PartialEq)]
pub struct ParseError {
    pub line: usize,
    pub kind: ParseErrorKind,
}

/// The mathematical value of a [`ParseError`].
pub ghost struct ParseErrorView {
    pub line: usize,
    pub kind: ParseErrorKindView,
}

impl DeepView for ParseError {
    type V = ParseErrorView;

    open spec fn deep_view(&self) -> ParseErrorView {
        ParseErrorView { line: self.line, kind: self.kind.deep_view() }
    }
}

/// What is read from a place on: the value, and how many tokens it takes
/// (for an expression or a statement: how many after its first).
pub type Parsed<T> = Result<(T, nat), ParseErrorView>;

/// The token that a mark stands for.
pub open spec fn token_of(mark: Mark) -> TokenKindView {
    match mark {
        Mark::LParen => TokenKindView::LParen,
        Mark::RParen => TokenKindView::RParen,
        Mark::LBrace => TokenKindView::LBrace,
        Mark::RBrace => TokenKindView::RBrace,
        Mark::RBracket => TokenKindView::RBracket,
        Mark::Comma => TokenKindView::Comma,
        Mark::Colon => TokenKindView::Colon,
        Mark::In => TokenKindView::In,
        Mark::Assign => TokenKindView::Assign,
    }
}

/// The binary operator that an operator token stands for.
pub open spec fn bin_op(op: Op) -> BinOp {
    match op {
        Op::Add => BinOp::Add,
        Op::Sub => BinOp::Sub,
        Op::Mul => BinOp::Mul,
        Op::Div => BinOp::Div,
        Op::FloorDiv => BinOp::FloorDiv,
        Op::Mod => BinOp::Mod,
        Op::Pow => BinOp::Pow,
        Op::Lt => BinOp::Lt,
        Op::Gt => BinOp::Gt,
        Op::Eq => BinOp::Eq,
        Op::Ne => BinOp::Ne,
        Op::Le => BinOp::Le,
        Op::Ge => BinOp::Ge,
    }
}

/// How many tokens are left from `pos` on.
pub open spec fn remaining(t: Seq<TokenView>, pos: int) -> nat {
    if 0 <= pos <= t.len() {
        (t.len() - pos) as nat
    } else {
        0
    }
}

/// The kind of the token at `pos`, if there is one.
pub open spec fn kind_at(t: Seq<TokenView>, pos: int) -> Option<TokenKindView> {
    if 0 <= pos < t.len() {
        Some(t[pos].kind)
    } else {
        None
    }
}

/// The line of the token before `pos`; line one where there is none.
pub open spec fn line_before(t: Seq<TokenView>, pos: int) -> usize {
    if 0 < pos <= t.len() {
        t[pos - 1].line
    } else {
        1
    }
}

/// A failure on line `line`.
pub open spec fn fail<T>(line: usize, kind: ParseErrorKindView) -> Result<T, ParseErrorView> {
    Err(ParseErrorView { line, kind })
}

/// The same result, with `by` more tokens taken before it.
pub open spec fn shift<T>(r: Parsed<T>, by: nat) -> Parsed<T> {
    match r {
        Ok((value, n)) => Ok((value, n + by)),
        Err(e) => Err(e),
    }
}

/// Whether the token at `pos` is the one that `mark` stands for; if not, the error.
pub open spec fn expect(t: Seq<TokenView>, pos: int, mark: Mark) -> Result<(), ParseErrorView> {
    if 0 <= pos < t.len() {
        if t[pos].kind == token_of(mark) {
            Ok(())
        } else {
            fail(
                t[pos].line,
                ParseErrorKindView::UnexpectedToken(t[pos].kind, Expected::Mark(mark)),
            )
        }
    } else {
        fail(
            line_before(t, pos),
            ParseErrorKindView::UnterminatedConstruct(Expected::Mark(mark)),
        )
    }
}

/// The text of a float with its sign changed.
pub open spec fn negated(text: Seq<char>) -> Seq<char> {
    if text.len() > 0 && text[0] == '-' {
        text.subrange(1, text.len() as int)
    } else {
        seq!['-'] + text
    }
}

/// The expression that starts at `pos`.
pub open spec fn expr_at(t: Seq<TokenView>, pos: int) -> Parsed<ExprView>
    decreases remaining(t, pos), 1nat,
{
    if 0 <= pos < t.len() {
        let line = t[pos].line;
        match t[pos].kind {
            TokenKindView::String(s) => tail_at(t, pos, 0, ExprView::String(s)),
            TokenKindView::Int(n) => tail_at(t, pos, 0, ExprView::Int(n)),
            TokenKindView::Float(x) => tail_at(t, pos, 0, ExprView::Float(x)),
            TokenKindView::Boolean(b) => tail_at(t, pos, 0, ExprView::Boolean(b)),
            TokenKindView::Ident(id) => match kind_at(t, pos + 1) {
                Some(TokenKindView::LParen) => match call_at(t, pos + 2, id) {
                    Ok((call, n)) => tail_at(t, pos, 1 + n, call),
                    Err(e) => Err(e),
                },
                Some(TokenKindView::LBracket) => match index_at(t, pos + 2, ExprView::Var(id)) {
                    Ok((index, n)) => tail_at(t, pos, 1 + n, index),
                    Err(e) => Err(e),
                },
                _ => tail_at(t, pos, 0, ExprView::Var(id)),
            },
            TokenKindView::LBracket => match list_at(t, pos + 1) {
                Ok((list, n)) => tail_at(t, pos, n, list),
                Err(e) => Err(e),
            },
            TokenKindView::LBrace => match dict_at(t, pos + 1, Seq::empty()) {
                Ok((entries, n)) => tail_at(t, pos, n, ExprView::Dictionnary(entries)),
                Err(e) => Err(e),
            },
            TokenKindView::Op(op) => {
                if pos + 1 >= t.len() {
                    fail(line, ParseErrorKindView::UnterminatedConstruct(Expected::Number))
                } else {
                    match expr_at(t, pos + 1) {
                        Err(e) => Err(e),
                        Ok((ExprView::Int(n), m)) => {
                            if op != Op::Sub {
                                fail(
                                    line,
                                    ParseErrorKindView::UnexpectedToken(
                                        TokenKindView::Op(op),
                                        Expected::Expression,
                                    ),
                                )
                            } else if n == i32::MIN {
                                fail(line, ParseErrorKindView::NumberOutOfRange)
                            } else {
                                Ok((ExprView::Int((-n) as i32), 1 + m))
                            }
                        },
                        Ok((ExprView::Float(x), m)) => {
                            if op != Op::Sub {
                                fail(
                                    line,
                                    ParseErrorKindView::UnexpectedToken(
                                        TokenKindView::Op(op),
                                        Expected::Expression,
                                    ),
                                )
                            } else {
                                Ok((ExprView::Float(negated(x)), 1 + m))
                            }
                        },
                        Ok(_) => fail(
                            t[pos + 1].line,
                            ParseErrorKindView::UnexpectedToken(t[pos + 1].kind, Expected::Number),
                        ),
                    }
                }
            },
            other => fail(line, ParseErrorKindView::UnexpectedToken(other, Expected::Expression)),
        }
    } else {
        fail(line_before(t, pos), ParseErrorKindView::UnterminatedConstruct(Expected::Expression))
    }
}

/// The expression that starts at `pos` with `left`, which takes `n` tokens
/// after its first: `left` itself, or the operation that an operator after it
/// makes with the rest.
pub open spec fn tail_at(t: Seq<TokenView>, pos: int, n: nat, left: ExprView) -> Parsed<ExprView>
    decreases remaining(t, pos), 0nat,
{
    match kind_at(t, pos + 1 + n) {
        Some(TokenKindView::Op(op)) => {
            if 0 <= pos {
                match expr_at(t, pos + 2 + n) {
                    Ok((right, m)) => Ok(
                        (ExprView::BinOp(bin_op(op), Box::new(left), Box::new(right)), n + 2 + m),
                    ),
                    Err(e) => Err(e),
                }
            } else {
                Ok((left, n))
            }
        },
        _ => Ok((left, n)),
    }
}

/// The items from `pos` up to the closing mark, which is taken too; commas
/// stand between them, and one may follow the last.
pub open spec fn items_at(t: Seq<TokenView>, pos: int, acc: Seq<ExprView>, close: Mark) -> Parsed<
    Seq<ExprView>,
>
    decreases remaining(t, pos), 2nat,
{
    if 0 <= pos < t.len() && t[pos].kind != token_of(close) {
        match expr_at(t, pos) {
            Err(e) => Err(e),
            Ok((item, n)) => {
                let next = pos + 1 + n;
                if kind_at(t, next) == Some(token_of(close)) {
                    Ok((acc.push(item), n + 2))
                } else {
                    match expect(t, next, Mark::Comma) {
                        Err(e) => Err(e),
                        Ok(()) => shift(items_at(t, next + 1, acc.push(item), close), n + 2),
                    }
                }
            },
        }
    } else {
        match expect(t, pos, close) {
            Ok(()) => Ok((acc, 1)),
            Err(e) => Err(e),
        }
    }
}

/// `target` indexed by the expression at `pos`, with the closing bracket.
pub open spec fn index_at(t: Seq<TokenView>, pos: int, target: ExprView) -> Parsed<ExprView>
    decreases remaining(t, pos), 2nat,
{
    match expr_at(t, pos) {
        Err(e) => Err(e),
        Ok((index, n)) => match expect(t, pos + 1 + n, Mark::RBracket) {
            Err(e) => Err(e),
            Ok(()) => Ok((ExprView::Index(Box::new(target), Box::new(index)), n + 2)),
        },
    }
}

/// `made` from the items that end before `pos + n`, or `made` indexed where a
/// bracket follows.
pub open spec fn suffix_at(t: Seq<TokenView>, pos: int, n: nat, made: ExprView) -> Parsed<ExprView>
    decreases remaining(t, pos), 3nat,
{
    match kind_at(t, pos + n) {
        Some(TokenKindView::LBracket) => {
            if 0 <= pos {
                shift(index_at(t, pos + n + 1, made), n + 1)
            } else {
                Ok((made, n))
            }
        },
        _ => Ok((made, n)),
    }
}

/// The call of `id` whose arguments start at `pos`, after the opening parenthesis.
pub open spec fn call_at(t: Seq<TokenView>, pos: int, id: Seq<char>) -> Parsed<ExprView>
    decreases remaining(t, pos), 4nat,
{
    match items_at(t, pos, Seq::empty(), Mark::RParen) {
        Err(e) => Err(e),
        Ok((args, n)) => suffix_at(t, pos, n, ExprView::Call(id, args)),
    }
}

/// The list literal whose items start at `pos`, after the opening bracket.
pub open spec fn list_at(t: Seq<TokenView>, pos: int) -> Parsed<ExprView>
    decreases remaining(t, pos), 4nat,
{
    match items_at(t, pos, Seq::empty(), Mark::RBracket) {
        Err(e) => Err(e),
        Ok((items, n)) => suffix_at(t, pos, n, ExprView::List(items)),
    }
}

/// The entries of a dictionary literal from `pos` up to the closing brace,
/// which is taken too. A key written again replaces the value it had.
pub open spec fn dict_at(t: Seq<TokenView>, pos: int, acc: Seq<(Seq<char>, ExprView)>) -> Parsed<
    Seq<(Seq<char>, ExprView)>,
>
    decreases remaining(t, pos), 2nat,
{
    if 0 <= pos < t.len() && t[pos].kind != TokenKindView::RBrace {
        match expr_at(t, pos) {
            Err(e) => Err(e),
            Ok((ExprView::String(key), n)) => match expect(t, pos + 1 + n, Mark::Colon) {
                Err(e) => Err(e),
                Ok(()) => match expr_at(t, pos + 2 + n) {
                    Err(e) => Err(e),
                    Ok((value, m)) => {
                        let next = pos + 3 + n + m;
                        let entries = put(acc, key, value);
                        if kind_at(t, next) == Some(TokenKindView::RBrace) {
                            Ok((entries, n + m + 4))
                        } else {
                            match expect(t, next, Mark::Comma) {
                                Err(e) => Err(e),
                                Ok(()) => shift(dict_at(t, next + 1, entries), n + m + 4),
                            }
                        }
                    },
                },
            },
            Ok(_) => fail(
                t[pos].line,
                ParseErrorKindView::UnexpectedToken(t[pos].kind, Expected::Text),
            ),
        }
    } else {
        match expect(t, pos, Mark::RBrace) {
            Ok(()) => Ok((acc, 1)),
            Err(e) => Err(e),
        }
    }
}

/// The statement that starts at `pos`.
pub open spec fn statement_at(t: Seq<TokenView>, pos: int) -> Parsed<StatementView>
    decreases remaining(t, pos), 2nat,
{
    if 0 <= pos < t.len() {
        match t[pos].kind {
            TokenKindView::If => if_at(t, pos + 1),
            TokenKindView::Def => def_at(t, pos + 1, true),
            TokenKindView::SetVar => def_at(t, pos + 1, false),
            TokenKindView::Return => match expr_at(t, pos + 1) {
                Ok((e, n)) => Ok((StatementView::Return(e), n + 1)),
                Err(e) => Err(e),
            },
            TokenKindView::While => while_at(t, pos + 1),
            TokenKindView::For => for_at(t, pos + 1),
            TokenKindView::Break => Ok((StatementView::Break, 0)),
            TokenKindView::Load => match expr_at(t, pos + 1) {
                Ok((ExprView::String(path), n)) => Ok((StatementView::Load(path), n + 1)),
                Ok(_) => fail(
                    t[pos + 1].line,
                    ParseErrorKindView::UnexpectedToken(t[pos + 1].kind, Expected::Text),
                ),
                Err(e) => Err(e),
            },
            other => match expr_at(t, pos) {
                Ok((e, n)) => Ok((StatementView::Expr(e), n)),
                Err(_) => fail(t[pos].line, ParseErrorKindView::UnknownStatement(other)),
            },
        }
    } else {
        fail(line_before(t, pos), ParseErrorKindView::UnterminatedConstruct(Expected::Expression))
    }
}

/// The statements from `pos` up to the closing brace, which is taken too.
pub open spec fn block_at(t: Seq<TokenView>, pos: int, acc: Seq<StatementView>) -> Parsed<
    Seq<StatementView>,
>
    decreases remaining(t, pos), 3nat,
{
    if 0 <= pos < t.len() && t[pos].kind != TokenKindView::RBrace {
        match statement_at(t, pos) {
            Ok((s, n)) => shift(block_at(t, pos + 1 + n, acc.push(s)), n + 1),
            Err(e) => Err(e),
        }
    } else {
        match expect(t, pos, Mark::RBrace) {
            Ok(()) => Ok((acc, 1)),
            Err(e) => Err(e),
        }
    }
}

/// The statements of a function's body from `pos` up to the closing brace,
/// which is taken too.
pub open spec fn body_at(t: Seq<TokenView>, pos: int, acc: Seq<StatementView>) -> Parsed<
    Seq<StatementView>,
>
    decreases remaining(t, pos), 3nat,
{
    if 0 <= pos < t.len() {
        if t[pos].kind == TokenKindView::RBrace {
            Ok((acc, 1))
        } else {
            match statement_at(t, pos) {
                Ok((s, n)) => shift(body_at(t, pos + 1 + n, acc.push(s)), n + 1),
                Err(e) => Err(e),
            }
        }
    } else {
        fail(line_before(t, pos), ParseErrorKindView::UnfinishedFunctionBody)
    }
}

/// A condition in parentheses and a block in braces, from `pos` on.
pub open spec fn guarded_at(t: Seq<TokenView>, pos: int) -> Parsed<(ExprView, Seq<StatementView>)>
    decreases remaining(t, pos), 0nat,
{
    match expect(t, pos, Mark::LParen) {
        Err(e) => Err(e),
        Ok(()) => match expr_at(t, pos + 1) {
            Err(e) => Err(e),
            Ok((condition, n)) => match expect(t, pos + 2 + n, Mark::RParen) {
                Err(e) => Err(e),
                Ok(()) => match expect(t, pos + 3 + n, Mark::LBrace) {
                    Err(e) => Err(e),
                    Ok(()) => match block_at(t, pos + 4 + n, Seq::empty()) {
                        Err(e) => Err(e),
                        Ok((body, m)) => Ok(((condition, body), n + m + 4)),
                    },
                },
            },
        },
    }
}

/// The conditional whose condition starts at `pos`, after `if`.
pub open spec fn if_at(t: Seq<TokenView>, pos: int) -> Parsed<StatementView>
    decreases remaining(t, pos), 1nat,
{
    match guarded_at(t, pos) {
        Err(e) => Err(e),
        Ok(((condition, if_body), n)) => {
            if kind_at(t, pos + n) == Some(TokenKindView::Else) && 0 <= pos {
                match expect(t, pos + n + 1, Mark::LBrace) {
                    Err(e) => Err(e),
                    Ok(()) => match block_at(t, pos + n + 2, Seq::empty()) {
                        Err(e) => Err(e),
                        Ok((else_body, m)) => Ok(
                            (StatementView::If(condition, if_body, else_body), n + m + 2),
                        ),
                    },
                }
            } else {
                Ok((StatementView::If(condition, if_body, Seq::empty()), n))
            }
        },
    }
}

/// The while loop whose condition starts at `pos`, after `while`.
pub open spec fn while_at(t: Seq<TokenView>, pos: int) -> Parsed<StatementView>
    decreases remaining(t, pos), 1nat,
{
    match guarded_at(t, pos) {
        Err(e) => Err(e),
        Ok(((condition, body), n)) => Ok((StatementView::While(condition, body), n)),
    }
}

/// The for loop whose head starts at `pos`, after `for`.
pub open spec fn for_at(t: Seq<TokenView>, pos: int) -> Parsed<StatementView>
    decreases remaining(t, pos), 0nat,
{
    match expect(t, pos, Mark::LParen) {
        Err(e) => Err(e),
        Ok(()) => match expr_at(t, pos + 1) {
            Err(e) => Err(e),
            Ok((ExprView::Var(id), n)) => match expect(t, pos + 2 + n, Mark::In) {
                Err(e) => Err(e),
                Ok(()) => match expr_at(t, pos + 3 + n) {
                    Err(e) => Err(e),
                    Ok((iterable, m)) => match expect(t, pos + 4 + n + m, Mark::RParen) {
                        Err(e) => Err(e),
                        Ok(()) => match expect(t, pos + 5 + n + m, Mark::LBrace) {
                            Err(e) => Err(e),
                            Ok(()) => match block_at(t, pos + 6 + n + m, Seq::empty()) {
                                Err(e) => Err(e),
                                Ok((body, k)) => Ok(
                                    (StatementView::For(id, iterable, body), n + m + k + 6),
                                ),
                            },
                        },
                    },
                },
            },
            Ok(_) => fail(
                t[pos + 1].line,
                ParseErrorKindView::ExpectedIdentifier(Some(t[pos + 1].kind)),
            ),
        },
    }
}

/// The parameter names from `pos` up to the closing parenthesis, which is taken too.
pub open spec fn params_at(t: Seq<TokenView>, pos: int, acc: Seq<Seq<char>>) -> Parsed<
    Seq<Seq<char>>,
>
    decreases remaining(t, pos), 0nat,
{
    if 0 <= pos < t.len() && t[pos].kind != TokenKindView::RParen {
        match t[pos].kind {
            TokenKindView::Ident(name) => {
                if kind_at(t, pos + 1) == Some(TokenKindView::RParen) {
                    Ok((acc.push(name), 2))
                } else {
                    match expect(t, pos + 1, Mark::Comma) {
                        Err(e) => Err(e),
                        Ok(()) => shift(params_at(t, pos + 2, acc.push(name)), 2),
                    }
                }
            },
            other => fail(t[pos].line, ParseErrorKindView::ExpectedIdentifier(Some(other))),
        }
    } else {
        match expect(t, pos, Mark::RParen) {
            Ok(()) => Ok((acc, 1)),
            Err(e) => Err(e),
        }
    }
}

/// The definition or assignment whose name is at `pos`, after `def` or `set`.
pub open spec fn def_at(t: Seq<TokenView>, pos: int, def: bool) -> Parsed<StatementView>
    decreases remaining(t, pos), 1nat,
{
    match kind_at(t, pos) {
        None => fail(line_before(t, pos), ParseErrorKindView::ExpectedIdentifier(None)),
        Some(TokenKindView::Ident(id)) => match kind_at(t, pos + 1) {
            None => fail(
                line_before(t, pos + 1),
                ParseErrorKindView::UnterminatedConstruct(Expected::Mark(Mark::Assign)),
            ),
            Some(TokenKindView::Assign) => match expr_at(t, pos + 2) {
                Err(e) => Err(e),
                Ok((e, n)) => Ok(
                    (
                        if def {
                            StatementView::VarDef(id, e)
                        } else {
                            StatementView::VarSet(id, e)
                        },
                        n + 3,
                    ),
                ),
            },
            Some(TokenKindView::LParen) => match params_at(t, pos + 2, Seq::empty()) {
                Err(e) => Err(e),
                Ok((params, n)) => match expect(t, pos + 2 + n, Mark::LBrace) {
                    Err(e) => Err(e),
                    Ok(()) => match body_at(t, pos + 3 + n, Seq::empty()) {
                        Err(e) => Err(e),
                        Ok((body, m)) => Ok(
                            (StatementView::FuncDef(id, params, body), n + m + 3),
                        ),
                    },
                },
            },
            Some(other) => fail(
                t[pos + 1].line,
                ParseErrorKindView::UnexpectedToken(other, Expected::Mark(Mark::Assign)),
            ),
        },
        Some(other) => fail(t[pos].line, ParseErrorKindView::ExpectedIdentifier(Some(other))),
    }
}

/// The statements from `pos` to the end of the tokens, after those of `acc`.
pub open spec fn program_at(t: Seq<TokenView>, pos: int, acc: Seq<StatementView>) -> Result<
    Seq<StatementView>,
    ParseErrorView,
>
    decreases remaining(t, pos), 3nat,
{
    if 0 <= pos < t.len() {
        match statement_at(t, pos) {
            Ok((s, n)) => program_at(t, pos + 1 + n, acc.push(s)),
            Err(e) => Err(e),
        }
    } else {
        Ok(acc)
    }
}

/// The statements that a whole token sequence spells, or the first error.
pub open spec fn program_of(t: Seq<TokenView>) -> Result<Seq<StatementView>, ParseErrorView> {
    program_at(t, 0, Seq::empty())
}

} // verus!
