use vstd::prelude::*;
use crate::error::FlushError;
use crate::lexing::typing::{Op, Token, TokenKind, TokenKindView, TokenView};
use crate::parsing::grammar::{
    bin_op, block_at, body_at, call_at, def_at, dict_at, expect, expr_at, for_at, guarded_at, if_at,
    index_at, items_at, kind_at, line_before, list_at, negated, params_at, program_at, program_of,
    shift, statement_at, suffix_at, tail_at, token_of, while_at, Expected, Mark, Parsed, ParseError,
    ParseErrorKind,
};
use crate::parsing::typing::{
    block_view, entries_view, expr_view, exprs_view, lemma_call_view, lemma_dictionary_view,
    lemma_for_view, lemma_func_def_view, lemma_if_view, lemma_list_view, lemma_while_view,
    names_view, statement_view, statements_view, BinOp, Expr, ExprView, Statement, StatementView,
};
use crate::report::parse_report;
use crate::table::{keys_of, names_of, position, put};
use crate::text::{push_char, text_of};

verus! {

/// Whether an outcome and the place reached are what the grammar says: the
/// value's view and `lead` tokens more than the grammar counts, or the error.
pub open spec fn agree<T, V>(
    r: Result<T, ParseError>,
    view: spec_fn(T) -> V,
    wanted: Parsed<V>,
    before: int,
    after: int,
    lead: int,
) -> bool {
    match wanted {
        Ok((v, n)) => r matches Ok(x) && view(x) == v && after == before + lead + n,
        Err(e) => r matches Err(x) && x.deep_view() == e,
    }
}

/// Taking tokens before a result twice is taking their sum once.
proof fn lemma_shift_twice<T>(r: Parsed<T>, a: nat, b: nat)
    ensures
        shift(shift(r, a), b) == shift(r, a + b),
{
}

/// Reads a token sequence into statements.
pub struct Parser<'a> {
    tokens: &'a Vec<Token>,
    file_path: String,
    position: usize,
}

impl<'a> Parser<'a> {
    /// The tokens that this parser reads.
    pub closed spec fn input(&self) -> Seq<TokenView> {
        self.tokens.deep_view()
    }

    /// The file that errors are reported for.
    pub closed spec fn file(&self) -> Seq<char> {
        self.file_path@
    }

    /// Whether `self` differs from `other` in its place among the tokens at most.
    spec fn moved_from(&self, other: &Self) -> bool {
        &&& self.tokens == other.tokens
        &&& self.file_path == other.file_path
        &&& other.position <= self.position <= self.tokens.len()
    }

    /// A parser for `tokens`, which errors will say came from `file_path`.
    pub fn new(tokens: &'a Vec<Token>, file_path: String) -> (parser: Self)
        ensures
            parser.input() == tokens.deep_view(),
            parser.file() == file_path@,
    {
        Parser { tokens, file_path, position: 0 }
    }

    fn is_at_end(&self) -> (r: bool)
        ensures
            r == (self.position >= self.tokens.len()),
    {
        self.position >= self.tokens.len()
    }

    /// The line of the token before the current one.
    fn previous_line(&self) -> (line: usize)
        requires
            self.position <= self.tokens.len(),
        ensures
            line == line_before(self.input(), self.position as int),
    {
        if self.position > 0 {
            self.tokens[self.position - 1].line
        } else {
            1
        }
    }

    fn is_mark(kind: &TokenKind, mark: Mark) -> (r: bool)
        ensures
            r == (kind.deep_view() == token_of(mark)),
    {
        match (kind, mark) {
            (TokenKind::LParen, Mark::LParen) => true,
            (TokenKind::RParen, Mark::RParen) => true,
            (TokenKind::LBrace, Mark::LBrace) => true,
            (TokenKind::RBrace, Mark::RBrace) => true,
            (TokenKind::RBracket, Mark::RBracket) => true,
            (TokenKind::Comma, Mark::Comma) => true,
            (TokenKind::Colon, Mark::Colon) => true,
            (TokenKind::In, Mark::In) => true,
            (TokenKind::Assign, Mark::Assign) => true,
            _ => false,
        }
    }

    /// Whether the current token is the one that `mark` stands for.
    fn at_mark(&self, mark: Mark) -> (r: bool)
        ensures
            r == (kind_at(self.input(), self.position as int) == Some(token_of(mark))),
    {
        self.position < self.tokens.len() && Self::is_mark(&self.tokens[self.position].kind, mark)
    }

    /// Takes the current token if it is the one that `mark` stands for.
    fn expect(&mut self, mark: Mark) -> (r: Result<(), ParseError>)
        requires
            old(self).position <= old(self).tokens.len(),
        ensures
            final(self).moved_from(old(self)),
            match expect(old(self).input(), old(self).position as int, mark) {
                Ok(()) => r is Ok && final(self).position == old(self).position + 1,
                Err(e) => r matches Err(x) && x.deep_view() == e,
            },
    {
        if self.is_at_end() {
            return Err(
                ParseError {
                    line: self.previous_line(),
                    kind: ParseErrorKind::UnterminatedConstruct(Expected::Mark(mark)),
                },
            );
        }
        let next = &self.tokens[self.position];
        if !Self::is_mark(&next.kind, mark) {
            return Err(
                ParseError {
                    line: next.line,
                    kind: ParseErrorKind::UnexpectedToken(next.kind.clone(), Expected::Mark(mark)),
                },
            );
        }
        self.position += 1;
        Ok(())
    }

    fn to_bin_op(op: Op) -> (r: BinOp)
        ensures
            r == bin_op(op),
    {
        match op {
            Op::Add => BinOp::Add,
            Op::Sub => BinOp::Sub,
            Op::Mul => BinOp::Mul,
            Op::Div => BinOp::Div,
            Op::FloorDiv => BinOp::FloorDiv,
            Op::Mod => BinOp::Mod,
            Op::Pow => BinOp::Pow,
            Op::Lt => BinOp::Lt,
            Op::Gt => BinOp::Gt,
            Op::Eq => BinOp::Eq,
            Op::Ne => BinOp::Ne,
            Op::Le => BinOp::Le,
            Op::Ge => BinOp::Ge,
        }
    }

    /// The text of a float with its sign changed.
    fn negate_text(text: &String) -> (r: String)
        ensures
            r@ == negated(text@),
    {
        let chars = crate::text::chars_of(text.as_str());
        if chars.len() > 0 && chars[0] == '-' {
            text_of(&chars, 1, chars.len())
        } else {
            let mut out = String::new();
            push_char(&mut out, '-');
            let mut i: usize = 0;
            while i < chars.len()
                invariant
                    i <= chars.len(),
                    out@ =~= seq!['-'] + chars@.take(i as int),
                decreases chars.len() - i,
            {
                push_char(&mut out, chars[i]);
                i += 1;
            }
            assert(chars@.take(i as int) =~= chars@);
            out
        }
    }

    /// Reads what follows the name at `start`: a call, an index, or nothing,
    /// and then an operator with the rest, if there is one.
    fn parse_named(&mut self, id: &String, start: usize) -> (r: Result<Expr, ParseError>)
        requires
            start < old(self).tokens.len(),
            old(self).position == start + 1,
            old(self).tokens[start as int].kind.deep_view() == TokenKindView::Ident(id@),
        ensures
            final(self).moved_from(old(self)),
            agree(
                r,
                |e: Expr| expr_view(e),
                expr_at(old(self).input(), start as int),
                start as int,
                final(self).position as int,
                1,
            ),
        decreases old(self).tokens.len() - old(self).position, 5nat,
    {
        let tokens = self.tokens;
        if self.position < tokens.len() {
            match &tokens[self.position].kind {
                TokenKind::LParen => {
                    self.position += 1;
                    let call = match self.parse_func_call(id.clone()) {
                        Ok(call) => call,
                        Err(e) => {
                            return Err(e);
                        },
                    };
                    self.parse_bin_op(call, start)
                },
                TokenKind::LBracket => {
                    self.position += 1;
                    let index = match self.parse_list_index(Expr::Var(id.clone())) {
                        Ok(index) => index,
                        Err(e) => {
                            return Err(e);
                        },
                    };
                    self.parse_bin_op(index, start)
                },
                _ => self.parse_bin_op(Expr::Var(id.clone()), start),
            }
        } else {
            self.parse_bin_op(Expr::Var(id.clone()), start)
        }
    }

    /// Reads the expression at the current token.
    fn parse_expr(&mut self) -> (r: Result<Expr, ParseError>)
        requires
            old(self).position <= old(self).tokens.len(),
        ensures
            final(self).moved_from(old(self)),
            agree(
                r,
                |e: Expr| expr_view(e),
                expr_at(old(self).input(), old(self).position as int),
                old(self).position as int,
                final(self).position as int,
                1,
            ),
        decreases old(self).tokens.len() - old(self).position, 1nat,
    {
        if self.is_at_end() {
            return Err(
                ParseError {
                    line: self.previous_line(),
                    kind: ParseErrorKind::UnterminatedConstruct(Expected::Expression),
                },
            );
        }
        let tokens = self.tokens;
        let start = self.position;
        let next = &tokens[start];
        self.position += 1;
        match &next.kind {
            TokenKind::String(string) => self.parse_bin_op(Expr::String(string.clone()), start),
            TokenKind::Int(number) => self.parse_bin_op(Expr::Int(*number), start),
            TokenKind::Float(float) => self.parse_bin_op(Expr::Float(float.clone()), start),
            TokenKind::Boolean(boolean) => self.parse_bin_op(Expr::Boolean(*boolean), start),
            TokenKind::Ident(id) => self.parse_named(id, start),
            TokenKind::LBracket => {
                let list = match self.parse_list() {
                    Ok(list) => list,
                    Err(e) => {
                        return Err(e);
                    },
                };
                self.parse_bin_op(list, start)
            },
            TokenKind::LBrace => {
                let dict = match self.parse_dict() {
                    Ok(dict) => dict,
                    Err(e) => {
                        return Err(e);
                    },
                };
                self.parse_bin_op(dict, start)
            },
            TokenKind::Op(op) => self.parse_number(*op, start),
            unexpected => Err(
                ParseError {
                    line: next.line,
                    kind: ParseErrorKind::UnexpectedToken(unexpected.clone(), Expected::Expression),
                },
            ),
        }
    }

    /// Reads the number after the operator at `start`, and changes its sign.
    fn parse_number(&mut self, op: Op, start: usize) -> (r: Result<Expr, ParseError>)
        requires
            start < old(self).tokens.len(),
            old(self).position == start + 1,
            old(self).tokens[start as int].kind.deep_view() == TokenKindView::Op(op),
        ensures
            final(self).moved_from(old(self)),
            agree(
                r,
                |e: Expr| expr_view(e),
                expr_at(old(self).input(), start as int),
                start as int,
                final(self).position as int,
                1,
            ),
        decreases old(self).tokens.len() - old(self).position, 3nat,
    {
        let tokens = self.tokens;
        let line = tokens[start].line;
        if self.is_at_end() {
            return Err(
                ParseError {
                    line,
                    kind: ParseErrorKind::UnterminatedConstruct(Expected::Number),
                },
            );
        }
        let operand = &tokens[self.position];
        let expr = match self.parse_expr() {
            Ok(expr) => expr,
            Err(e) => {
                return Err(e);
            },
        };
        match expr {
            Expr::Int(number) => {
                if !matches!(op, Op::Sub) {
                    Err(
                        ParseError {
                            line,
                            kind: ParseErrorKind::UnexpectedToken(
                                TokenKind::Op(op),
                                Expected::Expression,
                            ),
                        },
                    )
                } else if number == i32::MIN {
                    Err(ParseError { line, kind: ParseErrorKind::NumberOutOfRange })
                } else {
                    Ok(Expr::Int(-number))
                }
            },
            Expr::Float(float) => {
                if !matches!(op, Op::Sub) {
                    Err(
                        ParseError {
                            line,
                            kind: ParseErrorKind::UnexpectedToken(
                                TokenKind::Op(op),
                                Expected::Expression,
                            ),
                        },
                    )
                } else {
                    Ok(Expr::Float(Self::negate_text(&float)))
                }
            },
            _ => Err(
                ParseError {
                    line: operand.line,
                    kind: ParseErrorKind::UnexpectedToken(operand.kind.clone(), Expected::Number),
                },
            ),
        }
    }

    /// Given `left`, which was read from `start` up to the current token: the
    /// operation that an operator here makes of it and the rest, or `left` itself.
    fn parse_bin_op(&mut self, left: Expr, start: usize) -> (r: Result<Expr, ParseError>)
        requires
            start < old(self).position <= old(self).tokens.len(),
        ensures
            final(self).moved_from(old(self)),
            agree(
                r,
                |e: Expr| expr_view(e),
                tail_at(
                    old(self).input(),
                    start as int,
                    (old(self).position - start - 1) as nat,
                    expr_view(left),
                ),
                start as int,
                final(self).position as int,
                1,
            ),
        decreases old(self).tokens.len() - old(self).position, 3nat,
    {
        let tokens = self.tokens;
        if self.position < tokens.len() {
            match &tokens[self.position].kind {
                TokenKind::Op(op) => {
                    self.position += 1;
                    let right = match self.parse_expr() {
                        Ok(right) => right,
                        Err(e) => {
                            return Err(e);
                        },
                    };
                    Ok(Expr::BinOp(Self::to_bin_op(*op), Box::new(left), Box::new(right)))
                },
                _ => Ok(left),
            }
        } else {
            Ok(left)
        }
    }

    /// Reads items up to the closing mark, which is taken too.
    fn parse_items(&mut self, close: Mark) -> (r: Result<Vec<Box<Expr>>, ParseError>)
        requires
            old(self).position <= old(self).tokens.len(),
        ensures
            final(self).moved_from(old(self)),
            agree(
                r,
                |v: Vec<Box<Expr>>| exprs_view(v@),
                items_at(old(self).input(), old(self).position as int, Seq::empty(), close),
                old(self).position as int,
                final(self).position as int,
                0,
            ),
        decreases old(self).tokens.len() - old(self).position, 2nat,
    {
        let ghost t = self.input();
        let ghost start = self.position as int;
        let tokens = self.tokens;
        let mut items: Vec<Box<Expr>> = Vec::new();
        assert(exprs_view(items@) =~= Seq::<ExprView>::empty());
        loop
            invariant
                self.moved_from(old(self)),
                tokens == self.tokens,
                t == self.input(),
                start == old(self).position,
                items_at(t, start, Seq::empty(), close) == shift(
                    items_at(t, self.position as int, exprs_view(items@), close),
                    (self.position - start) as nat,
                ),
            decreases tokens.len() - self.position,
        {
            let ghost here = self.position as int;
            let ghost acc = exprs_view(items@);
            if self.position < tokens.len() && !Self::is_mark(&tokens[self.position].kind, close) {
                let item = match self.parse_expr() {
                    Ok(item) => item,
                    Err(e) => {
                        return Err(e);
                    },
                };
                items.push(Box::new(item));
                assert(exprs_view(items@) =~= acc.push(expr_view(item)));
                if self.at_mark(close) {
                    self.position += 1;
                    return Ok(items);
                }
                match self.expect(Mark::Comma) {
                    Ok(()) => {},
                    Err(e) => {
                        return Err(e);
                    },
                }
                proof {
                    lemma_shift_twice(
                        items_at(t, self.position as int, exprs_view(items@), close),
                        (self.position - here) as nat,
                        (here - start) as nat,
                    );
                }
            } else {
                return match self.expect(close) {
                    Ok(()) => Ok(items),
                    Err(e) => Err(e),
                };
            }
        }
    }

    /// Given `made`, which was read from `start` up to the current token:
    /// `made` indexed where a bracket follows, or `made` itself.
    fn parse_suffix(&mut self, made: Expr, start: usize) -> (r: Result<Expr, ParseError>)
        requires
            start <= old(self).position <= old(self).tokens.len(),
        ensures
            final(self).moved_from(old(self)),
            agree(
                r,
                |e: Expr| expr_view(e),
                suffix_at(
                    old(self).input(),
                    start as int,
                    (old(self).position - start) as nat,
                    expr_view(made),
                ),
                start as int,
                final(self).position as int,
                0,
            ),
        decreases old(self).tokens.len() - old(self).position, 3nat,
    {
        let tokens = self.tokens;
        if self.position < tokens.len() {
            match &tokens[self.position].kind {
                TokenKind::LBracket => {
                    self.position += 1;
                    self.parse_list_index(made)
                },
                _ => Ok(made),
            }
        } else {
            Ok(made)
        }
    }

    /// Reads a call's arguments, the opening parenthesis of which has been read.
    fn parse_func_call(&mut self, id: String) -> (r: Result<Expr, ParseError>)
        requires
            old(self).position <= old(self).tokens.len(),
        ensures
            final(self).moved_from(old(self)),
            agree(
                r,
                |e: Expr| expr_view(e),
                call_at(old(self).input(), old(self).position as int, id@),
                old(self).position as int,
                final(self).position as int,
                0,
            ),
        decreases old(self).tokens.len() - old(self).position, 4nat,
    {
        let start = self.position;
        let args = match self.parse_items(Mark::RParen) {
            Ok(args) => args,
            Err(e) => {
                return Err(e);
            },
        };
        proof {
            lemma_call_view(id, args);
        }
        self.parse_suffix(Expr::Call(id, args), start)
    }

    /// Reads a list literal, the opening bracket of which has been read.
    fn parse_list(&mut self) -> (r: Result<Expr, ParseError>)
        requires
            old(self).position <= old(self).tokens.len(),
        ensures
            final(self).moved_from(old(self)),
            agree(
                r,
                |e: Expr| expr_view(e),
                list_at(old(self).input(), old(self).position as int),
                old(self).position as int,
                final(self).position as int,
                0,
            ),
        decreases old(self).tokens.len() - old(self).position, 4nat,
    {
        let start = self.position;
        let expressions = match self.parse_items(Mark::RBracket) {
            Ok(expressions) => expressions,
            Err(e) => {
                return Err(e);
            },
        };
        proof {
            lemma_list_view(expressions);
        }
        self.parse_suffix(Expr::List(expressions), start)
    }

    /// Reads an index and its closing bracket, the opening one of which has been read.
    fn parse_list_index(&mut self, expr: Expr) -> (r: Result<Expr, ParseError>)
        requires
            old(self).position <= old(self).tokens.len(),
        ensures
            final(self).moved_from(old(self)),
            agree(
                r,
                |e: Expr| expr_view(e),
                index_at(old(self).input(), old(self).position as int, expr_view(expr)),
                old(self).position as int,
                final(self).position as int,
                0,
            ),
        decreases old(self).tokens.len() - old(self).position, 2nat,
    {
        let index = match self.parse_expr() {
            Ok(index) => index,
            Err(e) => {
                return Err(e);
            },
        };
        match self.expect(Mark::RBracket) {
            Ok(()) => {},
            Err(e) => {
                return Err(e);
            },
        }
        Ok(Expr::Index(Box::new(expr), Box::new(index)))
    }

    /// Sets `key` to `value` among the entries of a dictionary literal.
    fn put_entry(entries: &mut Vec<(String, Box<Expr>)>, key: String, value: Expr)
        ensures
            entries_view(final(entries)@) == put(entries_view(old(entries)@), key@, expr_view(value)),
    {
        let ghost before = entries_view(entries@);
        assert(keys_of(before) =~= names_of(entries@));
        match position(entries, &key) {
            Some(i) => {
                entries[i] = (key, Box::new(value));
                assert(entries_view(entries@) =~= before.update(
                    i as int,
                    (key@, expr_view(value)),
                ));
            },
            None => {
                entries.push((key, Box::new(value)));
                assert(entries_view(entries@) =~= before.push((key@, expr_view(value))));
            },
        }
    }

    /// Reads a dictionary literal, the opening brace of which has been read.
    fn parse_dict(&mut self) -> (r: Result<Expr, ParseError>)
        requires
            old(self).position <= old(self).tokens.len(),
        ensures
            final(self).moved_from(old(self)),
            match dict_at(old(self).input(), old(self).position as int, Seq::empty()) {
                Ok((entries, n)) => r matches Ok(x) && expr_view(x) == ExprView::Dictionnary(
                    entries,
                ) && final(self).position == old(self).position + n,
                Err(e) => r matches Err(x) && x.deep_view() == e,
            },
        decreases old(self).tokens.len() - old(self).position, 2nat,
    {
        let ghost t = self.input();
        let ghost start = self.position as int;
        let tokens = self.tokens;
        let mut dict: Vec<(String, Box<Expr>)> = Vec::new();
        assert(entries_view(dict@) =~= Seq::<(Seq<char>, ExprView)>::empty());
        loop
            invariant
                self.moved_from(old(self)),
                tokens == self.tokens,
                t == self.input(),
                start == old(self).position,
                dict_at(t, start, Seq::empty()) == shift(
                    dict_at(t, self.position as int, entries_view(dict@)),
                    (self.position - start) as nat,
                ),
            decreases tokens.len() - self.position,
        {
            let ghost here = self.position as int;
            if self.position < tokens.len() && !Self::is_mark(
                &tokens[self.position].kind,
                Mark::RBrace,
            ) {
                let first = &tokens[self.position];
                let key = match self.parse_expr() {
                    Ok(Expr::String(key)) => key,
                    Ok(_) => {
                        return Err(
                            ParseError {
                                line: first.line,
                                kind: ParseErrorKind::UnexpectedToken(
                                    first.kind.clone(),
                                    Expected::Text,
                                ),
                            },
                        );
                    },
                    Err(e) => {
                        return Err(e);
                    },
                };
                match self.expect(Mark::Colon) {
                    Ok(()) => {},
                    Err(e) => {
                        return Err(e);
                    },
                }
                let value = match self.parse_expr() {
                    Ok(value) => value,
                    Err(e) => {
                        return Err(e);
                    },
                };
                Self::put_entry(&mut dict, key, value);
                if self.at_mark(Mark::RBrace) {
                    self.position += 1;
                    proof {
                        lemma_dictionary_view(dict);
                    }
                    return Ok(Expr::Dictionnary(dict));
                }
                match self.expect(Mark::Comma) {
                    Ok(()) => {},
                    Err(e) => {
                        return Err(e);
                    },
                }
                proof {
                    lemma_shift_twice(
                        dict_at(t, self.position as int, entries_view(dict@)),
                        (self.position - here) as nat,
                        (here - start) as nat,
                    );
                }
            } else {
                return match self.expect(Mark::RBrace) {
                    Ok(()) => {
                        proof {
                            lemma_dictionary_view(dict);
                        }
                        Ok(Expr::Dictionnary(dict))
                    },
                    Err(e) => Err(e),
                };
            }
        }
    }

    /// Reads the statement at the current token.
    fn parse_statement(&mut self) -> (r: Result<Statement, ParseError>)
        requires
            old(self).position < old(self).tokens.len(),
        ensures
            final(self).moved_from(old(self)),
            agree(
                r,
                |s: Statement| statement_view(s),
                statement_at(old(self).input(), old(self).position as int),
                old(self).position as int,
                final(self).position as int,
                1,
            ),
        decreases old(self).tokens.len() - old(self).position, 2nat,
    {
        let tokens = self.tokens;
        let start = self.position;
        let first = &tokens[start];
        self.position += 1;
        match &first.kind {
            TokenKind::If => self.parse_control_flow(),
            TokenKind::Def => self.parse_def_set(true),
            TokenKind::SetVar => self.parse_def_set(false),
            TokenKind::Return => match self.parse_expr() {
                Ok(expr) => Ok(Statement::Return(expr)),
                Err(e) => Err(e),
            },
            TokenKind::While => self.parse_while(),
            TokenKind::For => self.parse_for(),
            TokenKind::Break => Ok(Statement::Break),
            TokenKind::Load => self.parse_load(),
            unknown => {
                self.position = start;
                match self.parse_expr() {
                    Ok(expr) => Ok(Statement::Expr(expr)),
                    Err(_) => Err(
                        ParseError {
                            line: first.line,
                            kind: ParseErrorKind::UnknownStatement(unknown.clone()),
                        },
                    ),
                }
            },
        }
    }

    /// Reads statements up to the closing brace, which is taken too.
    fn parse_block(&mut self) -> (r: Result<Vec<Box<Statement>>, ParseError>)
        requires
            old(self).position <= old(self).tokens.len(),
        ensures
            final(self).moved_from(old(self)),
            agree(
                r,
                |v: Vec<Box<Statement>>| block_view(v@),
                block_at(old(self).input(), old(self).position as int, Seq::empty()),
                old(self).position as int,
                final(self).position as int,
                0,
            ),
        decreases old(self).tokens.len() - old(self).position, 3nat,
    {
        let ghost t = self.input();
        let ghost start = self.position as int;
        let tokens = self.tokens;
        let mut body: Vec<Box<Statement>> = Vec::new();
        assert(block_view(body@) =~= Seq::<StatementView>::empty());
        while self.position < tokens.len() && !Self::is_mark(
            &tokens[self.position].kind,
            Mark::RBrace,
        )
            invariant
                self.moved_from(old(self)),
                tokens == self.tokens,
                t == self.input(),
                start == old(self).position,
                block_at(t, start, Seq::empty()) == shift(
                    block_at(t, self.position as int, block_view(body@)),
                    (self.position - start) as nat,
                ),
            decreases tokens.len() - self.position,
        {
            let ghost here = self.position as int;
            let ghost acc = block_view(body@);
            let statement = match self.parse_statement() {
                Ok(statement) => statement,
                Err(e) => {
                    return Err(e);
                },
            };
            body.push(Box::new(statement));
            proof {
                assert(block_view(body@) =~= acc.push(statement_view(statement)));
                lemma_shift_twice(
                    block_at(t, self.position as int, block_view(body@)),
                    (self.position - here) as nat,
                    (here - start) as nat,
                );
            }
        }
        match self.expect(Mark::RBrace) {
            Ok(()) => Ok(body),
            Err(e) => Err(e),
        }
    }

    /// Reads a condition in parentheses and a block in braces.
    fn parse_guarded(&mut self) -> (r: Result<(Expr, Vec<Box<Statement>>), ParseError>)
        requires
            old(self).position <= old(self).tokens.len(),
        ensures
            final(self).moved_from(old(self)),
            agree(
                r,
                |p: (Expr, Vec<Box<Statement>>)| (expr_view(p.0), block_view(p.1@)),
                guarded_at(old(self).input(), old(self).position as int),
                old(self).position as int,
                final(self).position as int,
                0,
            ),
        decreases old(self).tokens.len() - old(self).position, 0nat,
    {
        match self.expect(Mark::LParen) {
            Ok(()) => {},
            Err(e) => {
                return Err(e);
            },
        }
        let condition = match self.parse_expr() {
            Ok(condition) => condition,
            Err(e) => {
                return Err(e);
            },
        };
        match self.expect(Mark::RParen) {
            Ok(()) => {},
            Err(e) => {
                return Err(e);
            },
        }
        match self.expect(Mark::LBrace) {
            Ok(()) => {},
            Err(e) => {
                return Err(e);
            },
        }
        let body = match self.parse_block() {
            Ok(body) => body,
            Err(e) => {
                return Err(e);
            },
        };
        Ok((condition, body))
    }

    /// Reads a conditional, the `if` of which has been read.
    fn parse_control_flow(&mut self) -> (r: Result<Statement, ParseError>)
        requires
            old(self).position <= old(self).tokens.len(),
        ensures
            final(self).moved_from(old(self)),
            agree(
                r,
                |s: Statement| statement_view(s),
                if_at(old(self).input(), old(self).position as int),
                old(self).position as int,
                final(self).position as int,
                0,
            ),
        decreases old(self).tokens.len() - old(self).position, 1nat,
    {
        let tokens = self.tokens;
        let (condition, if_body) = match self.parse_guarded() {
            Ok(pair) => pair,
            Err(e) => {
                return Err(e);
            },
        };
        let has_else = self.position < tokens.len() && matches!(
            tokens[self.position].kind,
            TokenKind::Else
        );
        if has_else {
            self.position += 1;
            match self.expect(Mark::LBrace) {
                Ok(()) => {},
                Err(e) => {
                    return Err(e);
                },
            }
            let else_body = match self.parse_block() {
                Ok(body) => body,
                Err(e) => {
                    return Err(e);
                },
            };
            proof {
                lemma_if_view(condition, if_body, else_body);
            }
            Ok(Statement::If(condition, if_body, else_body))
        } else {
            let else_body: Vec<Box<Statement>> = Vec::new();
            proof {
                lemma_if_view(condition, if_body, else_body);
                assert(block_view(else_body@) =~= Seq::<StatementView>::empty());
            }
            Ok(Statement::If(condition, if_body, else_body))
        }
    }

    /// Reads a while loop, the `while` of which has been read.
    fn parse_while(&mut self) -> (r: Result<Statement, ParseError>)
        requires
            old(self).position <= old(self).tokens.len(),
        ensures
            final(self).moved_from(old(self)),
            agree(
                r,
                |s: Statement| statement_view(s),
                while_at(old(self).input(), old(self).position as int),
                old(self).position as int,
                final(self).position as int,
                0,
            ),
        decreases old(self).tokens.len() - old(self).position, 1nat,
    {
        let (condition, body) = match self.parse_guarded() {
            Ok(pair) => pair,
            Err(e) => {
                return Err(e);
            },
        };
        proof {
            lemma_while_view(condition, body);
        }
        Ok(Statement::While(condition, body))
    }

    /// Reads a for loop, the `for` of which has been read.
    fn parse_for(&mut self) -> (r: Result<Statement, ParseError>)
        requires
            old(self).position <= old(self).tokens.len(),
        ensures
            final(self).moved_from(old(self)),
            agree(
                r,
                |s: Statement| statement_view(s),
                for_at(old(self).input(), old(self).position as int),
                old(self).position as int,
                final(self).position as int,
                0,
            ),
        decreases old(self).tokens.len() - old(self).position, 0nat,
    {
        let tokens = self.tokens;
        match self.expect(Mark::LParen) {
            Ok(()) => {},
            Err(e) => {
                return Err(e);
            },
        }
        let at = self.position;
        let id = match self.parse_expr() {
            Ok(Expr::Var(id)) => id,
            Ok(_) => {
                return Err(
                    ParseError {
                        line: tokens[at].line,
                        kind: ParseErrorKind::ExpectedIdentifier(Some(tokens[at].kind.clone())),
                    },
                );
            },
            Err(e) => {
                return Err(e);
            },
        };
        match self.expect(Mark::In) {
            Ok(()) => {},
            Err(e) => {
                return Err(e);
            },
        }
        let iterator = match self.parse_expr() {
            Ok(iterator) => iterator,
            Err(e) => {
                return Err(e);
            },
        };
        match self.expect(Mark::RParen) {
            Ok(()) => {},
            Err(e) => {
                return Err(e);
            },
        }
        match self.expect(Mark::LBrace) {
            Ok(()) => {},
            Err(e) => {
                return Err(e);
            },
        }
        let body = match self.parse_block() {
            Ok(body) => body,
            Err(e) => {
                return Err(e);
            },
        };
        proof {
            lemma_for_view(id, iterator, body);
        }
        Ok(Statement::For(id, iterator, body))
    }

    /// Reads the path of a load, the `load` of which has been read.
    fn parse_load(&mut self) -> (r: Result<Statement, ParseError>)
        requires
            0 < old(self).position <= old(self).tokens.len(),
            old(self).tokens[old(self).position - 1].kind.deep_view() == TokenKindView::Load,
        ensures
            final(self).moved_from(old(self)),
            agree(
                r,
                |s: Statement| statement_view(s),
                statement_at(old(self).input(), old(self).position - 1),
                old(self).position - 1,
                final(self).position as int,
                1,
            ),
        decreases old(self).tokens.len() - old(self).position, 2nat,
    {
        let tokens = self.tokens;
        let at = self.position;
        match self.parse_expr() {
            Ok(Expr::String(path)) => Ok(Statement::Load(path)),
            Ok(_) => Err(
                ParseError {
                    line: tokens[at].line,
                    kind: ParseErrorKind::UnexpectedToken(tokens[at].kind.clone(), Expected::Text),
                },
            ),
            Err(e) => Err(e),
        }
    }

    /// Reads a definition or an assignment, the `def` or `set` of which has been read.
    fn parse_def_set(&mut self, def: bool) -> (r: Result<Statement, ParseError>)
        requires
            old(self).position <= old(self).tokens.len(),
        ensures
            final(self).moved_from(old(self)),
            agree(
                r,
                |s: Statement| statement_view(s),
                def_at(old(self).input(), old(self).position as int, def),
                old(self).position as int,
                final(self).position as int,
                0,
            ),
        decreases old(self).tokens.len() - old(self).position, 1nat,
    {
        let tokens = self.tokens;
        if self.is_at_end() {
            return Err(
                ParseError {
                    line: self.previous_line(),
                    kind: ParseErrorKind::ExpectedIdentifier(None),
                },
            );
        }
        let name = &tokens[self.position];
        let id = match &name.kind {
            TokenKind::Ident(id) => id.clone(),
            kind => {
                return Err(
                    ParseError {
                        line: name.line,
                        kind: ParseErrorKind::ExpectedIdentifier(Some(kind.clone())),
                    },
                );
            },
        };
        self.position += 1;
        if self.is_at_end() {
            return Err(
                ParseError {
                    line: self.previous_line(),
                    kind: ParseErrorKind::UnterminatedConstruct(Expected::Mark(Mark::Assign)),
                },
            );
        }
        let token = &tokens[self.position];
        self.position += 1;
        match &token.kind {
            TokenKind::Assign => {
                let expr = match self.parse_expr() {
                    Ok(expr) => expr,
                    Err(e) => {
                        return Err(e);
                    },
                };
                if def {
                    Ok(Statement::VarDef(id, expr))
                } else {
                    Ok(Statement::VarSet(id, expr))
                }
            },
            TokenKind::LParen => self.parse_func_def(id),
            unexpected => Err(
                ParseError {
                    line: token.line,
                    kind: ParseErrorKind::UnexpectedToken(
                        unexpected.clone(),
                        Expected::Mark(Mark::Assign),
                    ),
                },
            ),
        }
    }

    /// Reads parameter names up to the closing parenthesis, which is taken too.
    fn parse_params(&mut self) -> (r: Result<Vec<String>, ParseError>)
        requires
            old(self).position <= old(self).tokens.len(),
        ensures
            final(self).moved_from(old(self)),
            agree(
                r,
                |v: Vec<String>| names_view(v@),
                params_at(old(self).input(), old(self).position as int, Seq::empty()),
                old(self).position as int,
                final(self).position as int,
                0,
            ),
    {
        let ghost t = self.input();
        let ghost start = self.position as int;
        let tokens = self.tokens;
        let mut args: Vec<String> = Vec::new();
        assert(names_view(args@) =~= Seq::<Seq<char>>::empty());
        loop
            invariant
                self.moved_from(old(self)),
                tokens == self.tokens,
                t == self.input(),
                start == old(self).position,
                params_at(t, start, Seq::empty()) == shift(
                    params_at(t, self.position as int, names_view(args@)),
                    (self.position - start) as nat,
                ),
            decreases tokens.len() - self.position,
        {
            let ghost here = self.position as int;
            let ghost acc = names_view(args@);
            if self.position < tokens.len() && !Self::is_mark(
                &tokens[self.position].kind,
                Mark::RParen,
            ) {
                let token = &tokens[self.position];
                match &token.kind {
                    TokenKind::Ident(id) => {
                        args.push(id.clone());
                    },
                    unexpected => {
                        return Err(
                            ParseError {
                                line: token.line,
                                kind: ParseErrorKind::ExpectedIdentifier(Some(unexpected.clone())),
                            },
                        );
                    },
                }
                self.position += 1;
                assert(names_view(args@) =~= acc.push(token.kind.deep_view()->Ident_0));
                if self.at_mark(Mark::RParen) {
                    self.position += 1;
                    return Ok(args);
                }
                match self.expect(Mark::Comma) {
                    Ok(()) => {},
                    Err(e) => {
                        return Err(e);
                    },
                }
                proof {
                    lemma_shift_twice(
                        params_at(t, self.position as int, names_view(args@)),
                        (self.position - here) as nat,
                        (here - start) as nat,
                    );
                }
            } else {
                return match self.expect(Mark::RParen) {
                    Ok(()) => Ok(args),
                    Err(e) => Err(e),
                };
            }
        }
    }

    /// Reads the statements of a function's body up to the closing brace,
    /// which is taken too.
    fn parse_body(&mut self) -> (r: Result<Vec<Statement>, ParseError>)
        requires
            old(self).position <= old(self).tokens.len(),
        ensures
            final(self).moved_from(old(self)),
            agree(
                r,
                |v: Vec<Statement>| statements_view(v@),
                body_at(old(self).input(), old(self).position as int, Seq::empty()),
                old(self).position as int,
                final(self).position as int,
                0,
            ),
        decreases old(self).tokens.len() - old(self).position, 3nat,
    {
        let ghost t = self.input();
        let ghost start = self.position as int;
        let tokens = self.tokens;
        let mut body: Vec<Statement> = Vec::new();
        assert(statements_view(body@) =~= Seq::<StatementView>::empty());
        while !self.is_at_end()
            invariant
                self.moved_from(old(self)),
                tokens == self.tokens,
                t == self.input(),
                start == old(self).position,
                body_at(t, start, Seq::empty()) == shift(
                    body_at(t, self.position as int, statements_view(body@)),
                    (self.position - start) as nat,
                ),
            decreases tokens.len() - self.position,
        {
            let ghost here = self.position as int;
            let ghost acc = statements_view(body@);
            if Self::is_mark(&tokens[self.position].kind, Mark::RBrace) {
                self.position += 1;
                return Ok(body);
            }
            let statement = match self.parse_statement() {
                Ok(statement) => statement,
                Err(e) => {
                    return Err(e);
                },
            };
            body.push(statement);
            proof {
                assert(statements_view(body@) =~= acc.push(statement_view(statement)));
                lemma_shift_twice(
                    body_at(t, self.position as int, statements_view(body@)),
                    (self.position - here) as nat,
                    (here - start) as nat,
                );
            }
        }
        Err(
            ParseError {
                line: self.previous_line(),
                kind: ParseErrorKind::UnfinishedFunctionBody,
            },
        )
    }

    /// Reads a function definition, the name and opening parenthesis of which
    /// have been read.
    fn parse_func_def(&mut self, id: String) -> (r: Result<Statement, ParseError>)
        requires
            2 <= old(self).position <= old(self).tokens.len(),
            old(self).tokens[old(self).position - 2].kind.deep_view() == TokenKindView::Ident(id@),
            old(self).tokens[old(self).position - 1].kind.deep_view() == TokenKindView::LParen,
        ensures
            final(self).moved_from(old(self)),
            forall|def: bool|
                agree(
                    r,
                    |s: Statement| statement_view(s),
                    #[trigger] def_at(old(self).input(), old(self).position - 2, def),
                    old(self).position - 2,
                    final(self).position as int,
                    0,
                ),
        decreases old(self).tokens.len() - old(self).position, 4nat,
    {
        let args = match self.parse_params() {
            Ok(args) => args,
            Err(e) => {
                return Err(e);
            },
        };
        match self.expect(Mark::LBrace) {
            Ok(()) => {},
            Err(e) => {
                return Err(e);
            },
        }
        let body = match self.parse_body() {
            Ok(body) => body,
            Err(e) => {
                return Err(e);
            },
        };
        proof {
            lemma_func_def_view(id, args, body);
        }
        Ok(Statement::FuncDef(id, args, body))
    }

    /// Reads all the tokens into statements, or stops at the first error,
    /// which is reported for this parser's file.
    pub fn parse(&mut self) -> (r: Result<Vec<Statement>, FlushError>)
        ensures
            final(self).input() == old(self).input(),
            final(self).file() == old(self).file(),
            match program_of(old(self).input()) {
                Ok(statements) => r matches Ok(v) && statements_view(v@) == statements,
                Err(e) => r matches Err(x) && x.deep_view() == parse_report(old(self).file(), e),
            },
    {
        match self.parse_statements() {
            Ok(statements) => Ok(statements),
            Err(e) => Err(e.report(&self.file_path)),
        }
    }

    /// Reads all the tokens into statements, or stops at the first error.
    pub fn parse_statements(&mut self) -> (r: Result<Vec<Statement>, ParseError>)
        ensures
            final(self).input() == old(self).input(),
            final(self).file() == old(self).file(),
            match program_of(old(self).input()) {
                Ok(statements) => r matches Ok(v) && statements_view(v@) == statements,
                Err(e) => r matches Err(x) && x.deep_view() == e,
            },
    {
        let ghost t = self.input();
        self.position = 0;
        let mut statements: Vec<Statement> = Vec::new();
        assert(statements_view(statements@) =~= Seq::<StatementView>::empty());
        while !self.is_at_end()
            invariant
                self.tokens == old(self).tokens,
                self.file_path == old(self).file_path,
                self.position <= self.tokens.len(),
                t == self.input(),
                program_of(t) == program_at(t, self.position as int, statements_view(statements@)),
            decreases self.tokens.len() - self.position,
        {
            let ghost acc = statements_view(statements@);
            let statement = match self.parse_statement() {
                Ok(statement) => statement,
                Err(e) => {
                    return Err(e);
                },
            };
            statements.push(statement);
            assert(statements_view(statements@) =~= acc.push(statement_view(statement)));
        }
        Ok(statements)
    }
}

} // verus!
