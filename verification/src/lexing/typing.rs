use vstd::prelude::*;

verus! {

/// Arithmetic and comparison operators.
#[derive(Clone, Copy, Debug, PartialEq, Eq, Structural)]
pub enum Op {
    Add,
    Sub,
    Mul,
    Div,
    FloorDiv,
    Mod,
    Pow,
    Lt,
    Gt,
    Eq,
    Ne,
    Le,
    Ge,
}

/// The kind of a token, with its payload where it has one.
///
/// A `Float` carries the literal's text as written: digits and decimal
/// points, starting with a digit.
#[derive(Debug, PartialEq)]
pub enum TokenKind {
    LParen,
    RParen,
    LBrace,
    RBrace,
    LBracket,
    RBracket,
    Comma,
    Colon,
    If,
    Else,
    Def,
    SetVar,
    Return,
    While,
    For,
    In,
    Break,
    Load,
    String(String),
    Int(i32),
    Float(String),
    Boolean(bool),
    Ident(String),
    Op(Op),
    Assign,
}

/// The mathematical value of a [`TokenKind`]: texts are character sequences.
pub ghost enum TokenKindView {
    LParen,
    RParen,
    LBrace,
    RBrace,
    LBracket,
    RBracket,
    Comma,
    Colon,
    If,
    Else,
    Def,
    SetVar,
    Return,
    While,
    For,
    In,
    Break,
    Load,
    String(Seq<char>),
    Int(i32),
    Float(Seq<char>),
    Boolean(bool),
    Ident(Seq<char>),
    Op(Op),
    Assign,
}

impl DeepView for TokenKind {
    type V = TokenKindView;

    open spec fn deep_view(&self) -> TokenKindView {
        match self {
            TokenKind::LParen => TokenKindView::LParen,
            TokenKind::RParen => TokenKindView::RParen,
            TokenKind::LBrace => TokenKindView::LBrace,
            TokenKind::RBrace => TokenKindView::RBrace,
            TokenKind::LBracket => TokenKindView::LBracket,
            TokenKind::RBracket => TokenKindView::RBracket,
            TokenKind::Comma => TokenKindView::Comma,
            TokenKind::Colon => TokenKindView::Colon,
            TokenKind::If => TokenKindView::If,
            TokenKind::Else => TokenKindView::Else,
            TokenKind::Def => TokenKindView::Def,
            TokenKind::SetVar => TokenKindView::SetVar,
            TokenKind::Return => TokenKindView::Return,
            TokenKind::While => TokenKindView::While,
            TokenKind::For => TokenKindView::For,
            TokenKind::In => TokenKindView::In,
            TokenKind::Break => TokenKindView::Break,
            TokenKind::Load => TokenKindView::Load,
            TokenKind::String(s) => TokenKindView::String(s@),
            TokenKind::Int(n) => TokenKindView::Int(*n),
            TokenKind::Float(s) => TokenKindView::Float(s@),
            TokenKind::Boolean(b) => TokenKindView::Boolean(*b),
            TokenKind::Ident(s) => TokenKindView::Ident(s@),
            TokenKind::Op(op) => TokenKindView::Op(*op),
            TokenKind::Assign => TokenKindView::Assign,
        }
    }
}

impl Clone for TokenKind {
    fn clone(&self) -> (r: Self)
        ensures
            r.deep_view() == self.deep_view(),
    {
        match self {
            TokenKind::LParen => TokenKind::LParen,
            TokenKind::RParen => TokenKind::RParen,
            TokenKind::LBrace => TokenKind::LBrace,
            TokenKind::RBrace => TokenKind::RBrace,
            TokenKind::LBracket => TokenKind::LBracket,
            TokenKind::RBracket => TokenKind::RBracket,
            TokenKind::Comma => TokenKind::Comma,
            TokenKind::Colon => TokenKind::Colon,
            TokenKind::If => TokenKind::If,
            TokenKind::Else => TokenKind::Else,
            TokenKind::Def => TokenKind::Def,
            TokenKind::SetVar => TokenKind::SetVar,
            TokenKind::Return => TokenKind::Return,
            TokenKind::While => TokenKind::While,
            TokenKind::For => TokenKind::For,
            TokenKind::In => TokenKind::In,
            TokenKind::Break => TokenKind::Break,
            TokenKind::Load => TokenKind::Load,
            TokenKind::String(s) => TokenKind::String(s.clone()),
            TokenKind::Int(n) => TokenKind::Int(*n),
            TokenKind::Float(s) => TokenKind::Float(s.clone()),
            TokenKind::Boolean(b) => TokenKind::Boolean(*b),
            TokenKind::Ident(s) => TokenKind::Ident(s.clone()),
            TokenKind::Op(op) => TokenKind::Op(*op),
            TokenKind::Assign => TokenKind::Assign,
        }
    }
}

/// A token: its kind and the line it was read on, counted from one.
#[derive(Debug, PartialEq)]
pub struct Token {
    pub line: usize,
    pub kind: TokenKind,
}

/// The mathematical value of a [`Token`].
pub ghost struct TokenView {
    pub line: usize,
    pub kind: TokenKindView,
}

impl DeepView for Token {
    type V = TokenView;

    open spec fn deep_view(&self) -> TokenView {
        TokenView { line: self.line, kind: self.kind.deep_view() }
    }
}

impl Clone for Token {
    fn clone(&self) -> (r: Self)
        ensures
            r.deep_view() == self.deep_view(),
    {
        Token { line: self.line, kind: self.kind.clone() }
    }
}

} // verus!
