use flush::lexing::lexer::Lexer;
use flush::lexing::typing::{Op, Token, TokenKind};

fn get_types(tokens: &Vec<Token>) -> Vec<TokenKind> {
    tokens.iter().map(|t| t.kind.clone()).collect()
}

fn lex(source: &str) -> Vec<TokenKind> {
    let mut lexer = Lexer::new(source, "test.flush".to_string());
    get_types(&lexer.tokenize().unwrap())
}

#[test]
fn single_line_comment() {
    assert_eq!(lex("# hello, world\n#lorem"), vec![])
}

#[test]
fn parentheses_braces_brackets() {
    assert_eq!(
        lex("( } [ ) { ]"),
        vec![
            TokenKind::LParen,
            TokenKind::RBrace,
            TokenKind::LBracket,
            TokenKind::RParen,
            TokenKind::LBrace,
            TokenKind::RBracket
        ]
    )
}

#[test]
fn punctuation() {
    assert_eq!(lex("; , :"), vec![TokenKind::Comma, TokenKind::Colon])
}

#[test]
fn string() {
    assert_eq!(
        lex("\"Hello, World!\""),
        vec![TokenKind::String("Hello, World!".to_string())]
    );
}

#[test]
fn unclosed_string() {
    let mut lexer = Lexer::new("\"Hello flush", "test.flush".to_string());
    let error = lexer.tokenize().unwrap_err();
    assert_eq!(error.0, "test.flush");
    assert_eq!(error.1, 1);
    assert_eq!(error.2, "Unterminated string");
}

#[test]
fn numbers() {
    assert_eq!(
        lex("32 18.25"),
        vec![TokenKind::Int(32), TokenKind::Float("18.25".to_string())]
    )
}

#[test]
fn keywords() {
    assert_eq!(
        lex("def user"),
        vec![TokenKind::Def, TokenKind::Ident("user".to_string())]
    )
}

#[test]
fn operators() {
    assert_eq!(
        lex("+/*-=%"),
        vec![
            TokenKind::Op(Op::Add),
            TokenKind::Op(Op::Div),
            TokenKind::Op(Op::Mul),
            TokenKind::Op(Op::Sub),
            TokenKind::Assign,
            TokenKind::Op(Op::Mod),
        ]
    )
}

fn lex_lines(source: &str) -> Vec<(usize, TokenKind)> {
    let mut lexer = Lexer::new(source, "test.flush".to_string());
    lexer
        .tokenize()
        .unwrap()
        .iter()
        .map(|t| (t.line, t.kind.clone()))
        .collect()
}

#[test]
fn comments_leave_nothing_behind() {
    assert_eq!(lex("# comment\n#comment2"), vec![]);
    assert_eq!(lex("#"), vec![]);
    assert_eq!(lex(""), vec![]);
}

#[test]
fn comment_ends_with_its_line() {
    assert_eq!(
        lex_lines("# ab\ndef # x def\nuser"),
        vec![(2, TokenKind::Def), (3, TokenKind::Ident("user".to_string()))]
    );
}

#[test]
fn integer_literals_within_32_bits() {
    for n in [0i64, 1, 7, 10, 42, 1000, 2147483646, 2147483647] {
        assert_eq!(lex(&n.to_string()), vec![TokenKind::Int(n as i32)]);
    }
    assert_eq!(lex("007"), vec![TokenKind::Int(7)]);
}

#[test]
fn numbers_beyond_32_bits_or_with_a_point_are_floats() {
    for text in ["2147483648", "99999999999999999999", "1.5", "1.", "0.0", "1.2.3", "1..2"] {
        assert_eq!(lex(text), vec![TokenKind::Float(text.to_string())]);
    }
}

#[test]
fn minus_is_an_operator_of_its_own() {
    assert_eq!(lex("-5"), vec![TokenKind::Op(Op::Sub), TokenKind::Int(5)]);
}

#[test]
fn unterminated_string_hands_out_no_tokens() {
    let mut lexer = Lexer::new("def a = \"abc", "test.flush".to_string());
    let error = lexer.tokenize().unwrap_err();
    assert_eq!(error.1, 1);
    assert_eq!(error.2, "Unterminated string");
    let mut lexer = Lexer::new("\n\n\"abc", "test.flush".to_string());
    assert_eq!(lexer.tokenize().unwrap_err().1, 3);
}

#[test]
fn newline_in_string_is_illegal() {
    let mut lexer = Lexer::new("\"ab\ncd\"", "test.flush".to_string());
    let error = lexer.tokenize().unwrap_err();
    assert_eq!(error.0, "test.flush");
    assert_eq!(error.1, 1);
    assert_eq!(error.2, "Illegal newline in a string");
}

#[test]
fn strings_keep_their_characters() {
    assert_eq!(
        lex("\"a # b\" \"\" \"héllo\""),
        vec![
            TokenKind::String("a # b".to_string()),
            TokenKind::String("".to_string()),
            TokenKind::String("héllo".to_string()),
        ]
    );
}

#[test]
fn all_keywords() {
    assert_eq!(
        lex("if else def set return while for in break load true false"),
        vec![
            TokenKind::If,
            TokenKind::Else,
            TokenKind::Def,
            TokenKind::SetVar,
            TokenKind::Return,
            TokenKind::While,
            TokenKind::For,
            TokenKind::In,
            TokenKind::Break,
            TokenKind::Load,
            TokenKind::Boolean(true),
            TokenKind::Boolean(false),
        ]
    );
}

#[test]
fn identifiers() {
    assert_eq!(
        lex("_a a_1 iff defx A9 x"),
        vec![
            TokenKind::Ident("_a".to_string()),
            TokenKind::Ident("a_1".to_string()),
            TokenKind::Ident("iff".to_string()),
            TokenKind::Ident("defx".to_string()),
            TokenKind::Ident("A9".to_string()),
            TokenKind::Ident("x".to_string()),
        ]
    );
}

#[test]
fn two_character_operators() {
    assert_eq!(
        lex("// /= <= >= == < > = / ^"),
        vec![
            TokenKind::Op(Op::FloorDiv),
            TokenKind::Op(Op::Ne),
            TokenKind::Op(Op::Le),
            TokenKind::Op(Op::Ge),
            TokenKind::Op(Op::Eq),
            TokenKind::Op(Op::Lt),
            TokenKind::Op(Op::Gt),
            TokenKind::Assign,
            TokenKind::Op(Op::Div),
            TokenKind::Op(Op::Pow),
        ]
    );
    assert_eq!(lex("==="), vec![TokenKind::Op(Op::Eq), TokenKind::Assign]);
    assert_eq!(lex("/"), vec![TokenKind::Op(Op::Div)]);
}

#[test]
fn unknown_characters_are_skipped() {
    assert_eq!(
        lex("a ; ? @ b \t é"),
        vec![
            TokenKind::Ident("a".to_string()),
            TokenKind::Ident("b".to_string())
        ]
    );
}

#[test]
fn lines_are_counted() {
    assert_eq!(
        lex_lines("a\nb\n\nc"),
        vec![
            (1, TokenKind::Ident("a".to_string())),
            (2, TokenKind::Ident("b".to_string())),
            (4, TokenKind::Ident("c".to_string())),
        ]
    );
}

#[test]
fn tokenizing_again_gives_the_same() {
    let mut lexer = Lexer::new("def a = 1", "test.flush".to_string());
    let first = lexer.tokenize().unwrap();
    let second = lexer.tokenize().unwrap();
    assert_eq!(first, second);
}
