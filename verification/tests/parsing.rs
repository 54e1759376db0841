use flush::flush::compile;
use flush::lexing::lexer::Lexer;
use flush::lexing::typing::{Op, Token, TokenKind};
use flush::parsing::grammar::{Expected, Mark, ParseError, ParseErrorKind};
use flush::parsing::parser::Parser;
use flush::parsing::typing::{BinOp, Expr, Statement};

fn parse(source: &str) -> Result<Vec<Statement>, ParseError> {
    let mut lexer = Lexer::new(source, "test.flush".to_string());
    let tokens = lexer.tokenize().unwrap();
    let mut parser = Parser::new(&tokens, "test.flush".to_string());
    parser.parse_statements()
}

fn var(name: &str) -> Expr {
    Expr::Var(name.to_string())
}

fn boxed(e: Expr) -> Box<Expr> {
    Box::new(e)
}

fn binary(op: BinOp, left: Expr, right: Expr) -> Expr {
    Expr::BinOp(op, boxed(left), boxed(right))
}

fn error(line: usize, kind: ParseErrorKind) -> Result<Vec<Statement>, ParseError> {
    Err(ParseError { line, kind })
}

#[test]
fn no_tokens_make_no_statements() {
    assert_eq!(parse(""), Ok(vec![]));
    assert_eq!(parse("# only a comment\n#another"), Ok(vec![]));
}

#[test]
fn variable_definition_and_assignment() {
    assert_eq!(
        parse("def a = 1 set a = 2"),
        Ok(vec![
            Statement::VarDef("a".to_string(), Expr::Int(1)),
            Statement::VarSet("a".to_string(), Expr::Int(2)),
        ])
    );
}

#[test]
fn operators_have_no_precedence_and_group_to_the_right() {
    assert_eq!(
        parse("return 1 * 2 + 3"),
        Ok(vec![Statement::Return(binary(
            BinOp::Mul,
            Expr::Int(1),
            binary(BinOp::Add, Expr::Int(2), Expr::Int(3))
        ))])
    );
    assert_eq!(
        parse("return 1 - 2 - 3"),
        Ok(vec![Statement::Return(binary(
            BinOp::Sub,
            Expr::Int(1),
            binary(BinOp::Sub, Expr::Int(2), Expr::Int(3))
        ))])
    );
}

#[test]
fn every_operator_is_read() {
    let cases = [
        ("+", BinOp::Add),
        ("-", BinOp::Sub),
        ("*", BinOp::Mul),
        ("/", BinOp::Div),
        ("//", BinOp::FloorDiv),
        ("%", BinOp::Mod),
        ("^", BinOp::Pow),
        ("<", BinOp::Lt),
        (">", BinOp::Gt),
        ("==", BinOp::Eq),
        ("/=", BinOp::Ne),
        ("<=", BinOp::Le),
        (">=", BinOp::Ge),
    ];
    for (text, op) in cases {
        assert_eq!(
            parse(&format!("return a {} b", text)),
            Ok(vec![Statement::Return(binary(op, var("a"), var("b")))])
        );
    }
}

#[test]
fn minus_before_a_number_negates_it() {
    assert_eq!(
        parse("return -3"),
        Ok(vec![Statement::Return(Expr::Int(-3))])
    );
    assert_eq!(
        parse("return -1.5"),
        Ok(vec![Statement::Return(Expr::Float("-1.5".to_string()))])
    );
    assert_eq!(
        parse("return - - 1.5"),
        Ok(vec![Statement::Return(Expr::Float("1.5".to_string()))])
    );
    assert_eq!(
        parse("return a - 3"),
        Ok(vec![Statement::Return(binary(BinOp::Sub, var("a"), Expr::Int(3)))])
    );
}

#[test]
fn minus_takes_a_number_alone() {
    assert_eq!(
        parse("return -3 + 4"),
        error(
            1,
            ParseErrorKind::UnexpectedToken(TokenKind::Int(3), Expected::Number)
        )
    );
    assert_eq!(
        parse("return -a"),
        error(
            1,
            ParseErrorKind::UnexpectedToken(TokenKind::Ident("a".to_string()), Expected::Number)
        )
    );
    assert_eq!(
        parse("return +3"),
        error(
            1,
            ParseErrorKind::UnexpectedToken(TokenKind::Op(Op::Add), Expected::Expression)
        )
    );
    assert_eq!(
        parse("return -"),
        error(1, ParseErrorKind::UnterminatedConstruct(Expected::Number))
    );
}

#[test]
fn negating_the_least_integer_is_refused() {
    let tokens = vec![
        Token { line: 1, kind: TokenKind::Return },
        Token { line: 1, kind: TokenKind::Op(Op::Sub) },
        Token { line: 1, kind: TokenKind::Int(i32::MIN) },
    ];
    let mut parser = Parser::new(&tokens, "test.flush".to_string());
    assert_eq!(
        parser.parse_statements(),
        error(1, ParseErrorKind::NumberOutOfRange)
    );
}

#[test]
fn calls_lists_and_indexes() {
    assert_eq!(
        parse("return f(1, a)[0] + [1, 2,][1] + l[i]"),
        Ok(vec![Statement::Return(binary(
            BinOp::Add,
            Expr::Index(
                boxed(Expr::Call(
                    "f".to_string(),
                    vec![boxed(Expr::Int(1)), boxed(var("a"))]
                )),
                boxed(Expr::Int(0))
            ),
            binary(
                BinOp::Add,
                Expr::Index(
                    boxed(Expr::List(vec![boxed(Expr::Int(1)), boxed(Expr::Int(2))])),
                    boxed(Expr::Int(1))
                ),
                Expr::Index(boxed(var("l")), boxed(var("i")))
            )
        ))])
    );
    assert_eq!(
        parse("return f()"),
        Ok(vec![Statement::Return(Expr::Call("f".to_string(), vec![]))])
    );
    assert_eq!(parse("return []"), Ok(vec![Statement::Return(Expr::List(vec![]))]));
}

#[test]
fn dictionary_literals() {
    assert_eq!(
        parse("return {\"a\": 1, \"b\": [2], \"a\": 3}"),
        Ok(vec![Statement::Return(Expr::Dictionnary(vec![
            ("a".to_string(), boxed(Expr::Int(3))),
            ("b".to_string(), boxed(Expr::List(vec![boxed(Expr::Int(2))]))),
        ]))])
    );
    assert_eq!(
        parse("return {}"),
        Ok(vec![Statement::Return(Expr::Dictionnary(vec![]))])
    );
    assert_eq!(
        parse("return {a: 1}"),
        error(
            1,
            ParseErrorKind::UnexpectedToken(TokenKind::Ident("a".to_string()), Expected::Text)
        )
    );
    assert_eq!(
        parse("return {\"a\": 1"),
        error(
            1,
            ParseErrorKind::UnterminatedConstruct(Expected::Mark(Mark::Comma))
        )
    );
    assert_eq!(
        parse("return {"),
        error(
            1,
            ParseErrorKind::UnterminatedConstruct(Expected::Mark(Mark::RBrace))
        )
    );
}

#[test]
fn conditional_with_and_without_else() {
    assert_eq!(
        parse("if (a) { break } else { return 1 } if (b) { }"),
        Ok(vec![
            Statement::If(
                var("a"),
                vec![Box::new(Statement::Break)],
                vec![Box::new(Statement::Return(Expr::Int(1)))]
            ),
            Statement::If(var("b"), vec![], vec![]),
        ])
    );
}

#[test]
fn loops() {
    assert_eq!(
        parse("while (a < 1) { set a = 1 } for (i in range(0, 2)) { break }"),
        Ok(vec![
            Statement::While(
                binary(BinOp::Lt, var("a"), Expr::Int(1)),
                vec![Box::new(Statement::VarSet("a".to_string(), Expr::Int(1)))]
            ),
            Statement::For(
                "i".to_string(),
                Expr::Call(
                    "range".to_string(),
                    vec![boxed(Expr::Int(0)), boxed(Expr::Int(2))]
                ),
                vec![Box::new(Statement::Break)]
            ),
        ])
    );
    assert_eq!(
        parse("for (1 in l) { }"),
        error(1, ParseErrorKind::ExpectedIdentifier(Some(TokenKind::Int(1))))
    );
    assert_eq!(
        parse("for (i l) { }"),
        error(
            1,
            ParseErrorKind::UnexpectedToken(
                TokenKind::Ident("l".to_string()),
                Expected::Mark(Mark::In)
            )
        )
    );
}

#[test]
fn function_definitions() {
    assert_eq!(
        parse("def f(a, b) { return a } def g() { }"),
        Ok(vec![
            Statement::FuncDef(
                "f".to_string(),
                vec!["a".to_string(), "b".to_string()],
                vec![Statement::Return(var("a"))]
            ),
            Statement::FuncDef("g".to_string(), vec![], vec![]),
        ])
    );
    assert_eq!(
        parse("def f(a) {\n return a"),
        error(2, ParseErrorKind::UnfinishedFunctionBody)
    );
    assert_eq!(
        parse("def f(1) { }"),
        error(1, ParseErrorKind::ExpectedIdentifier(Some(TokenKind::Int(1))))
    );
    assert_eq!(
        parse("def f(a"),
        error(
            1,
            ParseErrorKind::UnterminatedConstruct(Expected::Mark(Mark::Comma))
        )
    );
}

#[test]
fn load_takes_a_string() {
    assert_eq!(
        parse("load \"lib.flush\""),
        Ok(vec![Statement::Load("lib.flush".to_string())])
    );
    assert_eq!(
        parse("load lib"),
        error(
            1,
            ParseErrorKind::UnexpectedToken(TokenKind::Ident("lib".to_string()), Expected::Text)
        )
    );
}

#[test]
fn bare_expression_is_a_statement() {
    assert_eq!(
        parse("print(1)\nx"),
        Ok(vec![
            Statement::Expr(Expr::Call("print".to_string(), vec![boxed(Expr::Int(1))])),
            Statement::Expr(var("x")),
        ])
    );
}

#[test]
fn what_starts_no_statement_is_unknown() {
    assert_eq!(
        parse("def a = 1\n)"),
        error(2, ParseErrorKind::UnknownStatement(TokenKind::RParen))
    );
    assert_eq!(
        parse("f("),
        error(
            1,
            ParseErrorKind::UnknownStatement(TokenKind::Ident("f".to_string()))
        )
    );
}

#[test]
fn definition_errors() {
    assert_eq!(parse("def"), error(1, ParseErrorKind::ExpectedIdentifier(None)));
    assert_eq!(
        parse("def 1"),
        error(1, ParseErrorKind::ExpectedIdentifier(Some(TokenKind::Int(1))))
    );
    assert_eq!(
        parse("def a"),
        error(
            1,
            ParseErrorKind::UnterminatedConstruct(Expected::Mark(Mark::Assign))
        )
    );
    assert_eq!(
        parse("def a 1"),
        error(
            1,
            ParseErrorKind::UnexpectedToken(TokenKind::Int(1), Expected::Mark(Mark::Assign))
        )
    );
    assert_eq!(
        parse("def a ="),
        error(1, ParseErrorKind::UnterminatedConstruct(Expected::Expression))
    );
}

#[test]
fn unterminated_constructs() {
    assert_eq!(
        parse("if (a) {\n break"),
        error(
            2,
            ParseErrorKind::UnterminatedConstruct(Expected::Mark(Mark::RBrace))
        )
    );
    assert_eq!(
        parse("return f(1"),
        error(
            1,
            ParseErrorKind::UnterminatedConstruct(Expected::Mark(Mark::Comma))
        )
    );
    assert_eq!(
        parse("return [1,"),
        error(
            1,
            ParseErrorKind::UnterminatedConstruct(Expected::Mark(Mark::RBracket))
        )
    );
    assert_eq!(
        parse("return a[1"),
        error(
            1,
            ParseErrorKind::UnterminatedConstruct(Expected::Mark(Mark::RBracket))
        )
    );
    assert_eq!(
        parse("if a"),
        error(
            1,
            ParseErrorKind::UnexpectedToken(
                TokenKind::Ident("a".to_string()),
                Expected::Mark(Mark::LParen)
            )
        )
    );
}

#[test]
fn parse_errors_are_reported_for_the_file() {
    let error = compile("def a = 1\nif a", &"main.flush".to_string()).unwrap_err();
    assert_eq!(error.0, "main.flush");
    assert_eq!(error.1, 2);
    assert_eq!(error.2, "Expected LParen, found Ident(\"a\")");
    assert_eq!(
        error.to_string(),
        "=> main.flush:2\nerror: Expected LParen, found Ident(\"a\")"
    );
    let error = compile("def s = \"abc", &"main.flush".to_string()).unwrap_err();
    assert_eq!(error.to_string(), "=> main.flush:1\nerror: Unterminated string");
}

#[test]
fn parse_messages() {
    let message = |kind| ParseError { line: 1, kind }.message();
    assert_eq!(
        message(ParseErrorKind::UnexpectedToken(
            TokenKind::Op(Op::FloorDiv),
            Expected::Expression
        )),
        "Expected Expression, found Op(FloorDiv)"
    );
    assert_eq!(
        message(ParseErrorKind::ExpectedIdentifier(None)),
        "Expected Identifier, found nothing"
    );
    assert_eq!(
        message(ParseErrorKind::ExpectedIdentifier(Some(TokenKind::Float("1.5".to_string())))),
        "Expected Identifier, found Float(1.5)"
    );
    assert_eq!(
        message(ParseErrorKind::UnterminatedConstruct(Expected::Mark(Mark::RBrace))),
        "Expected RBrace, found nothing"
    );
    assert_eq!(
        message(ParseErrorKind::UnknownStatement(TokenKind::Boolean(true))),
        "Unknown statement Boolean(true)"
    );
    assert_eq!(
        message(ParseErrorKind::UnfinishedFunctionBody),
        "Unfinished function body"
    );
    assert_eq!(message(ParseErrorKind::NumberOutOfRange), "Number out of range");
    assert_eq!(
        message(ParseErrorKind::UnknownStatement(TokenKind::Int(-5))),
        "Unknown statement Int(-5)"
    );
}
