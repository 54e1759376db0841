use flush::flush::{compile, run};
use flush::interpreting::builtins::cmp::decide;
use flush::interpreting::interpreter::Interpreter;
use flush::interpreting::outcome::{
    Builtin, Computed, FloatOp, Order, Reply, Request, RuntimeError, Signal,
};
use flush::interpreting::typing::{Context, Kind, Literal};
use flush::parsing::typing::{BinOp, Expr, Statement};

fn float(text: &str) -> Option<f64> {
    text.parse::<f64>().ok()
}

fn answer_float(op: FloatOp, left: &str, right: &str) -> Reply {
    let a = match float(left) {
        Some(a) => a,
        None => return Reply::Invalid,
    };
    let b = float(right).unwrap_or(0.0);
    let result = match op {
        FloatOp::Add => a + b,
        FloatOp::Sub => a - b,
        FloatOp::Mul => a * b,
        FloatOp::Div => a / b,
        FloatOp::FloorDiv => (a / b).floor(),
        FloatOp::Mod => a % b,
        FloatOp::Pow => a.powf(b),
        FloatOp::Cos => a.cos(),
        FloatOp::Sin => a.sin(),
        FloatOp::Tan => a.tan(),
        FloatOp::Acos => a.acos(),
        FloatOp::Asin => a.asin(),
        FloatOp::Atan => a.atan(),
        FloatOp::Parse => a,
        FloatOp::Random => a,
    };
    Reply::Float(format!("{}", result))
}

fn answer_compare(left: &str, right: &str) -> Reply {
    match (float(left), float(right)) {
        (Some(a), Some(b)) => Reply::Order(if a < b {
            Order::Less
        } else if a > b {
            Order::Greater
        } else if a == b {
            Order::Equal
        } else {
            Order::Unordered
        }),
        _ => Reply::Invalid,
    }
}

struct Run {
    result: Result<Vec<(String, Literal)>, RuntimeError>,
    output: String,
}

fn drive(machine: &mut Interpreter, input: &[&str]) -> Run {
    let mut output = String::new();
    let mut lines = input.iter();
    let mut reply = Reply::Empty;
    loop {
        match machine.interpret(reply, 1000) {
            Signal::Running => reply = Reply::Empty,
            Signal::Finished => {
                return Run { result: Ok(machine.get_stack()), output };
            }
            Signal::Failed(error) => return Run { result: Err(error), output },
            Signal::Request(request) => {
                reply = match request {
                    Request::Write(text) => {
                        output.push_str(&text);
                        Reply::Empty
                    }
                    Request::Flush => Reply::Empty,
                    Request::ReadLine => match lines.next() {
                        Some(line) => Reply::Line(line.to_string()),
                        None => Reply::Failed("end of input".to_string()),
                    },
                    Request::Float(op, left, right) => answer_float(op, &left, &right),
                    Request::Compare(left, right) => answer_compare(&left, &right),
                    Request::Load(path) => Reply::Failed(format!("`{}` does not exist!", path)),
                }
            }
        }
    }
}

fn run_source(source: &str) -> Run {
    run_with_input(source, &[])
}

fn run_with_input(source: &str, input: &[&str]) -> Run {
    let file = "main.flush".to_string();
    let statements = compile(source, &file).unwrap();
    let mut cache = vec![];
    let (mut machine, _) = run(statements, file, &mut cache, &vec![]);
    drive(&mut machine, input)
}

fn global(run: &Run, name: &str) -> Literal {
    let stack = run.result.as_ref().unwrap();
    stack.iter().find(|(key, _)| key == name).unwrap().1.clone()
}

fn value(c: Result<Computed, RuntimeError>) -> Literal {
    match c.unwrap() {
        Computed::Value(v) => v,
        other => panic!("not a value: {:?}", other),
    }
}

fn string(s: &str) -> Literal {
    Literal::String(s.to_string())
}

#[test]
fn defines_variables_at_top_level() {
    let run = run_source("def a = 1\ndef b = a + 2\nset a = b * 3");
    assert_eq!(global(&run, "a"), Literal::Int(9));
    assert_eq!(global(&run, "b"), Literal::Int(3));
}

#[test]
fn operators_group_to_the_right() {
    let run = run_source("def a = 2 * 3 + 4\ndef b = 10 - 2 - 3");
    assert_eq!(global(&run, "a"), Literal::Int(14));
    assert_eq!(global(&run, "b"), Literal::Int(11));
}

#[test]
fn duplicate_definition_fails() {
    let run = run_source("def a = 1\ndef a = 2");
    assert_eq!(run.result, Err(RuntimeError::AlreadyDefined("a".to_string())));
}

#[test]
fn assignment_to_unknown_variable_fails() {
    let run = run_source("set a = 2");
    assert_eq!(run.result, Err(RuntimeError::UndefinedVariable("a".to_string())));
}

#[test]
fn undefined_variable_fails() {
    let run = run_source("def a = b");
    assert_eq!(run.result, Err(RuntimeError::UndefinedVariable("b".to_string())));
}

#[test]
fn main_is_called_in_the_entry_file() {
    let run = run_source("def main() { printLn(\"hi\", 1, true) }");
    assert!(run.result.is_ok());
    assert_eq!(run.output, "\"hi\" 1 true\n");
}

#[test]
fn main_with_parameters_is_an_arity_error() {
    let run = run_source("def main(a) { return a }");
    assert_eq!(
        run.result,
        Err(RuntimeError::NotEnoughArguments("main".to_string(), 1, 0))
    );
}

#[test]
fn put_str_writes_strings_as_they_are() {
    let run = run_source("def main() { putStr(\"a\", \"b\") putStrLn(\"c\") }");
    assert_eq!(run.output, "a bc\n");
}

#[test]
fn put_str_refuses_what_is_no_string() {
    let run = run_source("def main() { putStr(\"a\", 1) }");
    assert_eq!(
        run.result,
        Err(RuntimeError::InvalidArgument(Builtin::PutStr, Kind::Int))
    );
    assert_eq!(run.output, "");
}

#[test]
fn print_joins_with_single_spaces() {
    let run = run_source("def main() { print(1, [1, \"a\"], {\"k\": 2}) }");
    assert_eq!(run.output, "1 [1, \"a\"] {\"k\": 2}");
}

#[test]
fn read_line_gives_the_line() {
    let run = run_with_input("def line = readLine()", &["hello"]);
    assert_eq!(global(&run, "line"), string("hello"));
}

#[test]
fn expression_outside_function_fails() {
    let run = run_source("print(1)");
    assert_eq!(run.result, Err(RuntimeError::ExpressionOutsideFunction));
}

#[test]
fn break_outside_loop_fails() {
    let run = run_source("break");
    assert_eq!(run.result, Err(RuntimeError::BreakOutsideLoop));
}

#[test]
fn function_returns_its_value() {
    let run = run_source("def twice(x) { return x * 2 }\ndef a = twice(21)");
    assert_eq!(global(&run, "a"), Literal::Int(42));
}

#[test]
fn function_without_return_gives_unit() {
    let run = run_source("def nothing() { def x = 1 }\ndef a = nothing()");
    assert_eq!(global(&run, "a"), Literal::Unit);
}

#[test]
fn recursion_works() {
    let source = "def fact(n) { if (n <= 1) { return 1 } return n * fact(n - 1) }\ndef a = fact(10)";
    let run = run_source(source);
    assert_eq!(global(&run, "a"), Literal::Int(3628800));
}

#[test]
fn variable_defined_in_function_is_gone_after_return() {
    let run = run_source("def f() { def inner = 1 return inner }\ndef a = f()\ndef b = inner");
    assert_eq!(run.result, Err(RuntimeError::UndefinedVariable("inner".to_string())));
}

#[test]
fn function_scope_is_not_in_the_exported_bindings() {
    let run = run_source("def f() { def inner = 1 return inner }\ndef a = f()");
    let stack = run.result.unwrap();
    let names: Vec<&str> = stack.iter().map(|(k, _)| k.as_str()).collect();
    assert_eq!(names, vec!["f", "a"]);
}

#[test]
fn function_reads_top_level_variable_through_the_scope_stack() {
    let run = run_source("def top = 5\ndef f() { return top + 1 }\ndef a = f()");
    assert_eq!(global(&run, "a"), Literal::Int(6));
}

#[test]
fn function_sees_the_scope_of_its_caller() {
    let source = "def inner() { return local }\ndef outer() { def local = 7 return inner() }\ndef a = outer()";
    let run = run_source(source);
    assert_eq!(global(&run, "a"), Literal::Int(7));
}

#[test]
fn parameters_shadow_outer_variables() {
    let run = run_source("def x = 1\ndef f(x) { set x = x + 1 return x }\ndef a = f(10)");
    assert_eq!(global(&run, "a"), Literal::Int(11));
    assert_eq!(global(&run, "x"), Literal::Int(1));
}

#[test]
fn too_few_arguments_is_an_arity_error() {
    let run = run_source("def f(a, b) { return a }\ndef x = f(1)");
    assert_eq!(
        run.result,
        Err(RuntimeError::NotEnoughArguments("f".to_string(), 2, 1))
    );
}

#[test]
fn extra_arguments_are_ignored() {
    let run = run_source("def f(a, b) { return a + b }\ndef x = f(1, 2, undefined_name)");
    assert_eq!(global(&run, "x"), Literal::Int(3));
}

#[test]
fn undefined_function_fails() {
    let run = run_source("def x = nothing(1)");
    assert_eq!(run.result, Err(RuntimeError::UndefinedFunction("nothing".to_string())));
}

#[test]
fn built_ins_go_before_functions_of_the_same_name() {
    let run = run_source("def range(a, b) { return 0 }\ndef x = range(0, 2)");
    assert_eq!(
        global(&run, "x"),
        Literal::List(vec![Literal::Int(0), Literal::Int(1)])
    );
}

#[test]
fn range_counts_up_to_stop() {
    let run = run_source("def a = range(0, 5)\ndef b = range(5, 0)");
    assert_eq!(
        global(&run, "a"),
        Literal::List((0..5).map(Literal::Int).collect())
    );
    assert_eq!(global(&run, "b"), Literal::List(vec![]));
}

#[test]
fn range_wants_integers() {
    let run = run_source("def a = range(0, \"x\")");
    assert_eq!(
        run.result,
        Err(RuntimeError::InvalidArgument(Builtin::Range, Kind::String))
    );
    let run = run_source("def a = range(1)");
    assert_eq!(
        run.result,
        Err(RuntimeError::NotEnoughArguments("range".to_string(), 2, 1))
    );
}

#[test]
fn while_loop_runs_until_condition_fails() {
    let run = run_source("def i = 0\ndef sum = 0\nwhile (i < 5) { set sum = sum + i set i = i + 1 }");
    assert_eq!(global(&run, "sum"), Literal::Int(10));
    assert_eq!(global(&run, "i"), Literal::Int(5));
}

#[test]
fn while_checks_its_condition_before_each_statement() {
    let run = run_source("def i = 0\ndef seen = 0\nwhile (i < 1) { set i = i + 1 set seen = 1 }");
    assert_eq!(global(&run, "i"), Literal::Int(1));
    assert_eq!(global(&run, "seen"), Literal::Int(0));
}

#[test]
fn break_ends_the_while_loop_at_the_next_check() {
    let run = run_source("def i = 0\nwhile (true) { set i = i + 1 break set i = 100 }");
    assert_eq!(global(&run, "i"), Literal::Int(1));
}

#[test]
fn return_in_while_unwinds_the_loop() {
    let source = "def f() { def i = 0 while (true) { set i = i + 1 return i } }\ndef a = f()";
    let run = run_source(source);
    assert_eq!(global(&run, "a"), Literal::Int(1));
}

#[test]
fn condition_must_be_boolean() {
    let run = run_source("if (1) { def a = 1 }");
    assert_eq!(run.result, Err(RuntimeError::ConditionNotBoolean(Kind::Int)));
    let run = run_source("while (\"x\") { def a = 1 }");
    assert_eq!(run.result, Err(RuntimeError::ConditionNotBoolean(Kind::String)));
}

#[test]
fn conditional_runs_one_of_its_blocks() {
    let run = run_source("def a = 0\nif (1 < 2) { set a = 1 } else { set a = 2 }\ndef b = 0\nif (2 < 1) { set b = 1 } else { set b = 2 }");
    assert_eq!(global(&run, "a"), Literal::Int(1));
    assert_eq!(global(&run, "b"), Literal::Int(2));
}

#[test]
fn conditional_hands_up_the_value_returned_inside() {
    let run = run_source("def f(x) { if (x) { return 1 } else { return 2 } return 3 }\ndef a = f(true)\ndef b = f(false)");
    assert_eq!(global(&run, "a"), Literal::Int(1));
    assert_eq!(global(&run, "b"), Literal::Int(2));
}

#[test]
fn for_loop_binds_each_item() {
    let run = run_source("def sum = 0\nfor (i in [1, 2, 3]) { set sum = sum + i }");
    assert_eq!(global(&run, "sum"), Literal::Int(6));
    let stack = run.result.unwrap();
    assert!(stack.iter().all(|(k, _)| k != "i"));
}

#[test]
fn for_loop_variable_must_be_new() {
    let run = run_source("def i = 0\nfor (i in [1]) { set i = 2 }");
    assert_eq!(run.result, Err(RuntimeError::AlreadyDefined("i".to_string())));
}

#[test]
fn break_ends_the_for_loop_at_once() {
    let run = run_source("def n = 0\nfor (i in [1, 2, 3]) { set n = n + 1 break set n = 100 }");
    assert_eq!(global(&run, "n"), Literal::Int(1));
}

#[test]
fn break_inside_a_conditional_ends_the_for_loop_before_the_next_item() {
    let run = run_source("def n = 0\nfor (i in [1, 2, 3]) { if (i == 2) { break } set n = n + i }");
    assert_eq!(global(&run, "n"), Literal::Int(3));
}

#[test]
fn for_loop_wants_a_list() {
    let run = run_source("def n = 0\nfor (i in 5) { set n = 1 }");
    assert_eq!(run.result, Err(RuntimeError::NotAList(Kind::Int)));
    let run = run_source("def n = 0\nfor (i in \"abc\") { set n = 1 }");
    assert_eq!(run.result, Err(RuntimeError::NotAList(Kind::String)));
}

#[test]
fn lists_strings_and_dictionaries_are_indexed() {
    let source = "def l = [10, 20, 30]\ndef a = l[1]\ndef s = \"abc\"\ndef c = s[2]\ndef d = {\"k\": 1, \"j\": 2}\ndef e = d[\"j\"]";
    let run = run_source(source);
    assert_eq!(global(&run, "a"), Literal::Int(20));
    assert_eq!(global(&run, "c"), string("c"));
    assert_eq!(global(&run, "e"), Literal::Int(2));
}

#[test]
fn index_errors_are_told_apart() {
    let run = run_source("def l = [1]\ndef a = l[1]");
    assert_eq!(run.result, Err(RuntimeError::IndexOutOfRange(1, 1)));
    let run = run_source("def l = [1]\ndef a = l[-1]");
    assert_eq!(run.result, Err(RuntimeError::NegativeIndex(-1)));
    let run = run_source("def l = [1]\ndef a = l[\"x\"]");
    assert_eq!(run.result, Err(RuntimeError::InvalidIndex(Kind::String)));
    let run = run_source("def d = {\"k\": 1}\ndef a = d[\"x\"]");
    assert_eq!(run.result, Err(RuntimeError::MissingKey("x".to_string())));
    let run = run_source("def d = {\"k\": 1}\ndef a = d[0]");
    assert_eq!(run.result, Err(RuntimeError::InvalidIndex(Kind::Int)));
    let run = run_source("def n = 1\ndef a = n[0]");
    assert_eq!(run.result, Err(RuntimeError::NotIndexable(Kind::Int)));
}

#[test]
fn indexed_assignment_changes_the_list() {
    let file = "main.flush".to_string();
    let statements = vec![
        Statement::VarDef(
            "l".to_string(),
            Expr::List(vec![Box::new(Expr::Int(1)), Box::new(Expr::Int(2))]),
        ),
        Statement::IndexSet(Expr::Var("l".to_string()), Expr::Int(1), Expr::Int(5)),
    ];
    let mut cache = vec![];
    let (mut machine, _) = run(statements, file, &mut cache, &vec![]);
    let run = drive(&mut machine, &[]);
    assert_eq!(
        global(&run, "l"),
        Literal::List(vec![Literal::Int(1), Literal::Int(5)])
    );
}

#[test]
fn indexed_assignment_wants_a_list() {
    let file = "main.flush".to_string();
    let statements = vec![
        Statement::VarDef("l".to_string(), Expr::Int(1)),
        Statement::IndexSet(Expr::Var("l".to_string()), Expr::Int(0), Expr::Int(5)),
    ];
    let mut cache = vec![];
    let (mut machine, _) = run(statements, file, &mut cache, &vec![]);
    let run = drive(&mut machine, &[]);
    assert_eq!(run.result, Err(RuntimeError::NotAList(Kind::Int)));
}

#[test]
fn string_comparison_goes_by_length() {
    let run = run_source("def a = \"ab\" < \"abc\"\ndef b = \"zz\" < \"a\"\ndef c = \"ab\" == \"ab\"\ndef d = \"ab\" == \"cd\"\ndef e = \"ab\" <= \"cd\"");
    assert_eq!(global(&run, "a"), Literal::Boolean(true));
    assert_eq!(global(&run, "b"), Literal::Boolean(false));
    assert_eq!(global(&run, "c"), Literal::Boolean(true));
    assert_eq!(global(&run, "d"), Literal::Boolean(false));
    assert_eq!(global(&run, "e"), Literal::Boolean(true));
}

#[test]
fn other_pairs_are_neither_ordered_nor_equal() {
    let run = run_source("def a = true < false\ndef b = [1] == [1]\ndef c = [1] /= [1]\ndef d = true == true\ndef e = 1 == \"1\"");
    assert_eq!(global(&run, "a"), Literal::Boolean(false));
    assert_eq!(global(&run, "b"), Literal::Boolean(false));
    assert_eq!(global(&run, "c"), Literal::Boolean(false));
    assert_eq!(global(&run, "d"), Literal::Boolean(true));
    assert_eq!(global(&run, "e"), Literal::Boolean(false));
}

#[test]
fn integer_division_by_zero_is_an_error() {
    let run = run_source("def a = 5 / 0");
    assert_eq!(run.result, Err(RuntimeError::DivisionByZero));
    let run = run_source("def a = 5 % 0");
    assert_eq!(run.result, Err(RuntimeError::DivisionByZero));
    let run = run_source("def a = 5 // 0");
    assert_eq!(run.result, Err(RuntimeError::DivisionByZero));
}

#[test]
fn float_division_by_zero_is_not_finite() {
    let run = run_source("def a = 5.0 / 0.0");
    assert_eq!(global(&run, "a"), Literal::Float("inf".to_string()));
}

#[test]
fn integer_arithmetic_is_exact() {
    let run = run_source("def m = -7\ndef a = 7 / 2\ndef b = m / 2\ndef c = m // 2\ndef d = m % 2\ndef e = 2 ^ 10\ndef f = 7 - 10");
    assert_eq!(global(&run, "a"), Literal::Int(3));
    assert_eq!(global(&run, "b"), Literal::Int(-3));
    assert_eq!(global(&run, "c"), Literal::Int(-4));
    assert_eq!(global(&run, "d"), Literal::Int(-1));
    assert_eq!(global(&run, "e"), Literal::Int(1024));
    assert_eq!(global(&run, "f"), Literal::Int(-3));
}

#[test]
fn integer_overflow_is_an_error() {
    let run = run_source("def a = 2147483647 + 1");
    assert_eq!(run.result, Err(RuntimeError::Overflow));
    let run = run_source("def a = 2 ^ 31");
    assert_eq!(run.result, Err(RuntimeError::Overflow));
    let run = run_source("def a = 65536 * 65536");
    assert_eq!(run.result, Err(RuntimeError::Overflow));
}

#[test]
fn negative_exponent_is_refused() {
    let run = run_source("def a = 2 ^ -1");
    assert_eq!(run.result, Err(RuntimeError::NegativeExponent));
}

#[test]
fn strings_are_joined_and_repeated() {
    let run = run_source("def a = \"ab\" + \"cd\"\ndef b = \"ab\" * 3\ndef c = 2 * \"x\"\ndef d = \"x\" * 0");
    assert_eq!(global(&run, "a"), string("abcd"));
    assert_eq!(global(&run, "b"), string("ababab"));
    assert_eq!(global(&run, "c"), string("xx"));
    assert_eq!(global(&run, "d"), string(""));
}

#[test]
fn negative_repeat_is_refused() {
    let run = run_source("def a = \"ab\" * -1");
    assert_eq!(run.result, Err(RuntimeError::NegativeRepeat));
}

#[test]
fn operands_of_the_wrong_kind_are_named() {
    let run = run_source("def a = true + 1");
    assert_eq!(
        run.result,
        Err(RuntimeError::InvalidOperands(BinOp::Add, Kind::Boolean, Kind::Int))
    );
    let run = run_source("def a = \"a\" + 1");
    assert_eq!(
        run.result,
        Err(RuntimeError::InvalidOperands(BinOp::Add, Kind::String, Kind::Int))
    );
    let run = run_source("def a = \"a\" - \"b\"");
    assert_eq!(
        run.result,
        Err(RuntimeError::InvalidOperands(BinOp::Sub, Kind::String, Kind::String))
    );
}

#[test]
fn floats_are_computed_by_the_host() {
    let run = run_source("def a = 1.5 + 2\ndef b = 3 * 0.5\ndef c = 1.5 < 2\ndef d = 2.0 == 2\ndef e = -1.5\ndef f = 1.50");
    assert_eq!(global(&run, "a"), Literal::Float("3.5".to_string()));
    assert_eq!(global(&run, "b"), Literal::Float("1.5".to_string()));
    assert_eq!(global(&run, "c"), Literal::Boolean(true));
    assert_eq!(global(&run, "d"), Literal::Boolean(true));
    assert_eq!(global(&run, "e"), Literal::Float("-1.5".to_string()));
    assert_eq!(global(&run, "f"), Literal::Float("1.5".to_string()));
}

#[test]
fn a_number_with_two_points_is_no_float() {
    let run = run_source("def a = 1.2.3");
    assert_eq!(run.result, Err(RuntimeError::InvalidFloat("1.2.3".to_string())));
}

#[test]
fn trigonometry_asks_the_host() {
    let run = run_source("def a = cos(0)\ndef b = sin(0.0)");
    assert_eq!(global(&run, "a"), Literal::Float("1".to_string()));
    assert_eq!(global(&run, "b"), Literal::Float("0".to_string()));
    let run = run_source("def a = cos(\"x\")");
    assert_eq!(
        run.result,
        Err(RuntimeError::InvalidArgument(Builtin::Cos, Kind::String))
    );
    let run = run_source("def a = cos()");
    assert_eq!(
        run.result,
        Err(RuntimeError::NotEnoughArguments("cos".to_string(), 1, 0))
    );
}

#[test]
fn parse_int_reads_integers() {
    let run = run_source("def a = parseInt(\"42\")\ndef b = parseInt(\"-7\")\ndef c = parseInt(\"+7\")\ndef d = parseInt(\"-2147483648\")");
    assert_eq!(global(&run, "a"), Literal::Int(42));
    assert_eq!(global(&run, "b"), Literal::Int(-7));
    assert_eq!(global(&run, "c"), Literal::Int(7));
    assert_eq!(global(&run, "d"), Literal::Int(-2147483648));
}

#[test]
fn parse_int_refuses_what_is_no_integer() {
    for text in ["", "-", "+", "12a", "1.5", "2147483648", "-2147483649", " 1"] {
        let run = run_source(&format!("def a = parseInt(\"{}\")", text));
        assert_eq!(run.result, Err(RuntimeError::InvalidInteger(text.to_string())));
    }
    let run = run_source("def a = parseInt(1)");
    assert_eq!(
        run.result,
        Err(RuntimeError::InvalidArgument(Builtin::ParseInt, Kind::Int))
    );
}

#[test]
fn parse_float_asks_the_host() {
    let run = run_source("def a = parseFloat(\"2.50\")");
    assert_eq!(global(&run, "a"), Literal::Float("2.5".to_string()));
    let run = run_source("def a = parseFloat(\"abc\")");
    assert_eq!(run.result, Err(RuntimeError::InvalidFloat("abc".to_string())));
}

#[test]
fn to_string_shows_the_value() {
    let run = run_source("def f(a, b) { return a }\ndef a = toString(12)\ndef b = toString(\"x\")\ndef c = toString([1, [2, true]])\ndef d = toString(f)\ndef e = toString({\"k\": \"v\"})");
    assert_eq!(global(&run, "a"), string("12"));
    assert_eq!(global(&run, "b"), string("\"x\""));
    assert_eq!(global(&run, "c"), string("[1, [2, true]]"));
    assert_eq!(global(&run, "d"), string("<function:f#a,b>"));
    assert_eq!(global(&run, "e"), string("{\"k\": \"v\"}"));
}

#[test]
fn unit_is_shown_as_none() {
    assert_eq!(Literal::Unit.to_string(), "None");
    assert_eq!(Literal::Int(-12).to_string(), "-12");
    assert_eq!(Literal::Int(0).to_string(), "0");
    assert_eq!(Literal::Int(i32::MIN).to_string(), "-2147483648");
    assert_eq!(Literal::List(vec![]).to_string(), "[]");
    assert_eq!(Literal::Dictionnary(vec![]).to_string(), "{}");
}

#[test]
fn random_between_integers_stays_in_range() {
    for _ in 0..50 {
        let run = run_source("def a = random(3, 6)");
        match global(&run, "a") {
            Literal::Int(n) => assert!((3..6).contains(&n)),
            other => panic!("not an integer: {:?}", other),
        }
    }
}

#[test]
fn random_draws_more_than_one_number() {
    let mut seen = std::collections::HashSet::new();
    for _ in 0..200 {
        let run = run_source("def a = random(0, 1000000)");
        if let Literal::Int(n) = global(&run, "a") {
            seen.insert(n);
        }
    }
    assert!(seen.len() > 1);
}

#[test]
fn random_refuses_an_empty_range() {
    let run = run_source("def a = random(5, 5)");
    assert_eq!(run.result, Err(RuntimeError::EmptyRange));
}

#[test]
fn random_with_a_float_asks_the_host() {
    let args = vec![Literal::Int(1), Literal::Float("2.5".to_string())];
    assert_eq!(
        Interpreter::random(&args),
        Ok(Computed::Ask(
            Request::Float(FloatOp::Random, "1".to_string(), "2.5".to_string()),
            flush::interpreting::outcome::Pending::Float
        ))
    );
}

#[test]
fn random_with_hands_out_the_number_given() {
    let args = vec![Literal::Int(1), Literal::Int(10)];
    assert_eq!(
        Interpreter::random_with(&args, 4),
        Ok(Computed::Value(Literal::Int(4)))
    );
}

#[test]
fn same_program_gives_the_same_result_again() {
    let source = "def fib(n) { if (n < 2) { return n } return fib(n - 1) + fib(n - 2) }\ndef a = fib(12)\ndef main() { printLn(a) }";
    let first = run_source(source);
    let second = run_source(source);
    assert_eq!(first.result, second.result);
    assert_eq!(first.output, second.output);
    assert_eq!(global(&first, "a"), Literal::Int(144));
}

#[test]
fn dictionary_keeps_the_later_value_of_a_key() {
    let run = run_source("def d = {\"k\": 1, \"j\": 2, \"k\": 3}");
    assert_eq!(
        global(&run, "d"),
        Literal::Dictionnary(vec![
            ("k".to_string(), Literal::Int(3)),
            ("j".to_string(), Literal::Int(2))
        ])
    );
}

#[test]
fn load_of_the_file_itself_is_skipped() {
    let run = run_source("load \"main.flush\"\ndef a = 1");
    assert_eq!(global(&run, "a"), Literal::Int(1));
}

#[test]
fn load_failure_stops_the_program() {
    let run = run_source("load \"other.flush\"\ndef a = 1");
    assert_eq!(
        run.result,
        Err(RuntimeError::Host("`other.flush` does not exist!".to_string()))
    );
}

#[test]
fn stray_reply_is_refused() {
    let mut machine = Interpreter::new(vec![Statement::Break], "f".to_string(), false);
    assert_eq!(
        machine.step(Reply::Skipped),
        Signal::Failed(RuntimeError::UnexpectedReply)
    );
    assert_eq!(
        machine.step(Reply::Empty),
        Signal::Failed(RuntimeError::UnexpectedReply)
    );
}

#[test]
fn budget_bounds_the_steps_of_one_call() {
    let statements = compile("while (true) { }", &"f".to_string()).unwrap();
    let mut machine = Interpreter::new(statements, "f".to_string(), false);
    assert_eq!(machine.interpret(Reply::Empty, 100), Signal::Running);
    assert_eq!(machine.interpret(Reply::Empty, 100), Signal::Running);
    assert_eq!(
        machine.get_contexts(),
        vec![Context::TopLevel, Context::Loop]
    );
}

#[test]
fn contexts_follow_calls_and_loops() {
    let statements =
        compile("def f() { while (true) { readLine() } }\ndef a = f()", &"f".to_string()).unwrap();
    let mut machine = Interpreter::new(statements, "f".to_string(), false);
    assert_eq!(machine.get_contexts(), vec![Context::TopLevel]);
    assert_eq!(
        machine.interpret(Reply::Empty, 1000),
        Signal::Request(Request::ReadLine)
    );
    assert_eq!(
        machine.get_contexts(),
        vec![Context::TopLevel, Context::Function, Context::Loop]
    );
}

#[test]
fn operators_on_values_are_exact() {
    assert_eq!(value(Interpreter::add(&Literal::Int(2), &Literal::Int(3))), Literal::Int(5));
    assert_eq!(value(Interpreter::sub(&Literal::Int(2), &Literal::Int(3))), Literal::Int(-1));
    assert_eq!(value(Interpreter::mul(&Literal::Int(2), &Literal::Int(3))), Literal::Int(6));
    assert_eq!(value(Interpreter::div(&Literal::Int(7), &Literal::Int(-2), false)), Literal::Int(-3));
    assert_eq!(value(Interpreter::div(&Literal::Int(7), &Literal::Int(-2), true)), Literal::Int(-4));
    assert_eq!(value(Interpreter::modulo(&Literal::Int(7), &Literal::Int(-2))), Literal::Int(1));
    assert_eq!(value(Interpreter::pow(&Literal::Int(-2), &Literal::Int(3))), Literal::Int(-8));
    assert_eq!(value(Interpreter::pow(&Literal::Int(-2), &Literal::Int(31))), Literal::Int(i32::MIN));
    assert_eq!(value(Interpreter::pow(&Literal::Int(5), &Literal::Int(0))), Literal::Int(1));
    assert_eq!(
        Interpreter::div(&Literal::Int(i32::MIN), &Literal::Int(-1), false),
        Err(RuntimeError::Overflow)
    );
    assert_eq!(
        Interpreter::modulo(&Literal::Int(i32::MIN), &Literal::Int(-1)),
        Err(RuntimeError::Overflow)
    );
    assert_eq!(value(Interpreter::lt(&Literal::Int(2), &Literal::Int(3))), Literal::Boolean(true));
    assert_eq!(value(Interpreter::gt(&Literal::Int(2), &Literal::Int(3))), Literal::Boolean(false));
    assert_eq!(value(Interpreter::le(&Literal::Int(3), &Literal::Int(3))), Literal::Boolean(true));
    assert_eq!(value(Interpreter::ge(&Literal::Int(2), &Literal::Int(3))), Literal::Boolean(false));
    assert_eq!(value(Interpreter::eq(&Literal::Int(3), &Literal::Int(3))), Literal::Boolean(true));
    assert_eq!(value(Interpreter::ne(&Literal::Int(3), &Literal::Int(3))), Literal::Boolean(false));
}

#[test]
fn runtime_errors_have_messages() {
    assert_eq!(
        RuntimeError::UndefinedVariable("x".to_string()).to_string(),
        "The variable `x` cannot be found!"
    );
    assert_eq!(
        RuntimeError::NotEnoughArguments("f".to_string(), 2, 1).to_string(),
        "Not enough arguments for `f`, expected `2` given `1`!"
    );
    assert_eq!(
        RuntimeError::IndexOutOfRange(3, 7).to_string(),
        "The list has a length of `3` but the index is `7`!"
    );
    assert_eq!(
        RuntimeError::InvalidOperands(BinOp::Add, Kind::Boolean, Kind::Int).to_string(),
        "Can't apply `+` to Boolean and Int"
    );
    assert_eq!(RuntimeError::DivisionByZero.to_string(), "Division by zero");
}

#[test]
fn return_in_for_loop_unwinds_the_loop() {
    let run = run_source("def f() { for (i in [1, 2]) { return i } return 9 }\ndef a = f()");
    assert_eq!(global(&run, "a"), Literal::Int(1));
}

#[test]
fn return_inside_a_conditional_unwinds_the_loop_around_it() {
    let source = "def f() { def i = 0 while (i < 3) { set i = i + 1 if (i == 2) { return i } } return 100 }\ndef a = f()";
    let run = run_source(source);
    assert_eq!(global(&run, "a"), Literal::Int(2));
}

#[test]
fn return_at_top_level_is_dropped() {
    let run = run_source("return 5\ndef a = 1");
    assert_eq!(global(&run, "a"), Literal::Int(1));
}

#[test]
fn loop_scope_lasts_as_long_as_the_loop() {
    let run = run_source("def i = 0\nwhile (i < 2) { def x = 1 set i = i + 1 }");
    assert_eq!(run.result, Err(RuntimeError::AlreadyDefined("x".to_string())));
    let run = run_source("for (i in [1, 2]) { def x = i }");
    assert_eq!(run.result, Err(RuntimeError::AlreadyDefined("x".to_string())));
    let run = run_source("def i = 0\nwhile (i < 1) { def x = 1 set i = i + 1 }\ndef y = x");
    assert_eq!(run.result, Err(RuntimeError::UndefinedVariable("x".to_string())));
}

#[test]
fn break_reaches_the_innermost_loop_only() {
    let source = "def n = 0\nfor (i in [1, 2]) { for (j in [1, 2, 3]) { if (j == 2) { break } set n = n + 1 } }";
    let run = run_source(source);
    assert_eq!(global(&run, "n"), Literal::Int(4));
}

#[test]
fn break_in_a_function_stops_the_loop_of_its_caller() {
    let source = "def stop() { break }\ndef n = 0\nwhile (true) { set n = n + 1 stop() }";
    let file = "main.flush".to_string();
    let mut statements = compile(source, &file).unwrap();
    let body = statements.split_off(1);
    statements.push(Statement::FuncDef("go".to_string(), vec![], body));
    statements.push(Statement::VarDef(
        "a".to_string(),
        Expr::Call("go".to_string(), vec![]),
    ));
    let mut cache = vec![];
    let (mut machine, _) = run(statements, file, &mut cache, &vec![]);
    let run = drive(&mut machine, &[]);
    assert_eq!(global(&run, "a"), Literal::Unit);
}

#[test]
fn while_with_false_condition_never_runs() {
    let run = run_source("def n = 0\nwhile (false) { set n = 1 }\nwhile (false) { }");
    assert_eq!(global(&run, "n"), Literal::Int(0));
}

#[test]
fn function_value_is_called_under_its_variable() {
    let run = run_source("def f(x) { return x + 1 }\ndef g = f\ndef a = g(1)");
    assert_eq!(global(&run, "a"), Literal::Int(2));
    assert_eq!(global(&run, "g").to_string(), "<function:f#x>");
}

#[test]
fn variable_that_is_no_function_cannot_be_called() {
    let run = run_source("def f = 1\ndef a = f(1)");
    assert_eq!(run.result, Err(RuntimeError::UndefinedFunction("f".to_string())));
}

#[test]
fn strings_are_indexed_by_character() {
    let run = run_source("def s = \"héllo\"\ndef a = s[1]\ndef b = s[4]");
    assert_eq!(global(&run, "a"), string("é"));
    assert_eq!(global(&run, "b"), string("o"));
    let run = run_source("def s = \"héllo\"\ndef a = s[5]");
    assert_eq!(run.result, Err(RuntimeError::IndexOutOfRange(5, 5)));
}

#[test]
fn strings_are_ordered_by_their_number_of_characters() {
    let run = run_source("def a = \"éé\" < \"abc\"\ndef b = \"éé\" == \"ab\"");
    assert_eq!(global(&run, "a"), Literal::Boolean(true));
    assert_eq!(global(&run, "b"), Literal::Boolean(false));
}

#[test]
fn arguments_are_evaluated_in_the_scope_of_the_caller() {
    let run = run_source("def x = 1\ndef f(x, y) { return y }\ndef a = f(10, x)");
    assert_eq!(global(&run, "a"), Literal::Int(1));
}

#[test]
fn redefining_a_function_replaces_it() {
    let run = run_source("def f() { return 1 }\ndef f() { return 2 }\ndef a = f()");
    assert_eq!(global(&run, "a"), Literal::Int(2));
    assert_eq!(run.result.unwrap().len(), 2);
}

#[test]
fn get_var_and_set_var_follow_the_scopes() {
    let mut machine = Interpreter::new(vec![], "f".to_string(), false);
    assert_eq!(
        machine.get_var(&"a".to_string()),
        Err(RuntimeError::UndefinedVariable("a".to_string()))
    );
    assert_eq!(
        machine.set_var("a".to_string(), Literal::Int(1)),
        Err(RuntimeError::UndefinedVariable("a".to_string()))
    );
    assert_eq!(
        machine.eval_statement(Statement::FuncDef("a".to_string(), vec![], vec![])),
        Signal::Running
    );
    assert_eq!(machine.set_var("a".to_string(), Literal::Int(1)), Ok(()));
    assert_eq!(machine.get_var(&"a".to_string()), Ok(Literal::Int(1)));
    assert_eq!(machine.get_stack(), vec![("a".to_string(), Literal::Int(1))]);
}

#[test]
fn get_literal_starts_on_an_expression() {
    let mut machine = Interpreter::new(vec![], "f".to_string(), false);
    assert_eq!(
        machine.get_literal(Expr::Float("1.5".to_string())),
        Signal::Request(Request::Float(FloatOp::Parse, "1.5".to_string(), String::new()))
    );
    assert_eq!(machine.step(Reply::Float("1.5".to_string())), Signal::Running);
    let mut machine = Interpreter::new(vec![], "f".to_string(), false);
    assert_eq!(
        machine.eval_call("nothing".to_string(), vec![]),
        Signal::Failed(RuntimeError::UndefinedFunction("nothing".to_string()))
    );
    assert_eq!(
        machine.interpret(Reply::Empty, 10),
        Signal::Failed(RuntimeError::UndefinedFunction("nothing".to_string()))
    );
}

#[test]
fn host_failure_stops_the_program() {
    let run = run_with_input("def line = readLine()", &[]);
    assert_eq!(run.result, Err(RuntimeError::Host("end of input".to_string())));
}

#[test]
fn powers_of_small_bases_are_found_at_once() {
    let run = run_source("def m = -1\ndef a = 1 ^ 2000000000\ndef b = 0 ^ 2000000000\ndef c = m ^ 2000000001\ndef d = m ^ 2000000000\ndef e = 0 ^ 0");
    assert_eq!(global(&run, "a"), Literal::Int(1));
    assert_eq!(global(&run, "b"), Literal::Int(0));
    assert_eq!(global(&run, "c"), Literal::Int(-1));
    assert_eq!(global(&run, "d"), Literal::Int(1));
    assert_eq!(global(&run, "e"), Literal::Int(1));
}

#[test]
fn integers_shown_are_read_back() {
    for n in [0, 1, -1, 9, 10, 12345, -12345, i32::MAX, i32::MIN] {
        let text = Literal::Int(n).to_string();
        assert_eq!(
            Interpreter::parse_int(&vec![Literal::String(text)]),
            Ok(Computed::Value(Literal::Int(n)))
        );
    }
}

#[test]
fn every_runtime_error_has_its_message() {
    let name = || "x".to_string();
    let cases = vec![
        (RuntimeError::UndefinedVariable(name()), "The variable `x` cannot be found!"),
        (RuntimeError::AlreadyDefined(name()), "The `x` variable already exists!"),
        (RuntimeError::UndefinedFunction(name()), "Undefined function `x`!"),
        (
            RuntimeError::NotEnoughArguments(name(), 12, 0),
            "Not enough arguments for `x`, expected `12` given `0`!",
        ),
        (
            RuntimeError::InvalidOperands(BinOp::FloorDiv, Kind::List, Kind::Unit),
            "Can't apply `//` to List and None",
        ),
        (
            RuntimeError::InvalidArgument(Builtin::PutStrLn, Kind::Float),
            "The `putStrLn` function does not take a Float",
        ),
        (RuntimeError::NotIndexable(Kind::Function), "Could not index Function"),
        (RuntimeError::InvalidIndex(Kind::Dictionnary), "Could not index with Dictionnary"),
        (RuntimeError::NotAList(Kind::String), "Expected a List, found String"),
        (
            RuntimeError::IndexOutOfRange(0, 5),
            "The list has a length of `0` but the index is `5`!",
        ),
        (RuntimeError::NegativeIndex(-3), "The `-3` is not valid as an index!"),
        (RuntimeError::MissingKey(name()), "The key `x` does not exist"),
        (
            RuntimeError::BreakOutsideLoop,
            "The break keyword cannot be used outside a loop!",
        ),
        (
            RuntimeError::ExpressionOutsideFunction,
            "Cannot evaluate expression outside a function!",
        ),
        (
            RuntimeError::ConditionNotBoolean(Kind::Int),
            "An expression must return a boolean, not `Int`",
        ),
        (RuntimeError::InvalidInteger(name()), "Invalid Integer `x`"),
        (RuntimeError::InvalidFloat(name()), "Invalid Float `x`"),
        (RuntimeError::DivisionByZero, "Division by zero"),
        (RuntimeError::Overflow, "Integer overflow"),
        (RuntimeError::NegativeExponent, "Negative exponent"),
        (RuntimeError::NegativeRepeat, "Negative repeat count"),
        (RuntimeError::EmptyRange, "Empty range"),
        (RuntimeError::UnexpectedReply, "Unexpected reply from the host"),
        (RuntimeError::Host("disk full".to_string()), "disk full"),
    ];
    for (error, message) in cases {
        assert_eq!(error.to_string(), message);
    }
}

#[test]
fn built_ins_are_known_by_their_names() {
    let names = [
        "putStr", "putStrLn", "print", "printLn", "flushStdout", "readLine", "cos", "sin", "tan",
        "acos", "asin", "atan", "range", "random", "parseInt", "parseFloat", "toString",
    ];
    for name in names {
        let builtin = flush::interpreting::interpreter::named(&name.to_string()).unwrap();
        assert_eq!(builtin.name(), name);
    }
    assert_eq!(flush::interpreting::interpreter::named(&"main".to_string()), None);
    assert_eq!(flush::interpreting::interpreter::named(&"Print".to_string()), None);
}

#[test]
fn flush_asks_the_host_to_flush() {
    let statements = compile("def f() { flushStdout(1, 2) }\ndef a = f()", &"f".to_string()).unwrap();
    let mut machine = Interpreter::new(statements, "f".to_string(), false);
    assert_eq!(
        machine.interpret(Reply::Empty, 1000),
        Signal::Request(Request::Flush)
    );
    assert_eq!(machine.interpret(Reply::Empty, 1000), Signal::Finished);
    assert_eq!(machine.interpret(Reply::Empty, 1000), Signal::Finished);
}

#[test]
fn a_reply_of_the_wrong_kind_is_refused() {
    let statements = compile("def line = readLine()", &"f".to_string()).unwrap();
    let mut machine = Interpreter::new(statements, "f".to_string(), false);
    assert_eq!(
        machine.interpret(Reply::Empty, 1000),
        Signal::Request(Request::ReadLine)
    );
    assert_eq!(
        machine.interpret(Reply::Float("1".to_string()), 1000),
        Signal::Failed(RuntimeError::UnexpectedReply)
    );
    assert_eq!(machine.get_stack(), vec![]);
}

#[test]
fn comparison_of_floats_follows_the_order_the_host_finds() {
    let orders = [Order::Less, Order::Equal, Order::Greater, Order::Unordered];
    let expected = [
        (BinOp::Lt, [true, false, false, false]),
        (BinOp::Gt, [false, false, true, false]),
        (BinOp::Le, [true, true, false, false]),
        (BinOp::Ge, [false, true, true, false]),
        (BinOp::Eq, [false, true, false, false]),
        (BinOp::Ne, [true, false, true, true]),
    ];
    for (op, answers) in expected {
        for (order, answer) in orders.iter().zip(answers) {
            assert_eq!(decide(op, *order), answer);
        }
    }
}

#[test]
fn nested_calls_as_arguments() {
    let source = "def add(a, b) { return a + b }\ndef twice(x) { return add(x, x) }\ndef a = add(twice(2), add(1, twice(3)))";
    let run = run_source(source);
    assert_eq!(global(&run, "a"), Literal::Int(11));
}

#[test]
fn loops_inside_functions() {
    let source = "def sum(l) { def s = 0 for (x in l) { set s = s + x } return s }\ndef count(n) { def i = 0 while (i < n) { set i = i + 1 } return i }\ndef a = sum(range(0, 101))\ndef b = count(25)";
    let run = run_source(source);
    assert_eq!(global(&run, "a"), Literal::Int(5050));
    assert_eq!(global(&run, "b"), Literal::Int(25));
}

#[test]
fn operand_on_the_right_is_the_whole_rest() {
    let run = run_source("def d = 2\ndef a = d * d <= 5");
    assert_eq!(
        run.result,
        Err(RuntimeError::InvalidOperands(BinOp::Mul, Kind::Int, Kind::Boolean))
    );
    let run = run_source("def d = 2\ndef a = 5 >= d * d");
    assert_eq!(global(&run, "a"), Literal::Boolean(true));
}

#[test]
fn primes_below_thirty() {
    let source = "def is_prime(n) { if (n < 2) { return false } def d = 2 while (d <= n // d) { if (0 == n % d) { return false } set d = d + 1 } return true }\ndef found = \"\"\nfor (n in range(0, 30)) { if (is_prime(n)) { set found = found + toString(n) + \" \" } }";
    let run = run_source(source);
    assert_eq!(global(&run, "found"), string("2 3 5 7 11 13 17 19 23 29 "));
}

#[test]
fn lists_of_lists_and_dictionaries_in_lists() {
    let source = "def grid = [[1, 2], [3, 4]]\ndef row = grid[1]\ndef cell = row[0]\ndef people = [{\"name\": \"a\"}, {\"name\": \"b\"}]\ndef second = people[1]\ndef name = second[\"name\"]";
    let run = run_source(source);
    assert_eq!(global(&run, "cell"), Literal::Int(3));
    assert_eq!(global(&run, "name"), string("b"));
}

#[test]
fn expressions_in_lists_and_dictionaries_are_evaluated_in_order() {
    let source = "def main() { def l = [say(1), say(2)] def d = {\"a\": say(3), \"b\": say(4)} }\ndef say(x) { print(x) return x }";
    let file = "main.flush".to_string();
    let mut statements = compile(source, &file).unwrap();
    statements.reverse();
    let mut cache = vec![];
    let (mut machine, _) = run(statements, file, &mut cache, &vec![]);
    let run = drive(&mut machine, &[]);
    assert!(run.result.is_ok());
    assert_eq!(run.output, "1234");
}

#[test]
fn deep_recursion_needs_no_deep_stack() {
    let source = "def down(n) { if (n == 0) { return 0 } return down(n - 1) }\ndef a = down(20000)";
    let run = run_source(source);
    assert_eq!(global(&run, "a"), Literal::Int(0));
}

#[test]
fn interactive_program_asks_in_turn() {
    let source = "def main() { putStr(\"name? \") def name = readLine() putStrLn(\"hello \" + name) }";
    let run = run_with_input(source, &["flush"]);
    assert!(run.result.is_ok());
    assert_eq!(run.output, "name? hello flush\n");
}

#[test]
fn failure_keeps_what_was_defined_at_top_level() {
    let statements = compile("def a = 1\ndef b = c", &"f".to_string()).unwrap();
    let mut machine = Interpreter::new(statements, "f".to_string(), false);
    assert_eq!(
        machine.interpret(Reply::Empty, 1000),
        Signal::Failed(RuntimeError::UndefinedVariable("c".to_string()))
    );
    assert_eq!(machine.get_stack(), vec![("a".to_string(), Literal::Int(1))]);
    assert_eq!(machine.get_contexts(), vec![Context::TopLevel]);
}
