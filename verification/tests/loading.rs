use flush::flush::{cached, compile, loads, process_file_path, run, without_cycles};
use flush::interpreting::interpreter::Interpreter;
use flush::interpreting::outcome::{Reply, Request, RuntimeError, Signal};
use flush::interpreting::typing::Literal;
use flush::parsing::typing::{Expr, Statement};
use std::collections::HashMap;

struct Disk {
    files: HashMap<String, String>,
    warnings: Vec<(String, String)>,
    output: String,
}

fn disk(files: &[(&str, &str)]) -> Disk {
    Disk {
        files: files
            .iter()
            .map(|(path, text)| (path.to_string(), text.to_string()))
            .collect(),
        warnings: vec![],
        output: String::new(),
    }
}

fn resolve(disk: &Disk, raw: &str) -> Result<String, String> {
    let exists = disk.files.contains_key(raw);
    process_file_path(raw, exists, exists, format!("/abs/{}", raw)).map(|p| {
        p.strip_prefix("/abs/").unwrap().to_string()
    })
}

fn drive(
    machine: &mut Interpreter,
    disk: &mut Disk,
    cache: &mut Vec<String>,
) -> Result<(), String> {
    let mut reply = Reply::Empty;
    loop {
        reply = match machine.interpret(reply, 10_000) {
            Signal::Running => Reply::Empty,
            Signal::Finished => return Ok(()),
            Signal::Failed(error) => return Err(error.to_string()),
            Signal::Request(Request::Write(text)) => {
                disk.output.push_str(&text);
                Reply::Empty
            }
            Signal::Request(Request::Load(path)) => match run_file(disk, &path, cache) {
                Ok(Some(stack)) => Reply::Bindings(stack),
                Ok(None) => Reply::Skipped,
                Err(e) => Reply::Failed(e),
            },
            Signal::Request(other) => panic!("unexpected request: {:?}", other),
        }
    }
}

fn run_file(
    disk: &mut Disk,
    raw: &str,
    cache: &mut Vec<String>,
) -> Result<Option<Vec<(String, Literal)>>, String> {
    let path = resolve(disk, raw)?;
    if cached(cache, &path) {
        return Ok(None);
    }
    let text = disk.files[&path].clone();
    let statements = compile(&text, &path).map_err(|e| e.to_string())?;
    let mut resolved = vec![];
    for raw in loads(&statements) {
        resolved.push(resolve(disk, &raw)?);
    }
    let (mut machine, cycles) = run(statements, path.clone(), cache, &resolved);
    for target in cycles {
        disk.warnings.push((path.clone(), target));
    }
    drive(&mut machine, disk, cache)?;
    Ok(Some(machine.get_stack()))
}

fn names(stack: &[(String, Literal)]) -> Vec<&str> {
    stack.iter().map(|(k, _)| k.as_str()).collect()
}

#[test]
fn paths_are_checked() {
    assert_eq!(
        process_file_path("a.flush", false, false, String::new()),
        Err("`a.flush` does not exist!".to_string())
    );
    assert_eq!(
        process_file_path("dir", true, false, String::new()),
        Err("`dir` is not a file!".to_string())
    );
    assert_eq!(
        process_file_path("a.flush", true, true, "/home/a.flush".to_string()),
        Ok("/home/a.flush".to_string())
    );
}

#[test]
fn cache_knows_what_was_loaded() {
    let cache = vec!["/a".to_string(), "/b".to_string()];
    assert!(cached(&cache, &"/a".to_string()));
    assert!(cached(&cache, &"/b".to_string()));
    assert!(!cached(&cache, &"/c".to_string()));
    assert!(!cached(&vec![], &"/a".to_string()));
}

#[test]
fn loads_are_listed_in_order() {
    let statements = compile(
        "load \"a\"\ndef x = 1\nload \"b\"\ndef f() { load \"inner\" }",
        &"main".to_string(),
    )
    .unwrap();
    assert_eq!(loads(&statements), vec!["a".to_string(), "b".to_string()]);
}

#[test]
fn circular_loads_are_left_out() {
    let statements = vec![
        Statement::Load("self".to_string()),
        Statement::Break,
        Statement::Load("seen".to_string()),
        Statement::Load("new".to_string()),
    ];
    let resolved = vec!["/me".to_string(), "/seen".to_string(), "/new".to_string()];
    let cache = vec!["/root".to_string(), "/seen".to_string()];
    let (kept, dropped) = without_cycles(statements, &resolved, &"/me".to_string(), &cache);
    assert_eq!(
        kept,
        vec![Statement::Break, Statement::Load("new".to_string())]
    );
    assert_eq!(dropped, vec!["/me".to_string(), "/seen".to_string()]);
}

#[test]
fn run_enters_the_file_in_the_cache() {
    let mut cache = vec![];
    let (_, dropped) = run(
        vec![Statement::VarDef("a".to_string(), Expr::Int(1))],
        "/main".to_string(),
        &mut cache,
        &vec![],
    );
    assert_eq!(cache, vec!["/main".to_string()]);
    assert!(dropped.is_empty());
}

#[test]
fn loaded_bindings_are_merged() {
    let mut disk = disk(&[
        ("main", "load \"lib\"\ndef b = a + twice(2)"),
        ("lib", "def a = 1\ndef twice(x) { return x * 2 }"),
    ]);
    let mut cache = vec![];
    let stack = run_file(&mut disk, "main", &mut cache).unwrap().unwrap();
    assert_eq!(names(&stack), vec!["a", "twice", "b"]);
    assert_eq!(stack[2].1, Literal::Int(5));
    assert_eq!(cache, vec!["main".to_string(), "lib".to_string()]);
}

#[test]
fn only_the_entry_file_calls_main() {
    let mut disk = disk(&[
        ("main", "load \"lib\"\ndef main() { putStr(\"entry\") }"),
        ("lib", "def main() { putStr(\"library\") }"),
    ]);
    let mut cache = vec![];
    run_file(&mut disk, "main", &mut cache).unwrap();
    assert_eq!(disk.output, "entry");
}

#[test]
fn cyclic_load_is_skipped_with_a_warning() {
    let mut disk = disk(&[
        ("a", "def x = 1\nload \"b\"\ndef z = y + x"),
        ("b", "load \"a\"\ndef y = 2"),
    ]);
    let mut cache = vec![];
    let stack = run_file(&mut disk, "a", &mut cache).unwrap().unwrap();
    assert_eq!(names(&stack), vec!["x", "y", "z"]);
    assert_eq!(stack[0].1, Literal::Int(1));
    assert_eq!(stack[2].1, Literal::Int(3));
    assert_eq!(disk.warnings, vec![("b".to_string(), "a".to_string())]);
    assert_eq!(cache, vec!["a".to_string(), "b".to_string()]);
}

#[test]
fn file_loaded_twice_runs_once() {
    let mut disk = disk(&[
        ("main", "load \"lib\"\ndef f() { load \"lib\" return 1 }\ndef a = f()"),
        ("lib", "def main() { }\ndef counted = 1"),
    ]);
    let mut cache = vec![];
    let stack = run_file(&mut disk, "main", &mut cache).unwrap().unwrap();
    assert_eq!(names(&stack), vec!["main", "counted", "f", "a"]);
    assert_eq!(cache.len(), 2);
}

#[test]
fn load_inside_a_function_goes_to_its_scope() {
    let mut disk = disk(&[
        ("main", "def f() { load \"lib\" return a }\ndef b = f()"),
        ("lib", "def a = 7"),
    ]);
    let mut cache = vec![];
    let stack = run_file(&mut disk, "main", &mut cache).unwrap().unwrap();
    assert_eq!(names(&stack), vec!["f", "b"]);
    assert_eq!(stack[1].1, Literal::Int(7));
}

#[test]
fn missing_file_fails_the_run() {
    let mut disk = disk(&[("main", "def a = 1\nload \"nowhere\"")]);
    let mut cache = vec![];
    assert_eq!(
        run_file(&mut disk, "main", &mut cache),
        Err("`nowhere` does not exist!".to_string())
    );
}

#[test]
fn missing_file_inside_a_function_fails_when_it_is_loaded() {
    let mut disk = disk(&[("main", "def f() { load \"nowhere\" }\ndef a = f()")]);
    let mut cache = vec![];
    assert_eq!(
        run_file(&mut disk, "main", &mut cache),
        Err(RuntimeError::Host("`nowhere` does not exist!".to_string()).to_string())
    );
}

#[test]
fn errors_of_a_loaded_file_are_handed_up() {
    let mut disk = disk(&[("main", "load \"lib\""), ("lib", "def a = \"open")]);
    let mut cache = vec![];
    assert_eq!(
        run_file(&mut disk, "main", &mut cache),
        Err("=> lib:1\nerror: Unterminated string".to_string())
    );
}
