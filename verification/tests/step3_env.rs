use malrs::builtins::{Event, Request};
use malrs::eval::{Machine, Outcome};
use malrs::printer::pr_str;
use malrs::reader::read_str;
use malrs::types::{EnvId, MalError, MalResult, MalValue};

struct Repl {
    machine: Machine,
    root: EnvId,
    printed: Vec<String>,
}

fn host(request: Request, printed: &mut Vec<String>) -> Event {
    match request {
        Request::Print(text) => {
            printed.push(text);
            Event::Done
        }
        Request::ReadFile(path) => Event::Failed(format!("{} cannot be read here", path)),
        Request::ReadLine(_) => Event::End,
        Request::Clock => Event::Time(1_500_000_000_000),
    }
}

fn eval(ast: &MalValue, env: &mut Repl) -> MalResult {
    let mut outcome = env.machine.eval_form(ast.clone(), env.root, 10_000);
    loop {
        match outcome {
            Outcome::Value(result) => return result,
            Outcome::Ask(request) => {
                let event = host(request, &mut env.printed);
                env.machine.resume(event);
                outcome = env.machine.proceed(10_000);
            }
            Outcome::OutOfFuel => outcome = env.machine.proceed(10_000),
        }
    }
}

fn read(s: &str) -> MalResult {
    read_str(s)
}

fn print(mal_val: &MalValue, env: &Repl) -> String {
    pr_str(mal_val, true, env.machine.atoms())
}

fn rep(s: &str, env: &mut Repl) -> Result<String, MalError> {
    let read_val = read(s)?;
    let eval_val = eval(&read_val, env)?;
    Ok(print(&eval_val, env))
}

fn create_root_env() -> Repl {
    let mut machine = Machine::new();
    let root = machine.create_root_env();

    Repl {
        machine,
        root,
        printed: Vec::new(),
    }
}

#[test]
fn step3_env_test_empty_program() {
    let mut env = create_root_env();
    assert_eq!(rep("", &mut env), Err(MalError::EmptyProgram));
}

#[test]
fn step3_env_test_empty_list() {
    let mut env = create_root_env();
    assert_eq!(rep("()", &mut env), Ok("()".to_string()));
}

#[test]
fn step3_env_test_nested_arithmetic() {
    let mut env = create_root_env();
    assert_eq!(rep("(+ 2 (* 3 4))", &mut env), Ok("14".to_string()));
}

#[test]
fn step3_env_test_special_form_def() {
    let mut env = create_root_env();
    assert_eq!(
        rep("(def! str1 \"abc\")", &mut env),
        Ok("\"abc\"".to_string())
    );
    assert_eq!(rep("str1", &mut env), Ok("\"abc\"".to_string()));
}

#[test]
fn step3_env_test_special_form_def_evaluates_2nd_par() {
    let mut env = create_root_env();
    assert_eq!(rep("(def! x (- 5 3))", &mut env), Ok("2".to_string()));
    assert_eq!(rep("x", &mut env), Ok("2".to_string()));
}

#[test]
fn step3_env_test_special_form_def_symbol_to_symbol() {
    let mut env = create_root_env();
    assert_eq!(rep("(def! x 1)", &mut env), Ok("1".to_string()));
    assert_eq!(rep("(def! y x)", &mut env), Ok("1".to_string()));
    assert_eq!(rep("x", &mut env), Ok("1".to_string()));
    assert_eq!(rep("y", &mut env), Ok("1".to_string()));
}

#[test]
fn step3_env_test_special_form_let() {
    let mut env = create_root_env();
    assert_eq!(rep("(let* (c 2) (+ 3 c))", &mut env), Ok("5".to_string()));
}

#[test]
fn step3_env_test_special_form_let_multiple_bindings() {
    let mut env = create_root_env();
    assert_eq!(rep("(let* (a 2 b (+ a a) c (- b a)) (+ (* a b) c))", &mut env), Ok("10".to_string()));
}
