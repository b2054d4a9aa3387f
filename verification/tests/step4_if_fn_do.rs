use malrs::builtins::{Event, Request};
use malrs::eval::{Machine, Outcome};
use malrs::printer::pr_str;
use malrs::reader::read_str;
use malrs::types::{EnvId, MalError, MalResult, MalValue};

struct Repl {
    machine: Machine,
    root: EnvId,
    printed: Vec<String>,
}

fn host(request: Request, printed: &mut Vec<String>) -> Event {
    match request {
        Request::Print(text) => {
            printed.push(text);
            Event::Done
        }
        Request::ReadFile(path) => Event::Failed(format!("{} cannot be read here", path)),
        Request::ReadLine(_) => Event::End,
        Request::Clock => Event::Time(1_500_000_000_000),
    }
}

fn eval(ast: &MalValue, env: &mut Repl) -> MalResult {
    let mut outcome = env.machine.eval_form(ast.clone(), env.root, 10_000);
    loop {
        match outcome {
            Outcome::Value(result) => return result,
            Outcome::Ask(request) => {
                let event = host(request, &mut env.printed);
                env.machine.resume(event);
                outcome = env.machine.proceed(10_000);
            }
            Outcome::OutOfFuel => outcome = env.machine.proceed(10_000),
        }
    }
}

fn read(s: &str) -> MalResult {
    read_str(s)
}

fn print(mal_val: &MalValue, env: &Repl) -> String {
    pr_str(mal_val, true, env.machine.atoms())
}

fn rep(s: &str, env: &mut Repl) -> Result<String, MalError> {
    let read_val = read(s)?;
    let eval_val = eval(&read_val, env)?;
    Ok(print(&eval_val, env))
}

fn create_root_env() -> Repl {
    let mut machine = Machine::new();
    let root = machine.create_root_env();

    let mut env = Repl {
        machine,
        root,
        printed: Vec::new(),
    };
    rep("(def! not (fn* (a) (if a false true)))", &mut env).unwrap();
    env
}

#[test]
fn step4_if_fn_do_test_empty_program() {
    let mut env = create_root_env();
    assert_eq!(rep("", &mut env), Err(MalError::EmptyProgram));
}

#[test]
fn step4_if_fn_do_test_empty_list() {
    let mut env = create_root_env();
    assert_eq!(rep("()", &mut env), Ok("()".to_string()));
}

#[test]
fn test_empty_vector() {
    let mut env = create_root_env();
    assert_eq!(rep("[]", &mut env), Ok("[]".to_string()));
}

#[test]
fn test_empty_map() {
    let mut env = create_root_env();
    assert_eq!(rep("{}", &mut env), Ok("{}".to_string()));
}

#[test]
fn step4_if_fn_do_test_nested_arithmetic() {
    let mut env = create_root_env();
    assert_eq!(rep("(+ 2 (* 3 4))", &mut env), Ok("14".to_string()));
}

#[test]
fn test_vector_eval() {
    let mut env = create_root_env();
    assert_eq!(rep("[1 2 (+ 1 2)]", &mut env), Ok("[1 2 3]".to_string()));
}

#[test]
fn test_map_eval() {
    let mut env = create_root_env();
    assert_eq!(
        rep("{:a {:b (* 3 2)}}", &mut env),
        Ok("{:a {:b 6}}".to_string())
    );
}

#[test]
fn step4_if_fn_do_test_special_form_def() {
    let mut env = create_root_env();
    assert_eq!(
        rep("(def! str1 \"abc\")", &mut env),
        Ok("\"abc\"".to_string())
    );
    assert_eq!(rep("str1", &mut env), Ok("\"abc\"".to_string()));
}

#[test]
fn step4_if_fn_do_test_special_form_def_evaluates_2nd_par() {
    let mut env = create_root_env();
    assert_eq!(rep("(def! x (- 5 3))", &mut env), Ok("2".to_string()));
    assert_eq!(rep("x", &mut env), Ok("2".to_string()));
}

#[test]
fn step4_if_fn_do_test_special_form_def_symbol_to_symbol() {
    let mut env = create_root_env();
    assert_eq!(rep("(def! x 1)", &mut env), Ok("1".to_string()));
    assert_eq!(rep("(def! y x)", &mut env), Ok("1".to_string()));
    assert_eq!(rep("x", &mut env), Ok("1".to_string()));
    assert_eq!(rep("y", &mut env), Ok("1".to_string()));
}

#[test]
fn step4_if_fn_do_test_special_form_let() {
    let mut env = create_root_env();
    assert_eq!(rep("(let* (c 2) (+ 3 c))", &mut env), Ok("5".to_string()));
}

#[test]
fn step4_if_fn_do_test_special_form_let_multiple_bindings() {
    let mut env = create_root_env();
    assert_eq!(
        rep("(let* (a 2 b (+ a a) c (- b a)) (+ (* a b) c))", &mut env),
        Ok("10".to_string())
    );
}

#[test]
fn test_special_form_let_empty_bindings() {
    let mut env = create_root_env();
    assert_eq!(rep("(let* () 123)", &mut env), Ok("123".to_string()));
}

#[test]
fn test_special_form_let_vector_bindings() {
    let mut env = create_root_env();
    assert_eq!(
        rep("(let* [a 2 b (+ a 1)] [a b (+ a b)])", &mut env),
        Ok("[2 3 5]".to_string())
    );
}

#[test]
fn test_special_form_fn() {
    let mut env = create_root_env();
    assert_eq!(
        rep("(fn* [a b] (+ a b))", &mut env),
        Ok("#<function>".to_string())
    );
}

#[test]
fn test_special_form_fn_eval() {
    let mut env = create_root_env();
    assert_eq!(
        rep("((fn* [a b] (+ a b)) 2 3)", &mut env),
        Ok("5".to_string())
    );
}

#[test]
fn test_special_form_do() {
    let mut env = create_root_env();
    assert_eq!(rep("(do 1 :s2 3 :s4)", &mut env), Ok(":s4".to_string()));
}

#[test]
fn test_special_form_do_empty() {
    let mut env = create_root_env();
    assert_eq!(rep("(do)", &mut env), Ok("nil".to_string()));
}

#[test]
fn test_special_form_if() {
    let mut env = create_root_env();
    assert_eq!(rep("(if true 1 2)", &mut env), Ok("1".to_string()));
    assert_eq!(rep("(if true 2)", &mut env), Ok("2".to_string()));
    assert_eq!(rep("(if false 1 2)", &mut env), Ok("2".to_string()));
    assert_eq!(rep("(if nil :a :b)", &mut env), Ok(":b".to_string()));
    assert_eq!(rep("(if false :a)", &mut env), Ok("nil".to_string()));
}
