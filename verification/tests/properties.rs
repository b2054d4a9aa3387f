use malrs::builtins::{Event, Request};
use malrs::eval::{Machine, Outcome};
use malrs::printer::pr_str;
use malrs::reader::read_str;
use malrs::types::{EnvId, MalError, MalResult, MalValue};

struct Repl {
    machine: Machine,
    root: EnvId,
    printed: Vec<String>,
}

fn host(request: Request, printed: &mut Vec<String>) -> Event {
    match request {
        Request::Print(text) => {
            printed.push(text);
            Event::Done
        }
        Request::ReadFile(path) => {
            if path == "hello.mal" {
                Event::Text("(+ 1 2)".to_string())
            } else {
                Event::Failed(format!("{} cannot be read here", path))
            }
        }
        Request::ReadLine(prompt) => {
            if prompt == "name> " {
                Event::Text("Ada\n".to_string())
            } else {
                Event::End
            }
        }
        Request::Clock => Event::Time(1_500_000_000_000),
    }
}

fn eval(ast: &MalValue, env: &mut Repl) -> MalResult {
    let mut outcome = env.machine.eval_form(ast.clone(), env.root, 10_000);
    loop {
        match outcome {
            Outcome::Value(result) => return result,
            Outcome::Ask(request) => {
                let event = host(request, &mut env.printed);
                env.machine.resume(event);
                outcome = env.machine.proceed(10_000);
            }
            Outcome::OutOfFuel => outcome = env.machine.proceed(10_000),
        }
    }
}

fn rep(s: &str, env: &mut Repl) -> Result<String, MalError> {
    let read_val = read_str(s)?;
    let eval_val = eval(&read_val, env)?;
    Ok(pr_str(&eval_val, true, env.machine.atoms()))
}

fn create_root_env() -> Repl {
    let mut machine = Machine::new();
    let root = machine.create_root_env();

    let mut env = Repl {
        machine,
        root,
        printed: Vec::new(),
    };
    rep("(def! not (fn* (a) (if a false true)))", &mut env).unwrap();
    env
}

fn ok(s: &str) -> Result<String, MalError> {
    Ok(s.to_string())
}

fn native(message: &str) -> Result<String, MalError> {
    Err(MalError::RustFunction(message.to_string()))
}

fn special(message: &str) -> Result<String, MalError> {
    Err(MalError::SpecialForm(message.to_string()))
}

#[test]
fn self_evaluating_values_are_their_own_value() {
    let mut env = create_root_env();
    assert_eq!(rep("nil", &mut env), ok("nil"));
    assert_eq!(rep("true", &mut env), ok("true"));
    assert_eq!(rep("false", &mut env), ok("false"));
    assert_eq!(rep("42", &mut env), ok("42"));
    assert_eq!(rep("-0.5", &mut env), ok("-0.5"));
    assert_eq!(rep("\"text\"", &mut env), ok("\"text\""));
    assert_eq!(rep(":key", &mut env), ok(":key"));
}

#[test]
fn self_evaluating_value_takes_two_steps_and_changes_nothing() {
    let mut machine = Machine::new();
    let root = machine.new_env();
    let scopes = machine.envs().len();
    let cells = machine.atoms().len();
    let value = read_str("\"unchanged\"").unwrap();
    match machine.eval_form(value.clone(), root, 2) {
        Outcome::Value(result) => assert_eq!(result, Ok(value)),
        other => panic!("expected a value, got {:?}", other),
    }
    assert_eq!(machine.envs().len(), scopes);
    assert_eq!(machine.atoms().len(), cells);
}

#[test]
fn functions_and_cells_are_their_own_value() {
    let mut env = create_root_env();
    let root = env.root;
    let plus = env.machine.get(root, "+").unwrap();
    assert_eq!(eval(&plus, &mut env), Ok(plus.clone()));
    let closure = eval(&read_str("(fn* (a) a)").unwrap(), &mut env).unwrap();
    assert_eq!(eval(&closure, &mut env), Ok(closure.clone()));
    let cell = eval(&read_str("(atom 1)").unwrap(), &mut env).unwrap();
    let again = eval(&cell, &mut env).unwrap();
    assert!(again.is_atom());
    assert_eq!(pr_str(&again, true, env.machine.atoms()), "(atom 1)");
}

#[test]
fn empty_list_is_its_own_value() {
    let mut env = create_root_env();
    let empty = read_str("()").unwrap();
    assert_eq!(eval(&empty, &mut env), Ok(empty.clone()));
    assert_eq!(rep("()", &mut env), ok("()"));
}

#[test]
fn equality_is_symmetric_and_crosses_lists_and_vectors() {
    let mut env = create_root_env();
    assert_eq!(rep("(= (list 1 2) [1 2])", &mut env), ok("true"));
    assert_eq!(rep("(= [1 2] (list 1 2))", &mut env), ok("true"));
    assert_eq!(rep("(= (list 1 2) [1 3])", &mut env), ok("false"));
    assert_eq!(rep("(= [1 3] (list 1 2))", &mut env), ok("false"));
    assert_eq!(rep("(= (list 1 2) [1 2 3])", &mut env), ok("false"));
    assert_eq!(rep("(= {:a [1 2]} {:a (list 1 2)})", &mut env), ok("true"));
    assert_eq!(rep("(= {:a 1 :b 2} {:b 2 :a 1})", &mut env), ok("true"));
    assert_eq!(rep("(= {:a 1} {:a 1 :b 2})", &mut env), ok("false"));
    assert_eq!(rep("(= {:a 1 :b 2} {:a 1})", &mut env), ok("false"));
    assert_eq!(rep("(= {:a 1} {:b 1})", &mut env), ok("false"));
    assert_eq!(rep("(= \"a\" :a)", &mut env), ok("false"));
    assert_eq!(rep("(= 'a 'a)", &mut env), Err(MalError::UndefinedSymbol("quote".to_string())));
}

#[test]
fn cells_are_equal_to_nothing() {
    let mut env = create_root_env();
    rep("(def! a (atom 5))", &mut env).unwrap();
    assert_eq!(rep("(= a a)", &mut env), ok("false"));
    assert_eq!(rep("(= (atom 5) (atom 5))", &mut env), ok("false"));
    assert_eq!(rep("(= a 5)", &mut env), ok("false"));
}

#[test]
fn let_bindings_see_earlier_bindings() {
    let mut env = create_root_env();
    assert_eq!(rep("(let* (a 2 b (+ a a)) (+ a b))", &mut env), ok("6"));
    assert_eq!(rep("a", &mut env), Err(MalError::UndefinedSymbol("a".to_string())));
}

#[test]
fn closures_see_the_environment_they_were_made_in() {
    let mut env = create_root_env();
    assert_eq!(rep("(def! x 1)", &mut env), ok("1"));
    assert_eq!(rep("(def! f (fn* () x))", &mut env), ok("#<function>"));
    assert_eq!(rep("(let* (x 2) (f))", &mut env), ok("1"));
    assert_eq!(rep("(def! make-adder (fn* (n) (fn* (m) (+ n m))))", &mut env), ok("#<function>"));
    assert_eq!(rep("((make-adder 3) 4)", &mut env), ok("7"));
    assert_eq!(rep("(def! x 10)", &mut env), ok("10"));
    assert_eq!(rep("(f)", &mut env), ok("10"));
}

#[test]
fn arity_mismatch_is_an_error() {
    let mut env = create_root_env();
    assert_eq!(
        rep("((fn* (a b) a) 1)", &mut env),
        Err(MalError::Evaluation("Expected 2 arguments, got 1".to_string()))
    );
    assert_eq!(
        rep("((fn* () 1) 1 2 3)", &mut env),
        Err(MalError::Evaluation("Expected 0 arguments, got 3".to_string()))
    );
    assert_eq!(rep("((fn* (a b) a) 1 2)", &mut env), ok("1"));
    assert_eq!(rep("(+ 1 1)", &mut env), ok("2"));
}

#[test]
fn only_nil_and_false_are_falsy() {
    let mut env = create_root_env();
    assert_eq!(rep("(if 0 :a :b)", &mut env), ok(":a"));
    assert_eq!(rep("(if \"\" :a :b)", &mut env), ok(":a"));
    assert_eq!(rep("(if () :a :b)", &mut env), ok(":a"));
    assert_eq!(rep("(if [] :a :b)", &mut env), ok(":a"));
    assert_eq!(rep("(if {} :a :b)", &mut env), ok(":a"));
    assert_eq!(rep("(if :false :a :b)", &mut env), ok(":a"));
    assert_eq!(rep("(if nil :a :b)", &mut env), ok(":b"));
    assert_eq!(rep("(if false :a :b)", &mut env), ok(":b"));
    assert_eq!(rep("(if nil :a)", &mut env), ok("nil"));
}

#[test]
fn swap_stores_and_returns_the_new_value() {
    let mut env = create_root_env();
    assert_eq!(rep("(def! a (atom 5))", &mut env), ok("(atom 5)"));
    assert_eq!(rep("(swap! a + 3)", &mut env), ok("8"));
    assert_eq!(rep("(deref a)", &mut env), ok("8"));
    assert_eq!(rep("(swap! a (fn* (x y z) (* x (+ y z))) 1 2)", &mut env), ok("24"));
    assert_eq!(rep("(deref a)", &mut env), ok("24"));
    assert_eq!(rep("@a", &mut env), ok("24"));
}

#[test]
fn assoc_then_dissoc_restores_the_keys() {
    let mut env = create_root_env();
    rep("(def! m {:a 1 \"b\" 2})", &mut env).unwrap();
    assert_eq!(rep("(keys (dissoc (assoc m :c 3) :c))", &mut env), ok("(:a \"b\")"));
    assert_eq!(rep("(= m (dissoc (assoc m :c 3) :c))", &mut env), ok("true"));
    assert_eq!(rep("(keys (assoc m :c 3))", &mut env), ok("(:a \"b\" :c)"));
    assert_eq!(rep("(keys m)", &mut env), ok("(:a \"b\")"));
}

#[test]
fn assoc_then_dissoc_of_a_key_that_was_there_removes_it() {
    let mut env = create_root_env();
    rep("(def! m {:a 1})", &mut env).unwrap();
    assert_eq!(rep("(keys (dissoc (assoc m :a 2) :a))", &mut env), ok("()"));
}

#[test]
fn get_of_a_missing_key_is_nil() {
    let mut env = create_root_env();
    assert_eq!(rep("(get {:a 1} :b)", &mut env), ok("nil"));
    assert_eq!(rep("(get {:a 1} \"a\")", &mut env), ok("nil"));
    assert_eq!(rep("(get {:a 1} 7)", &mut env), ok("nil"));
    assert_eq!(rep("(get {} :a)", &mut env), ok("nil"));
    assert_eq!(rep("(get nil :a)", &mut env), ok("nil"));
    assert_eq!(rep("(get {:a 1} :a)", &mut env), ok("1"));
}

#[test]
fn reading_and_printing_are_inverse_on_canonical_text() {
    let atoms = malrs::atoms::Atoms::new();
    for text in [
        "(1 2 3)",
        "{:a 1}",
        "[1 [2 (3 4)] {\"k\" :v}]",
        "nil",
        "true",
        "false",
        "-12.5",
        "0.1",
        "1234567890",
        "\"a \\\"quoted\\\" \\\\ line\\nbreak\"",
        "(quote (a b))",
        "()",
        "[]",
        "{}",
        "sym-bol?",
        ":kw",
        "(fn* (a) (+ a 1))",
    ] {
        let value = read_str(text).unwrap();
        assert_eq!(pr_str(&value, true, &atoms), text);
    }
}

#[test]
fn more_fuel_changes_no_result() {
    let form = read_str("(+ 1 (* 2 (- 7 4)))").unwrap();
    let mut results = Vec::new();
    for fuel in [40usize, 41, 100, 10_000] {
        let mut env = create_root_env();
        match env.machine.eval_form(form.clone(), env.root, fuel) {
            Outcome::Value(result) => results.push(result),
            other => panic!("expected a value within {} steps, got {:?}", fuel, other),
        }
    }
    for result in &results {
        assert_eq!(result, &results[0]);
    }
    assert_eq!(pr_str(results[0].as_ref().unwrap(), true, &malrs::atoms::Atoms::new()), "7");
}
