use malrs::builtins::{ns, Event, Request};
use malrs::eval::{Machine, Outcome};
use malrs::printer::pr_str;
use malrs::reader::read_str;
use malrs::types::{EnvId, MalError, MalResult, MalValue};

struct Repl {
    machine: Machine,
    root: EnvId,
    printed: Vec<String>,
}

fn host(request: Request, printed: &mut Vec<String>) -> Event {
    match request {
        Request::Print(text) => {
            printed.push(text);
            Event::Done
        }
        Request::ReadFile(path) => {
            if path == "hello.mal" {
                Event::Text("(+ 1 2)".to_string())
            } else {
                Event::Failed(format!("{} cannot be read here", path))
            }
        }
        Request::ReadLine(prompt) => {
            if prompt == "name> " {
                Event::Text("Ada\n".to_string())
            } else {
                Event::End
            }
        }
        Request::Clock => Event::Time(1_500_000_000_000),
    }
}

fn eval(ast: &MalValue, env: &mut Repl) -> MalResult {
    let mut outcome = env.machine.eval_form(ast.clone(), env.root, 10_000);
    loop {
        match outcome {
            Outcome::Value(result) => return result,
            Outcome::Ask(request) => {
                let event = host(request, &mut env.printed);
                env.machine.resume(event);
                outcome = env.machine.proceed(10_000);
            }
            Outcome::OutOfFuel => outcome = env.machine.proceed(10_000),
        }
    }
}

fn rep(s: &str, env: &mut Repl) -> Result<String, MalError> {
    let read_val = read_str(s)?;
    let eval_val = eval(&read_val, env)?;
    Ok(pr_str(&eval_val, true, env.machine.atoms()))
}

fn create_root_env() -> Repl {
    let mut machine = Machine::new();
    let root = machine.create_root_env();

    let mut env = Repl {
        machine,
        root,
        printed: Vec::new(),
    };
    rep("(def! not (fn* (a) (if a false true)))", &mut env).unwrap();
    env
}

fn ok(s: &str) -> Result<String, MalError> {
    Ok(s.to_string())
}

fn native(message: &str) -> Result<String, MalError> {
    Err(MalError::RustFunction(message.to_string()))
}

fn special(message: &str) -> Result<String, MalError> {
    Err(MalError::SpecialForm(message.to_string()))
}

#[test]
fn arithmetic_on_two_numbers() {
    let mut env = create_root_env();
    assert_eq!(rep("(+ 1 2)", &mut env), ok("3"));
    assert_eq!(rep("(- 1 2)", &mut env), ok("-1"));
    assert_eq!(rep("(* 3 4)", &mut env), ok("12"));
    assert_eq!(rep("(/ 9 2)", &mut env), ok("4.5"));
    assert_eq!(rep("(/ 1 3)", &mut env), ok("0.3333333333333333"));
    assert_eq!(rep("(+ 0.1 0.2)", &mut env), ok("0.30000000000000004"));
    assert_eq!(rep("(* 100 100)", &mut env), ok("10000"));
    assert_eq!(rep("(/ 1 0)", &mut env), ok("+Inf"));
    assert_eq!(rep("(/ -1 0)", &mut env), ok("-Inf"));
    assert_eq!(rep("(/ 0 0)", &mut env), ok("NaN"));
}

#[test]
fn arithmetic_checks_count_and_types() {
    let mut env = create_root_env();
    assert_eq!(rep("(+ 1)", &mut env), native("Expected 2 arguments, got 1"));
    assert_eq!(rep("(+ 1 2 3)", &mut env), native("Expected 2 arguments, got 3"));
    assert_eq!(rep("(+)", &mut env), native("Expected 2 arguments, got 0"));
    assert_eq!(rep("(+ \"1\" 2)", &mut env), native("Argument must be a number"));
    assert_eq!(rep("(* 1 nil)", &mut env), native("Argument must be a number"));
}

#[test]
fn comparisons_of_numbers() {
    let mut env = create_root_env();
    assert_eq!(rep("(< 1 2)", &mut env), ok("true"));
    assert_eq!(rep("(< 2 1)", &mut env), ok("false"));
    assert_eq!(rep("(< 1 1)", &mut env), ok("false"));
    assert_eq!(rep("(<= 1 1)", &mut env), ok("true"));
    assert_eq!(rep("(<= 2 1)", &mut env), ok("false"));
    assert_eq!(rep("(> 2 1)", &mut env), ok("true"));
    assert_eq!(rep("(> 1 2)", &mut env), ok("false"));
    assert_eq!(rep("(>= 1 1)", &mut env), ok("true"));
    assert_eq!(rep("(>= 1 2)", &mut env), ok("false"));
    assert_eq!(rep("(< -1 0)", &mut env), ok("true"));
    assert_eq!(rep("(< -2 -1)", &mut env), ok("true"));
    assert_eq!(rep("(< (/ 0 0) 1)", &mut env), ok("false"));
    assert_eq!(rep("(>= (/ 0 0) (/ 0 0))", &mut env), ok("false"));
    assert_eq!(rep("(= (/ 0 0) (/ 0 0))", &mut env), ok("false"));
    assert_eq!(rep("(= 0 -0)", &mut env), ok("true"));
    assert_eq!(rep("(< 1 :a)", &mut env), native("Argument must be a number"));
    assert_eq!(rep("(< 1)", &mut env), native("Expected 2 arguments, got 1"));
}

#[test]
fn list_builders() {
    let mut env = create_root_env();
    assert_eq!(rep("(list)", &mut env), ok("()"));
    assert_eq!(rep("(list 1 (+ 1 1) \"a\")", &mut env), ok("(1 2 \"a\")"));
    assert_eq!(rep("(vector)", &mut env), ok("[]"));
    assert_eq!(rep("(vector 1 2)", &mut env), ok("[1 2]"));
    assert_eq!(rep("(cons 1 (list 2 3))", &mut env), ok("(1 2 3)"));
    assert_eq!(rep("(cons 1 [2 3])", &mut env), ok("(1 2 3)"));
    assert_eq!(rep("(cons [1] ())", &mut env), ok("([1])"));
    assert_eq!(rep("(cons 1 2)", &mut env), native("Invalid 2nd argument"));
    assert_eq!(rep("(cons 1)", &mut env), native("Expected 2 arguments, got 1"));
    assert_eq!(rep("(concat)", &mut env), ok("()"));
    assert_eq!(rep("(concat (list 1) [2 3] () (list 4))", &mut env), ok("(1 2 3 4)"));
    assert_eq!(rep("(concat (list 1) 2)", &mut env), native("Invalid argument"));
    assert_eq!(rep("(conj (list 1 2) 3 4)", &mut env), ok("(4 3 1 2)"));
    assert_eq!(rep("(conj [1 2] 3 4)", &mut env), ok("[1 2 3 4]"));
    assert_eq!(rep("(conj 1 2)", &mut env), native("Invalid argument"));
    assert_eq!(rep("(conj [1])", &mut env), native("Expected at least 2 arguments, got 1"));
}

#[test]
fn list_accessors() {
    let mut env = create_root_env();
    assert_eq!(rep("(empty? ())", &mut env), ok("true"));
    assert_eq!(rep("(empty? [1])", &mut env), ok("false"));
    assert_eq!(rep("(empty? \"\")", &mut env), ok("true"));
    assert_eq!(rep("(empty? \"a\")", &mut env), ok("false"));
    assert_eq!(rep("(empty? nil)", &mut env), native("Invalid argument"));
    assert_eq!(rep("(count (list 1 2 3))", &mut env), ok("3"));
    assert_eq!(rep("(count [])", &mut env), ok("0"));
    assert_eq!(rep("(count nil)", &mut env), ok("0"));
    assert_eq!(rep("(count \"abc\")", &mut env), ok("3"));
    assert_eq!(rep("(count \"\u{e9}\")", &mut env), ok("2"));
    assert_eq!(rep("(count 1)", &mut env), native("Invalid argument"));
    assert_eq!(rep("(nth (list 1 2 3) 0)", &mut env), ok("1"));
    assert_eq!(rep("(nth [1 2 3] 2)", &mut env), ok("3"));
    assert_eq!(rep("(nth [1 2 3] 1.9)", &mut env), ok("2"));
    assert_eq!(rep("(nth [1 2 3] -1)", &mut env), ok("1"));
    assert_eq!(rep("(nth [1 2 3] 3)", &mut env), native("nth: index out of range"));
    assert_eq!(rep("(nth [1 2 3] (/ 1 0))", &mut env), native("nth: index out of range"));
    assert_eq!(rep("(nth [1 2 3] (/ 0 0))", &mut env), ok("1"));
    assert_eq!(rep("(nth 1 0)", &mut env), native("Invalid argument"));
    assert_eq!(rep("(nth 1 :a)", &mut env), native("Argument must be a number"));
    assert_eq!(rep("(first (list 1 2))", &mut env), ok("1"));
    assert_eq!(rep("(first [])", &mut env), ok("nil"));
    assert_eq!(rep("(first nil)", &mut env), ok("nil"));
    assert_eq!(rep("(first 1)", &mut env), native("Invalid argument"));
    assert_eq!(rep("(rest (list 1 2 3))", &mut env), ok("(2 3)"));
    assert_eq!(rep("(rest [1])", &mut env), ok("()"));
    assert_eq!(rep("(rest [])", &mut env), ok("()"));
    assert_eq!(rep("(rest nil)", &mut env), ok("()"));
    assert_eq!(rep("(rest 1)", &mut env), native("Invalid argument"));
}

#[test]
fn predicates() {
    let mut env = create_root_env();
    assert_eq!(rep("(list? (list))", &mut env), ok("true"));
    assert_eq!(rep("(list? [])", &mut env), ok("false"));
    assert_eq!(rep("(vector? [])", &mut env), ok("true"));
    assert_eq!(rep("(vector? (list))", &mut env), ok("false"));
    assert_eq!(rep("(sequential? [])", &mut env), ok("true"));
    assert_eq!(rep("(sequential? (list))", &mut env), ok("true"));
    assert_eq!(rep("(sequential? {})", &mut env), ok("false"));
    assert_eq!(rep("(map? {})", &mut env), ok("true"));
    assert_eq!(rep("(map? [])", &mut env), ok("false"));
    assert_eq!(rep("(nil? nil)", &mut env), ok("true"));
    assert_eq!(rep("(nil? false)", &mut env), ok("false"));
    assert_eq!(rep("(true? true)", &mut env), ok("true"));
    assert_eq!(rep("(true? 1)", &mut env), ok("false"));
    assert_eq!(rep("(false? false)", &mut env), ok("true"));
    assert_eq!(rep("(false? nil)", &mut env), ok("false"));
    assert_eq!(rep("(symbol? (symbol \"a\"))", &mut env), ok("true"));
    assert_eq!(rep("(symbol? \"a\")", &mut env), ok("false"));
    assert_eq!(rep("(keyword? :a)", &mut env), ok("true"));
    assert_eq!(rep("(keyword? \"a\")", &mut env), ok("false"));
    assert_eq!(rep("(string? \"a\")", &mut env), ok("true"));
    assert_eq!(rep("(string? :a)", &mut env), ok("false"));
    assert_eq!(rep("(number? 1)", &mut env), ok("true"));
    assert_eq!(rep("(number? \"1\")", &mut env), ok("false"));
    assert_eq!(rep("(fn? +)", &mut env), ok("true"));
    assert_eq!(rep("(fn? (fn* () 1))", &mut env), ok("true"));
    assert_eq!(rep("(fn? 1)", &mut env), ok("false"));
    assert_eq!(rep("(macro? (fn* () 1))", &mut env), ok("false"));
    assert_eq!(rep("(macro? +)", &mut env), ok("false"));
    assert_eq!(rep("(atom? (atom 1))", &mut env), ok("true"));
    assert_eq!(rep("(atom? 1)", &mut env), ok("false"));
    assert_eq!(rep("(nil?)", &mut env), native("Expected 1 argument, got 0"));
    assert_eq!(rep("(nil? 1 2)", &mut env), native("Expected 1 argument, got 2"));
}

#[test]
fn symbols_and_keywords_from_strings() {
    let mut env = create_root_env();
    assert_eq!(rep("(symbol \"abc\")", &mut env), ok("abc"));
    assert_eq!(rep("(keyword \"abc\")", &mut env), ok(":abc"));
    assert_eq!(rep("(= (keyword \"abc\") :abc)", &mut env), ok("true"));
    assert_eq!(rep("(symbol :abc)", &mut env), native("Argument must be a string."));
    assert_eq!(rep("(keyword 1)", &mut env), native("Argument must be a string."));
}

#[test]
fn map_builtins() {
    let mut env = create_root_env();
    assert_eq!(rep("(hash-map)", &mut env), ok("{}"));
    assert_eq!(rep("(hash-map :a 1 \"a\" 2)", &mut env), ok("{:a 1 \"a\" 2}"));
    assert_eq!(rep("(hash-map :a 1 :a 2)", &mut env), ok("{:a 2}"));
    assert_eq!(
        rep("(hash-map :a)", &mut env),
        Err(MalError::Parser("hash map must have an even number of arguments".to_string()))
    );
    assert_eq!(
        rep("(hash-map 1 2)", &mut env),
        Err(MalError::Parser("hash map keys must be strings or keywords".to_string()))
    );
    assert_eq!(rep("(assoc {:a 1} :b 2 :a 3)", &mut env), ok("{:a 3 :b 2}"));
    assert_eq!(rep("(assoc {})", &mut env), ok("{}"));
    assert_eq!(rep("(assoc 1 :a 1)", &mut env), native("First argument must be a hash map."));
    assert_eq!(rep("(assoc)", &mut env), native("Expected at least 1 argument, got 0"));
    assert_eq!(rep("(dissoc {:a 1 :b 2 :c 3} :b :x)", &mut env), ok("{:a 1 :c 3}"));
    assert_eq!(rep("(dissoc [] :a)", &mut env), native("First argument must be a hash map."));
    assert_eq!(
        rep("(dissoc {:a 1} 1)", &mut env),
        Err(MalError::Parser("hash map keys must be strings or keywords".to_string()))
    );
    assert_eq!(rep("(get {:a 1 \"a\" 2} \"a\")", &mut env), ok("2"));
    assert_eq!(rep("(get [] :a)", &mut env), native("First argument must be a hash map."));
    assert_eq!(rep("(contains? {:a 1} :a)", &mut env), ok("true"));
    assert_eq!(rep("(contains? {:a 1} \"a\")", &mut env), ok("false"));
    assert_eq!(rep("(contains? nil :a)", &mut env), ok("false"));
    assert_eq!(rep("(contains? 1 :a)", &mut env), native("First argument must be a hash map."));
    assert_eq!(rep("(keys {:a 1 \"b\" 2})", &mut env), ok("(:a \"b\")"));
    assert_eq!(rep("(vals {:a 1 \"b\" 2})", &mut env), ok("(1 2)"));
    assert_eq!(rep("(keys 1)", &mut env), native("Argument must be a hash map."));
    assert_eq!(rep("(vals nil)", &mut env), native("Argument must be a hash map."));
}

#[test]
fn atoms() {
    let mut env = create_root_env();
    assert_eq!(rep("(def! a (atom (list 1 2)))", &mut env), ok("(atom (1 2))"));
    assert_eq!(rep("(deref a)", &mut env), ok("(1 2)"));
    assert_eq!(rep("(reset! a 7)", &mut env), ok("7"));
    assert_eq!(rep("(deref a)", &mut env), ok("7"));
    assert_eq!(rep("(def! b a)", &mut env), ok("(atom 7)"));
    assert_eq!(rep("(reset! b 8)", &mut env), ok("8"));
    assert_eq!(rep("(deref a)", &mut env), ok("8"));
    assert_eq!(rep("(deref 1)", &mut env), native("Invalid argument. Expected atom."));
    assert_eq!(rep("(reset! 1 2)", &mut env), native("Invalid argument. Expected atom."));
    assert_eq!(rep("(swap! 1 +)", &mut env), native("Invalid 1st argument. Expected atom."));
    assert_eq!(rep("(swap! a 1)", &mut env), native("Invalid 2nd argument. Expected function."));
    assert_eq!(rep("(swap! a)", &mut env), native("Expected at least 2 arguments, got 1"));
    assert_eq!(rep("(swap! a (fn* (x) (throw x)))", &mut env), Err(MalError::Exception(MalValue::new_number(8f64.to_bits()))));
    assert_eq!(rep("(deref a)", &mut env), ok("8"));
}

#[test]
fn a_cell_that_holds_itself_is_printed_to_a_bounded_depth() {
    let mut env = create_root_env();
    rep("(def! a (atom 1))", &mut env).unwrap();
    rep("(reset! a a)", &mut env).unwrap();
    let text = rep("a", &mut env).unwrap();
    assert!(text.starts_with("(atom (atom (atom "));
    assert!(text.contains("(atom ...)"));
    assert_eq!(text.matches("(atom").count(), 33);
}

#[test]
fn apply_and_map() {
    let mut env = create_root_env();
    assert_eq!(rep("(apply + (list 1 2))", &mut env), ok("3"));
    assert_eq!(rep("(apply + 1 [2])", &mut env), ok("3"));
    assert_eq!(rep("(apply list 1 2 (list 3 4))", &mut env), ok("(1 2 3 4)"));
    assert_eq!(rep("(apply (fn* (a b) (- a b)) 5 (list 3))", &mut env), ok("2"));
    assert_eq!(
        rep("(apply + 1 2)", &mut env),
        native("Invalid argument. Last argument of apply must be a list or vector.")
    );
    assert_eq!(rep("(apply +)", &mut env), native("Expected at least 2 arguments, got 1"));
    assert_eq!(rep("(apply 1 (list))", &mut env), native("Expected function."));
    assert_eq!(rep("(map (fn* (x) (* x x)) (list 1 2 3))", &mut env), ok("(1 4 9)"));
    assert_eq!(rep("(map (fn* (x) (* x x)) [1 2 3])", &mut env), ok("(1 4 9)"));
    assert_eq!(rep("(map first (list [1] [2]))", &mut env), ok("(1 2)"));
    assert_eq!(rep("(map (fn* (x) x) ())", &mut env), ok("()"));
    assert_eq!(rep("(map (fn* (x) x) [])", &mut env), ok("()"));
    assert_eq!(rep("(map 1 (list 1))", &mut env), native("Expected function."));
    assert_eq!(
        rep("(map + 1)", &mut env),
        native("Invalid argument. Second argument of map must be a list or vector.")
    );
    assert_eq!(rep("(map (fn* (x) (throw x)) (list 1 2))", &mut env), Err(MalError::Exception(MalValue::new_number(1f64.to_bits()))));
    assert_eq!(rep("(map (fn* (x) (map (fn* (y) (+ x y)) [10 20])) [1 2])", &mut env), ok("((11 21) (12 22))"));
}

#[test]
fn eval_and_read_string() {
    let mut env = create_root_env();
    assert_eq!(rep("(eval (list + 1 2))", &mut env), ok("3"));
    assert_eq!(rep("(eval (read-string \"(+ 2 3)\"))", &mut env), ok("5"));
    assert_eq!(rep("(read-string \"(1 2 (3 4) nil)\")", &mut env), ok("(1 2 (3 4) nil)"));
    assert_eq!(rep("(read-string \"   \")", &mut env), Err(MalError::EmptyProgram));
    assert_eq!(
        rep("(read-string \"(1 2\")", &mut env),
        Err(MalError::Parser("Unexpected end of input".to_string()))
    );
    assert_eq!(
        rep("(read-string 1)", &mut env),
        native("read_string expects argument to be of type String")
    );
    assert_eq!(rep("(let* (x 5) (eval (list (symbol \"x\"))))", &mut env), Err(MalError::UndefinedSymbol("x".to_string())));
    rep("(def! y 9)", &mut env).unwrap();
    assert_eq!(rep("(let* (y 5) (eval (symbol \"y\")))", &mut env), ok("9"));
    assert_eq!(rep("(eval 1 2)", &mut env), native("Expected 1 argument, got 2"));
}

#[test]
fn throw_carries_its_argument() {
    let mut env = create_root_env();
    assert_eq!(
        rep("(throw \"boom\")", &mut env),
        Err(MalError::Exception(MalValue::new_str("boom".to_string())))
    );
    assert_eq!(rep("(throw)", &mut env), native("Expected at least 1 argument, got 0"));
    assert_eq!(
        rep("(do (def! z 1) (throw :stop) (def! z 2))", &mut env),
        Err(MalError::Exception(read_str(":stop").unwrap()))
    );
    assert_eq!(rep("z", &mut env), ok("1"));
}

#[test]
fn strings_from_values() {
    let mut env = create_root_env();
    assert_eq!(rep("(pr-str)", &mut env), ok("\"\""));
    assert_eq!(rep("(pr-str 1 \"a\" :b)", &mut env), ok("\"1 \\\"a\\\" :b\""));
    assert_eq!(rep("(str)", &mut env), ok("\"\""));
    assert_eq!(rep("(str 1 \"a\" :b (list 1 \"x\"))", &mut env), ok("\"1a:b(1 x)\""));
    assert_eq!(rep("(str \"a\\nb\")", &mut env), ok("\"a\\nb\""));
    assert_eq!(rep("(count (str \"a\\nb\"))", &mut env), ok("3"));
}

#[test]
fn printing_asks_the_host() {
    let mut env = create_root_env();
    assert_eq!(rep("(prn 1 \"a\" :b)", &mut env), ok("nil"));
    assert_eq!(rep("(println 1 \"a\" :b)", &mut env), ok("nil"));
    assert_eq!(rep("(do (println \"x\") (prn \"y\") 3)", &mut env), ok("3"));
    assert_eq!(rep("(prn)", &mut env), ok("nil"));
    assert_eq!(env.printed, vec!["1 \"a\" :b", "1 a :b", "x", "\"y\"", ""]);
}

#[test]
fn files_lines_and_the_clock_come_from_the_host() {
    let mut env = create_root_env();
    assert_eq!(rep("(slurp \"hello.mal\")", &mut env), ok("\"(+ 1 2)\""));
    assert_eq!(rep("(eval (read-string (slurp \"hello.mal\")))", &mut env), ok("3"));
    assert_eq!(
        rep("(slurp \"missing.mal\")", &mut env),
        native("slurp: missing.mal cannot be read here")
    );
    assert_eq!(rep("(slurp 1)", &mut env), native("slurp expects argument to be of type String"));
    assert_eq!(rep("(readline \"name> \")", &mut env), ok("\"Ada\""));
    assert_eq!(rep("(readline \"> \")", &mut env), ok("nil"));
    assert_eq!(rep("(readline 1)", &mut env), native("Argument must be a string."));
    assert_eq!(rep("(time-ms)", &mut env), ok("1500000000000"));
    assert_eq!(rep("(time-ms 1)", &mut env), native("Expected 0 arguments, got 1"));
    assert_eq!(rep("(+ 1 (time-ms))", &mut env), ok("1500000000001"));
}

#[test]
fn metadata() {
    let mut env = create_root_env();
    assert_eq!(rep("(meta [1 2])", &mut env), ok("nil"));
    assert_eq!(rep("(meta (with-meta [1 2] {:a 1}))", &mut env), ok("{:a 1}"));
    assert_eq!(rep("(with-meta [1 2] {:a 1})", &mut env), ok("[1 2]"));
    assert_eq!(rep("(= (with-meta [1 2] {:a 1}) [1 2])", &mut env), ok("true"));
    assert_eq!(rep("(meta (with-meta + \"plus\"))", &mut env), ok("\"plus\""));
    assert_eq!(rep("((with-meta + \"plus\") 1 2)", &mut env), ok("3"));
    assert_eq!(rep("(meta +)", &mut env), ok("nil"));
    assert_eq!(rep("(meta)", &mut env), native("Expected 1 argument, got 0"));
    assert_eq!(rep("(with-meta 1)", &mut env), native("Expected 2 arguments, got 1"));
}

#[test]
fn seq_of_sequences_and_strings() {
    let mut env = create_root_env();
    assert_eq!(rep("(seq (list 1 2))", &mut env), ok("(1 2)"));
    assert_eq!(rep("(seq [1 2])", &mut env), ok("(1 2)"));
    assert_eq!(rep("(seq \"ab\")", &mut env), ok("(\"a\" \"b\")"));
    assert_eq!(rep("(seq ())", &mut env), ok("nil"));
    assert_eq!(rep("(seq [])", &mut env), ok("nil"));
    assert_eq!(rep("(seq \"\")", &mut env), ok("nil"));
    assert_eq!(rep("(seq nil)", &mut env), ok("nil"));
    assert_eq!(rep("(seq 1)", &mut env), native("Invalid argument"));
}

#[test]
fn the_table_binds_every_name() {
    let table = ns(0);
    assert_eq!(table.len(), 61);
    let names: Vec<&str> = table.iter().map(|(name, _)| *name).collect();
    assert_eq!(
        names,
        vec![
            "+", "-", "*", "/", "prn", "println", "pr-str", "str", "list", "list?", "cons",
            "concat", "empty?", "count", "nth", "first", "rest", "conj", "=", "<", "<=", ">",
            ">=", "read-string", "slurp", "eval", "atom", "atom?", "deref", "reset!", "swap!",
            "throw", "nil?", "true?", "false?", "symbol?", "symbol", "keyword?", "keyword",
            "apply", "map", "vector", "vector?", "sequential?", "hash-map", "map?", "assoc",
            "dissoc", "get", "contains?", "keys", "vals", "readline", "meta", "with-meta",
            "string?", "number?", "fn?", "macro?", "time-ms", "seq",
        ]
    );
    for (_, value) in &table {
        assert!(value.is_function());
    }
    let mut env = create_root_env();
    for name in names {
        assert_eq!(rep(name, &mut env), ok("#<function>"));
    }
}

#[test]
fn special_forms_check_their_shape() {
    let mut env = create_root_env();
    assert_eq!(rep("(def! a)", &mut env), special("def! expected 2 arguments, got 1"));
    assert_eq!(rep("(def! a 1 2)", &mut env), special("def! expected 2 arguments, got 3"));
    assert_eq!(
        rep("(def! \"a\" 1)", &mut env),
        special("def! first argument must be a valid symbol name")
    );
    assert_eq!(rep("(let* (a 1))", &mut env), special("let* expected 2 arguments, got 1"));
    assert_eq!(
        rep("(let* 1 2)", &mut env),
        special("let* first argument must be a list or a vector")
    );
    assert_eq!(
        rep("(let* (a) a)", &mut env),
        special("let* bindings list must have an even number of elements")
    );
    assert_eq!(
        rep("(let* (a 1 \"b\" 2) a)", &mut env),
        special("let* odd numbered elements of binding list must be valid symbol names")
    );
    assert_eq!(rep("(fn* (a))", &mut env), special("fn* expected 2 arguments, got 1"));
    assert_eq!(
        rep("(fn* a a)", &mut env),
        special("fn* first argument must be a list or a vector")
    );
    assert_eq!(
        rep("(fn* (a 1) a)", &mut env),
        special("fn*! first argument must be a sequence of valid symbol names")
    );
    assert_eq!(rep("(if)", &mut env), special("if expected 2 or 3 arguments, got 0"));
    assert_eq!(rep("(if true)", &mut env), special("if expected 2 or 3 arguments, got 1"));
    assert_eq!(rep("(if 1 2 3 4)", &mut env), special("if expected 2 or 3 arguments, got 4"));
}

#[test]
fn special_forms_go_by_the_text_of_the_symbol() {
    let mut env = create_root_env();
    assert_eq!(rep("(def! if 5)", &mut env), ok("5"));
    assert_eq!(rep("(if true 1 2)", &mut env), ok("1"));
    assert_eq!(rep("if", &mut env), ok("5"));
    assert_eq!(rep("(let* (do 3) (do do))", &mut env), ok("3"));
}

#[test]
fn application_evaluates_from_left_to_right() {
    let mut env = create_root_env();
    rep("(def! log (atom ()))", &mut env).unwrap();
    rep("(def! note (fn* (x) (do (swap! log conj x) x)))", &mut env).unwrap();
    assert_eq!(rep("(list (note 1) (note 2) (note 3))", &mut env), ok("(1 2 3)"));
    assert_eq!(rep("(deref log)", &mut env), ok("(3 2 1)"));
    rep("(reset! log ())", &mut env).unwrap();
    assert_eq!(rep("[(note 1) (note 2)]", &mut env), ok("[1 2]"));
    assert_eq!(rep("{:a (note 3) :b (note 4)}", &mut env), ok("{:a 3 :b 4}"));
    assert_eq!(rep("(deref log)", &mut env), ok("(4 3 2 1)"));
    assert_eq!(
        rep("(1 2)", &mut env),
        Err(MalError::Evaluation(
            "First element of a list must evaluate to a function.".to_string()
        ))
    );
    assert_eq!(rep("((note +) (note 1) (undefined))", &mut env), Err(MalError::UndefinedSymbol("undefined".to_string())));
}

#[test]
fn do_evaluates_all_and_gives_the_last() {
    let mut env = create_root_env();
    assert_eq!(rep("(do (def! p 1) (def! q (+ p 1)) (+ p q))", &mut env), ok("3"));
    assert_eq!(rep("(do 7)", &mut env), ok("7"));
    assert_eq!(rep("(do (do) 1)", &mut env), ok("1"));
}

#[test]
fn recursion_is_not_bounded_by_the_stack() {
    let mut env = create_root_env();
    rep(
        "(def! sum-to (fn* (n acc) (if (= n 0) acc (sum-to (- n 1) (+ acc n)))))",
        &mut env,
    )
    .unwrap();
    assert_eq!(rep("(sum-to 20000 0)", &mut env), ok("200010000"));
    rep("(def! fib (fn* (n) (if (< n 2) n (+ (fib (- n 1)) (fib (- n 2))))))", &mut env).unwrap();
    assert_eq!(rep("(fib 15)", &mut env), ok("610"));
    rep("(def! depth (fn* (n) (if (= n 0) 0 (+ 1 (depth (- n 1))))))", &mut env).unwrap();
    assert_eq!(rep("(depth 5000)", &mut env), ok("5000"));
}
