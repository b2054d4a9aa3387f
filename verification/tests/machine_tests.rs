use malrs::builtins::{answer, call, Event, Next, Request};
use malrs::eval::{Machine, Outcome, Status};
use malrs::printer::pr_str;
use malrs::reader::read_str;
use malrs::types::{Builtin, EnvId, MalError, MalValue};

fn machine_with_builtins() -> (Machine, EnvId) {
    let mut machine = Machine::new();
    let root = machine.create_root_env();
    (machine, root)
}

fn num(x: f64) -> MalValue {
    MalValue::new_number(x.to_bits())
}

fn steps_until_halt(machine: &mut Machine) -> usize {
    let mut steps = 0;
    while machine.status() == Status::Running {
        machine.step();
        steps += 1;
        assert!(steps < 1_000_000);
    }
    steps
}

#[test]
fn a_new_machine_is_idle() {
    let mut machine = Machine::new();
    assert_eq!(machine.status(), Status::Idle);
    assert_eq!(machine.envs().len(), 0);
    assert_eq!(machine.atoms().len(), 0);
    machine.step();
    machine.run(10);
    machine.resume(Event::Done);
    assert_eq!(machine.status(), Status::Idle);
    assert!(matches!(machine.outcome(), Outcome::OutOfFuel));
    assert!(matches!(machine.proceed(10), Outcome::OutOfFuel));
}

#[test]
fn a_machine_steps_to_its_result() {
    let (mut machine, root) = machine_with_builtins();
    machine.start(read_str("(+ 1 2)").unwrap(), root);
    assert_eq!(machine.status(), Status::Running);
    let steps = steps_until_halt(&mut machine);
    assert_eq!(steps, 9);
    assert_eq!(machine.status(), Status::Finished);
    machine.step();
    assert_eq!(machine.status(), Status::Finished);
    match machine.outcome() {
        Outcome::Value(result) => assert_eq!(result, Ok(num(3.0))),
        other => panic!("expected a value, got {:?}", other),
    }
    assert_eq!(machine.status(), Status::Idle);
}

#[test]
fn a_machine_out_of_fuel_goes_on_later() {
    let (mut machine, root) = machine_with_builtins();
    let form = read_str("(+ 1 (* 2 3))").unwrap();
    assert!(matches!(machine.eval_form(form.clone(), root, 0), Outcome::OutOfFuel));
    assert!(matches!(machine.proceed(3), Outcome::OutOfFuel));
    assert_eq!(machine.status(), Status::Running);
    assert!(matches!(machine.proceed(1), Outcome::OutOfFuel));
    match machine.proceed(1000) {
        Outcome::Value(result) => assert_eq!(result, Ok(num(7.0))),
        other => panic!("expected a value, got {:?}", other),
    }

    let mut fresh = machine_with_builtins().0;
    fresh.start(form, root);
    let mut slices = 0;
    loop {
        match fresh.proceed(1) {
            Outcome::Value(result) => {
                assert_eq!(result, Ok(num(7.0)));
                break;
            }
            Outcome::OutOfFuel => slices += 1,
            other => panic!("unexpected {:?}", other),
        }
    }
    assert_eq!(slices, 15);
}

#[test]
fn an_error_ends_the_evaluation() {
    let (mut machine, root) = machine_with_builtins();
    match machine.eval_form(read_str("(list 1 (nth [1 2] 5) (undefined))").unwrap(), root, 1000) {
        Outcome::Value(result) => {
            assert_eq!(result, Err(MalError::RustFunction("nth: index out of range".to_string())))
        }
        other => panic!("expected an error, got {:?}", other),
    }
    assert_eq!(machine.status(), Status::Idle);
    match machine.eval_form(read_str("(+ 1 1)").unwrap(), root, 1000) {
        Outcome::Value(result) => assert_eq!(result, Ok(num(2.0))),
        other => panic!("expected a value, got {:?}", other),
    }
}

#[test]
fn a_request_waits_for_its_answer() {
    let (mut machine, root) = machine_with_builtins();
    let form = read_str("(list (prn \"a\" 1) (slurp \"f\") (readline \"> \") (time-ms))").unwrap();
    match machine.eval_form(form, root, 1000) {
        Outcome::Ask(Request::Print(text)) => assert_eq!(text, "\"a\" 1"),
        other => panic!("expected a request to print, got {:?}", other),
    }
    assert_eq!(machine.status(), Status::Waiting);
    machine.step();
    machine.run(100);
    assert_eq!(machine.status(), Status::Waiting);
    assert!(matches!(machine.outcome(), Outcome::Ask(Request::Print(_))));
    machine.resume(Event::Done);
    assert_eq!(machine.status(), Status::Running);
    match machine.proceed(1000) {
        Outcome::Ask(Request::ReadFile(path)) => assert_eq!(path, "f"),
        other => panic!("expected a request to read a file, got {:?}", other),
    }
    machine.resume(Event::Text("contents\n".to_string()));
    match machine.proceed(1000) {
        Outcome::Ask(Request::ReadLine(prompt)) => assert_eq!(prompt, "> "),
        other => panic!("expected a request to read a line, got {:?}", other),
    }
    machine.resume(Event::Text("a line\n\n".to_string()));
    assert!(matches!(machine.proceed(1000), Outcome::Ask(Request::Clock)));
    machine.resume(Event::Time(5));
    match machine.proceed(1000) {
        Outcome::Value(Ok(value)) => {
            assert_eq!(pr_str(&value, true, machine.atoms()), "(nil \"contents\\n\" \"a line\" 5)")
        }
        other => panic!("expected a value, got {:?}", other),
    }
}

#[test]
fn a_failed_request_is_an_error() {
    let (mut machine, root) = machine_with_builtins();
    assert!(matches!(
        machine.eval_form(read_str("(slurp \"f\")").unwrap(), root, 1000),
        Outcome::Ask(Request::ReadFile(_))
    ));
    machine.resume(Event::Failed("No such file".to_string()));
    assert_eq!(machine.status(), Status::Finished);
    match machine.outcome() {
        Outcome::Value(result) => {
            assert_eq!(result, Err(MalError::RustFunction("slurp: No such file".to_string())))
        }
        other => panic!("expected an error, got {:?}", other),
    }
}

#[test]
fn answers_become_values() {
    let print = Request::Print("x".to_string());
    let file = Request::ReadFile("f".to_string());
    let line = Request::ReadLine("> ".to_string());
    let native = |m: &str| Err(MalError::RustFunction(m.to_string()));
    assert_eq!(answer(&print, Event::Done), Ok(MalValue::nil()));
    assert_eq!(answer(&print, Event::End), Ok(MalValue::nil()));
    assert_eq!(answer(&file, Event::Text("a\n".to_string())), Ok(MalValue::new_str("a\n".to_string())));
    assert_eq!(answer(&file, Event::Failed("why".to_string())), native("slurp: why"));
    assert_eq!(answer(&file, Event::Done), native("slurp: no answer"));
    assert_eq!(answer(&file, Event::End), native("slurp: no answer"));
    assert_eq!(answer(&line, Event::Text("a\n".to_string())), Ok(MalValue::new_str("a".to_string())));
    assert_eq!(answer(&line, Event::Text("a\n\n\n".to_string())), Ok(MalValue::new_str("a".to_string())));
    assert_eq!(answer(&line, Event::Text("\na\nb".to_string())), Ok(MalValue::new_str("\na\nb".to_string())));
    assert_eq!(answer(&line, Event::Text("\n".to_string())), Ok(MalValue::new_str(String::new())));
    assert_eq!(answer(&line, Event::Text(String::new())), Ok(MalValue::new_str(String::new())));
    assert_eq!(answer(&line, Event::End), Ok(MalValue::nil()));
    assert_eq!(answer(&line, Event::Failed("x".to_string())), native("Error reading line."));
    assert_eq!(answer(&line, Event::Time(1)), native("Error reading line."));
    assert_eq!(answer(&Request::Clock, Event::Time(2)), Ok(num(2.0)));
    assert_eq!(answer(&Request::Clock, Event::Done), native("Could not calculate the current time."));
}

#[test]
fn native_functions_say_how_to_go_on() {
    let mut atoms = malrs::atoms::Atoms::new();
    let plus = MalValue::new_rust_func(Builtin::Add, 0);
    match call(Builtin::Add, &[num(1.0), num(2.0)], 0, &mut atoms) {
        Ok(Next::Done(value)) => assert_eq!(value, num(3.0)),
        other => panic!("unexpected {:?}", other),
    }
    match call(Builtin::Eval, &[num(1.0)], 7, &mut atoms) {
        Ok(Next::Eval { ast, env }) => assert_eq!((ast, env), (num(1.0), 7)),
        other => panic!("unexpected {:?}", other),
    }
    let last = MalValue::new_list(vec![num(3.0), num(4.0)]);
    match call(Builtin::Apply, &[plus.clone(), num(1.0), num(2.0), last], 0, &mut atoms) {
        Ok(Next::Apply { func, args }) => {
            assert_eq!(func, plus);
            assert_eq!(args, vec![num(1.0), num(2.0), num(3.0), num(4.0)]);
        }
        other => panic!("unexpected {:?}", other),
    }
    match call(Builtin::MapOver, &[plus.clone(), MalValue::new_vector(vec![num(1.0)])], 0, &mut atoms) {
        Ok(Next::MapOver { func, items }) => {
            assert_eq!(func, plus);
            assert_eq!(items, vec![num(1.0)]);
        }
        other => panic!("unexpected {:?}", other),
    }
    let cell = match call(Builtin::Atom, &[num(9.0)], 0, &mut atoms) {
        Ok(Next::Done(cell)) => cell,
        other => panic!("unexpected {:?}", other),
    };
    assert_eq!(atoms.len(), 1);
    match call(Builtin::Swap, &[cell.clone(), plus.clone(), num(1.0)], 0, &mut atoms) {
        Ok(Next::Swap { cell, func, args }) => {
            assert_eq!(cell, 0);
            assert_eq!(func, plus);
            assert_eq!(args, vec![num(9.0), num(1.0)]);
        }
        other => panic!("unexpected {:?}", other),
    }
    assert_eq!(atoms.get(0), num(9.0));
    match call(Builtin::Reset, &[cell, num(10.0)], 0, &mut atoms) {
        Ok(Next::Done(value)) => assert_eq!(value, num(10.0)),
        other => panic!("unexpected {:?}", other),
    }
    assert_eq!(atoms.get(0), num(10.0));
    match call(Builtin::Println, &[MalValue::new_str("a".to_string()), num(1.0)], 0, &mut atoms) {
        Ok(Next::Ask(Request::Print(text))) => assert_eq!(text, "a 1"),
        other => panic!("unexpected {:?}", other),
    }
    match call(Builtin::TimeMs, &[], 0, &mut atoms) {
        Ok(Next::Ask(Request::Clock)) => {}
        other => panic!("unexpected {:?}", other),
    }
}

#[test]
fn starting_drops_what_was_left_but_keeps_the_bindings() {
    let (mut machine, root) = machine_with_builtins();
    assert!(matches!(
        machine.eval_form(read_str("(do (def! a 1) (readline \"\") (def! a 2))").unwrap(), root, 1000),
        Outcome::Ask(Request::ReadLine(_))
    ));
    match machine.eval_form(read_str("a").unwrap(), root, 1000) {
        Outcome::Value(result) => assert_eq!(result, Ok(num(1.0))),
        other => panic!("expected a value, got {:?}", other),
    }
    machine.resume(Event::End);
    assert_eq!(machine.status(), Status::Idle);
    assert_eq!(machine.get(root, "a"), Ok(num(1.0)));
}

#[test]
fn a_tail_call_leaves_no_frame_behind() {
    let (mut machine, root) = machine_with_builtins();
    machine.start(
        read_str("(def! forever (fn* (n) (if (= n 0) :done (forever (- n 1)))))").unwrap(),
        root,
    );
    steps_until_halt(&mut machine);
    assert!(matches!(machine.outcome(), Outcome::Value(Ok(_))));
    match machine.eval_form(read_str("(forever 3000)").unwrap(), root, 1_000_000) {
        Outcome::Value(Ok(value)) => assert_eq!(pr_str(&value, true, machine.atoms()), ":done"),
        other => panic!("expected a value, got {:?}", other),
    }
    assert_eq!(machine.envs().len(), 3002);
}

#[test]
fn a_root_scope_binds_the_whole_table() {
    let mut machine = Machine::new();
    let first = machine.create_root_env();
    let second = machine.create_root_env();
    assert_eq!((first, second), (0, 1));
    assert_eq!(machine.envs().len(), 2);
    for (name, value) in malrs::builtins::ns(second) {
        assert_eq!(machine.get(second, name), Ok(value));
    }
    assert_eq!(machine.get(first, "+"), Ok(MalValue::new_rust_func(Builtin::Add, first)));
    assert_ne!(machine.get(first, "+"), machine.get(second, "+"));
    assert_eq!(
        machine.get(first, "not"),
        Err(MalError::UndefinedSymbol("not".to_string()))
    );
}
