use malrs::env::Env;
use malrs::types::{MalError, MalValue, MalValueType};

#[test]
fn test_get_from_empty_env() {
    let env = Env::new();

    assert_eq!(
        env.get("symbol"),
        Err(MalError::UndefinedSymbol("symbol".to_string()))
    );
}

#[test]
fn test_set_and_get() {
    let mut env = Env::new();
    let val = MalValue::new(MalValueType::Str("abc".to_string()));

    env.set("sym", val.clone());

    assert_eq!(env.get("sym"), Ok(val));
}

fn num(x: f64) -> MalValue {
    MalValue::new_number(x.to_bits())
}

fn undefined(name: &str) -> Result<MalValue, MalError> {
    Err(MalError::UndefinedSymbol(name.to_string()))
}

#[test]
fn a_later_binding_replaces_an_earlier_one() {
    let mut env = Env::new();
    env.set("a", num(1.0));
    env.set("b", num(2.0));
    env.set("a", num(3.0));
    assert_eq!(env.get("a"), Ok(num(3.0)));
    assert_eq!(env.get("b"), Ok(num(2.0)));
    assert_eq!(env.find("a"), Some(num(3.0)));
    assert_eq!(env.find("c"), None);
    assert_eq!(env.get("c"), undefined("c"));
    assert_eq!(env.get(""), undefined(""));
    assert_eq!(env.outer(), None);
    assert_eq!(Env::with_outer_env(4).outer(), Some(4));
}

#[test]
fn a_lookup_goes_outward_through_the_chain() {
    let mut envs = malrs::env::Envs::new();
    let root = envs.new_env();
    let middle = envs.with_outer_env(root);
    let inner = envs.with_outer_env(middle);
    let other = envs.with_outer_env(root);
    assert_eq!((root, middle, inner, other), (0, 1, 2, 3));
    assert_eq!(envs.len(), 4);
    envs.set(root, "a", num(1.0));
    envs.set(root, "b", num(2.0));
    envs.set(middle, "b", num(20.0));
    envs.set(inner, "c", num(300.0));
    assert_eq!(envs.get(inner, "a"), Ok(num(1.0)));
    assert_eq!(envs.get(inner, "b"), Ok(num(20.0)));
    assert_eq!(envs.get(inner, "c"), Ok(num(300.0)));
    assert_eq!(envs.get(middle, "c"), undefined("c"));
    assert_eq!(envs.get(other, "b"), Ok(num(2.0)));
    assert_eq!(envs.get(root, "b"), Ok(num(2.0)));
    assert_eq!(envs.get(other, "c"), undefined("c"));
}

#[test]
fn a_scope_that_is_not_there_binds_and_finds_nothing() {
    let mut envs = malrs::env::Envs::new();
    let root = envs.new_env();
    envs.set(5, "a", num(1.0));
    assert_eq!(envs.len(), 1);
    assert_eq!(envs.get(5, "a"), undefined("a"));
    assert_eq!(envs.get(root, "a"), undefined("a"));
    let dangling = envs.with_outer_env(9);
    envs.set(dangling, "b", num(2.0));
    assert_eq!(envs.get(dangling, "b"), Ok(num(2.0)));
    assert_eq!(envs.get(dangling, "a"), undefined("a"));
    let own = envs.with_outer_env(2);
    assert_eq!(own, 2);
    assert_eq!(envs.get(own, "b"), undefined("b"));
}

#[test]
fn parameters_are_bound_by_position() {
    let mut envs = malrs::env::Envs::new();
    let root = envs.new_env();
    envs.set(root, "z", num(26.0));
    let names = vec!["a".to_string(), "b".to_string()];
    let scope = envs.with_binds(Some(root), &names, &[num(1.0), num(2.0)]).unwrap();
    assert_eq!(scope, 1);
    assert_eq!(envs.get(scope, "a"), Ok(num(1.0)));
    assert_eq!(envs.get(scope, "b"), Ok(num(2.0)));
    assert_eq!(envs.get(scope, "z"), Ok(num(26.0)));
    assert_eq!(envs.get(root, "a"), undefined("a"));
    let alone = envs.with_binds(None, &names, &[num(1.0), num(2.0)]).unwrap();
    assert_eq!(envs.get(alone, "z"), undefined("z"));
    let empty = envs.with_binds(Some(root), &Vec::new(), &[]).unwrap();
    assert_eq!(envs.get(empty, "z"), Ok(num(26.0)));
    let twice = vec!["a".to_string(), "a".to_string()];
    let scope = envs.with_binds(None, &twice, &[num(1.0), num(2.0)]).unwrap();
    assert_eq!(envs.get(scope, "a"), Ok(num(2.0)));
}

#[test]
fn a_wrong_number_of_arguments_binds_nothing() {
    let mut envs = malrs::env::Envs::new();
    let root = envs.new_env();
    let names = vec!["a".to_string(), "b".to_string()];
    assert_eq!(
        envs.with_binds(Some(root), &names, &[num(1.0)]),
        Err(MalError::Evaluation("Expected 2 arguments, got 1".to_string()))
    );
    assert_eq!(
        envs.with_binds(Some(root), &names, &[num(1.0), num(2.0), num(3.0)]),
        Err(MalError::Evaluation("Expected 2 arguments, got 3".to_string()))
    );
    assert_eq!(
        envs.with_binds(Some(root), &Vec::new(), &vec![num(1.0); 12]),
        Err(MalError::Evaluation("Expected 0 arguments, got 12".to_string()))
    );
    assert_eq!(envs.len(), 1);
}
