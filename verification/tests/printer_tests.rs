use malrs::atoms::Atoms;
use malrs::printer::{error_message, pr_str, pr_strs};
use malrs::types::{Builtin, MalError, MalMap, MalValue, MalValueType};

fn num(x: f64) -> MalValue {
    MalValue::new_number(x.to_bits())
}

fn text(s: &str) -> MalValue {
    MalValue::new_str(s.to_string())
}

fn keyword(s: &str) -> MalValue {
    MalValue::new(MalValueType::Keyword(s.to_string()))
}

fn symbol(s: &str) -> MalValue {
    MalValue::new(MalValueType::Symbol(s.to_string()))
}

#[test]
fn plain_values_are_printed() {
    let atoms = Atoms::new();
    assert_eq!(pr_str(&MalValue::nil(), true, &atoms), "nil");
    assert_eq!(pr_str(&MalValue::new_boolean(true), true, &atoms), "true");
    assert_eq!(pr_str(&MalValue::new_boolean(false), true, &atoms), "false");
    assert_eq!(pr_str(&num(3.0), true, &atoms), "3");
    assert_eq!(pr_str(&num(-0.25), false, &atoms), "-0.25");
    assert_eq!(pr_str(&symbol("abc"), true, &atoms), "abc");
    assert_eq!(pr_str(&keyword("abc"), true, &atoms), ":abc");
    assert_eq!(pr_str(&keyword("abc"), false, &atoms), ":abc");
}

#[test]
fn strings_are_quoted_only_when_readable() {
    let atoms = Atoms::new();
    let value = text("a \"b\" \\ c\nd");
    assert_eq!(pr_str(&value, true, &atoms), "\"a \\\"b\\\" \\\\ c\\nd\"");
    assert_eq!(pr_str(&value, false, &atoms), "a \"b\" \\ c\nd");
    assert_eq!(pr_str(&text(""), true, &atoms), "\"\"");
    assert_eq!(pr_str(&text(""), false, &atoms), "");
    assert_eq!(pr_str(&text("\t"), true, &atoms), "\"\t\"");
}

#[test]
fn collections_are_printed_with_their_brackets() {
    let atoms = Atoms::new();
    let list = MalValue::new_list(vec![num(1.0), text("a"), keyword("k")]);
    let vector = MalValue::new_vector(vec![list.clone(), MalValue::new_list(Vec::new())]);
    let map = MalValue::new_map(
        MalMap::from_arguments(&[keyword("a"), vector.clone(), text("b"), num(2.0)]).unwrap(),
    );
    assert_eq!(pr_str(&list, true, &atoms), "(1 \"a\" :k)");
    assert_eq!(pr_str(&list, false, &atoms), "(1 a :k)");
    assert_eq!(pr_str(&vector, true, &atoms), "[(1 \"a\" :k) ()]");
    assert_eq!(pr_str(&map, true, &atoms), "{:a [(1 \"a\" :k) ()] \"b\" 2}");
    assert_eq!(pr_str(&map, false, &atoms), "{:a [(1 a :k) ()] b 2}");
    assert_eq!(pr_str(&MalValue::new_vector(Vec::new()), true, &atoms), "[]");
    assert_eq!(pr_str(&MalValue::new_map(MalMap::new()), true, &atoms), "{}");
}

#[test]
fn functions_are_opaque() {
    let atoms = Atoms::new();
    let native = MalValue::new_rust_func(Builtin::Add, 0);
    let closure = MalValue::new_mal_func(symbol("a"), vec!["a".to_string()], 0);
    let a_macro = MalValue::new_mal_macro(symbol("a"), vec!["a".to_string()], 0);
    assert_eq!(pr_str(&native, true, &atoms), "#<function>");
    assert_eq!(pr_str(&closure, true, &atoms), "#<function>");
    assert_eq!(pr_str(&a_macro, false, &atoms), "#<function>");
    assert!(native.is_function() && closure.is_function());
    assert!(a_macro.is_macro() && !closure.is_macro() && !native.is_macro());
    assert!(a_macro.is_function_or_macro());
}

#[test]
fn cells_show_their_contents() {
    let mut atoms = Atoms::new();
    let first = atoms.new_cell(text("x"));
    let second = atoms.new_cell(MalValue::new_list(vec![first.clone(), num(1.0)]));
    assert_eq!(pr_str(&first, true, &atoms), "(atom \"x\")");
    assert_eq!(pr_str(&first, false, &atoms), "(atom x)");
    assert_eq!(pr_str(&second, true, &atoms), "(atom ((atom \"x\") 1))");
    atoms.set(0, num(5.0));
    assert_eq!(pr_str(&second, true, &atoms), "(atom ((atom 5) 1))");
    assert_eq!(pr_str(&MalValue::new_atom(99), true, &atoms), "(atom nil)");
    assert_eq!(atoms.len(), 2);
    assert_ne!(atoms.get(1), MalValue::new_list(vec![first.clone(), num(1.0)]));
    assert_eq!(atoms.get(0), num(5.0));
    assert_eq!(atoms.get(7), MalValue::nil());
    atoms.set(7, num(1.0));
    assert_eq!(atoms.len(), 2);
}

#[test]
fn several_values_are_joined() {
    let atoms = Atoms::new();
    let values = [num(1.0), text("a b"), keyword("k")];
    assert_eq!(pr_strs(&values, true, " ", &atoms), "1 \"a b\" :k");
    assert_eq!(pr_strs(&values, false, " ", &atoms), "1 a b :k");
    assert_eq!(pr_strs(&values, false, "", &atoms), "1a b:k");
    assert_eq!(pr_strs(&values, false, ", ", &atoms), "1, a b, :k");
    assert_eq!(pr_strs(&values[..1], true, " ", &atoms), "1");
    assert_eq!(pr_strs(&[], true, " ", &atoms), "");
}

#[test]
fn errors_are_described() {
    let atoms = Atoms::new();
    assert_eq!(error_message(&MalError::EmptyProgram, &atoms), "Empty program.");
    assert_eq!(
        error_message(&MalError::Tokenizer("t".to_string()), &atoms),
        "Tokenizer error: t"
    );
    assert_eq!(error_message(&MalError::Parser("p".to_string()), &atoms), "Parser error: p");
    assert_eq!(
        error_message(&MalError::UndefinedSymbol("abc".to_string()), &atoms),
        "'abc' not found"
    );
    assert_eq!(
        error_message(&MalError::Evaluation("e".to_string()), &atoms),
        "Error in evaluation: e"
    );
    assert_eq!(
        error_message(&MalError::RustFunction("r".to_string()), &atoms),
        "Error when calling rust function: r"
    );
    assert_eq!(
        error_message(&MalError::SpecialForm("s".to_string()), &atoms),
        "Error when evaluating special form: s"
    );
    assert_eq!(
        error_message(&MalError::Exception(text("boom")), &atoms),
        "Exception: \"boom\""
    );
}

#[test]
fn metadata_is_not_printed() {
    let atoms = Atoms::new();
    let value = MalValue::new_vector(vec![num(1.0)]).clone_with_meta(text("about"));
    assert_eq!(pr_str(&value, true, &atoms), "[1]");
    assert_eq!(value.get_meta(), text("about"));
    assert_eq!(pr_str(&value.get_meta(), true, &atoms), "\"about\"");
    assert_eq!(num(1.0).get_meta(), MalValue::nil());
}
