use malrs::types::{MalError, MalMap, MalValue, MalValueType};

fn num(x: f64) -> MalValue {
    MalValue::new_number(x.to_bits())
}

fn text(s: &str) -> MalValue {
    MalValue::new_str(s.to_string())
}

fn keyword(s: &str) -> MalValue {
    MalValue::new(MalValueType::Keyword(s.to_string()))
}

fn parser_error(message: &str) -> MalError {
    MalError::Parser(message.to_string())
}

#[test]
fn a_map_is_made_from_alternating_keys_and_values() {
    let map = MalMap::from_arguments(&[keyword("a"), num(1.0), text("a"), num(2.0)]).unwrap();
    assert_eq!(map.len(), 2);
    assert_eq!(map.get(&keyword("a")), num(1.0));
    assert_eq!(map.get(&text("a")), num(2.0));
    assert_eq!(map.keys(), vec![keyword("a"), text("a")]);
    assert_eq!(map.vals(), vec![num(1.0), num(2.0)]);
    assert_eq!(map.iter(), vec![(keyword("a"), num(1.0)), (text("a"), num(2.0))]);
    assert_eq!(MalMap::from_arguments(&[]).unwrap().len(), 0);
    assert_eq!(MalMap::new().len(), 0);
    assert_eq!(MalMap::new().iter(), vec![]);
}

#[test]
fn an_odd_number_of_arguments_is_refused() {
    assert_eq!(
        MalMap::from_arguments(&[keyword("a")]).err(),
        Some(parser_error("hash map must have an even number of arguments"))
    );
    assert_eq!(
        MalMap::from_arguments(&[num(1.0), num(2.0), num(3.0)]).err(),
        Some(parser_error("hash map must have an even number of arguments"))
    );
}

#[test]
fn a_key_must_be_a_string_or_a_keyword() {
    for key in [
        num(1.0),
        MalValue::nil(),
        MalValue::new_boolean(true),
        MalValue::new(MalValueType::Symbol("a".to_string())),
        MalValue::new_list(Vec::new()),
    ] {
        assert_eq!(
            MalMap::from_arguments(&[keyword("a"), num(1.0), key, num(2.0)]).err(),
            Some(parser_error("hash map keys must be strings or keywords"))
        );
    }
    assert!(MalMap::from_arguments(&[keyword("a"), text("not a key")]).is_ok());
}

#[test]
fn a_later_value_replaces_an_earlier_one_in_place() {
    let map = MalMap::from_arguments(&[
        keyword("a"),
        num(1.0),
        keyword("b"),
        num(2.0),
        keyword("a"),
        num(3.0),
    ])
    .unwrap();
    assert_eq!(map.len(), 2);
    assert_eq!(map.keys(), vec![keyword("a"), keyword("b")]);
    assert_eq!(map.vals(), vec![num(3.0), num(2.0)]);
}

#[test]
fn assoc_and_dissoc_give_new_maps() {
    let map = MalMap::from_arguments(&[keyword("a"), num(1.0)]).unwrap();
    let more = map.assoc(&[text("b"), num(2.0), keyword("a"), num(5.0)]).unwrap();
    assert_eq!(map.keys(), vec![keyword("a")]);
    assert_eq!(map.get(&keyword("a")), num(1.0));
    assert_eq!(more.keys(), vec![keyword("a"), text("b")]);
    assert_eq!(more.vals(), vec![num(5.0), num(2.0)]);
    let less = more.dissoc(&[keyword("a"), keyword("zzz")]).unwrap();
    assert_eq!(less.keys(), vec![text("b")]);
    assert_eq!(more.len(), 2);
    assert_eq!(less.dissoc(&[]).unwrap().keys(), vec![text("b")]);
    assert_eq!(
        map.assoc(&[keyword("b")]).err(),
        Some(parser_error("hash map must have an even number of arguments"))
    );
    assert_eq!(
        map.assoc(&[num(1.0), num(2.0)]).err(),
        Some(parser_error("hash map keys must be strings or keywords"))
    );
    assert_eq!(
        map.dissoc(&[keyword("a"), num(1.0)]).err(),
        Some(parser_error("hash map keys must be strings or keywords"))
    );
}

#[test]
fn assoc_then_dissoc_gives_the_map_back() {
    let map = MalMap::from_arguments(&[keyword("a"), num(1.0), text("b"), num(2.0)]).unwrap();
    let back = map.assoc(&[keyword("c"), num(3.0)]).unwrap().dissoc(&[keyword("c")]).unwrap();
    assert_eq!(back.keys(), map.keys());
    assert_eq!(back.vals(), map.vals());
    assert_eq!(MalValue::new_map(back), MalValue::new_map(map));
}

#[test]
fn lookups_tell_strings_from_keywords() {
    let map = MalMap::from_arguments(&[keyword("a"), num(1.0)]).unwrap();
    assert!(map.contains(&keyword("a")));
    assert!(!map.contains(&text("a")));
    assert!(!map.contains(&keyword("b")));
    assert!(!map.contains(&num(1.0)));
    assert_eq!(map.get(&text("a")), MalValue::nil());
    assert_eq!(map.get(&keyword("b")), MalValue::nil());
    assert_eq!(map.get(&num(1.0)), MalValue::nil());
}

#[test]
fn maps_are_equal_whatever_their_order() {
    let one = MalValue::new_map(
        MalMap::from_arguments(&[keyword("a"), num(1.0), keyword("b"), num(2.0)]).unwrap(),
    );
    let other = MalValue::new_map(
        MalMap::from_arguments(&[keyword("b"), num(2.0), keyword("a"), num(1.0)]).unwrap(),
    );
    let different = MalValue::new_map(
        MalMap::from_arguments(&[keyword("a"), num(1.0), keyword("b"), num(3.0)]).unwrap(),
    );
    let smaller = MalValue::new_map(MalMap::from_arguments(&[keyword("a"), num(1.0)]).unwrap());
    let other_keys = MalValue::new_map(
        MalMap::from_arguments(&[keyword("a"), num(1.0), text("b"), num(2.0)]).unwrap(),
    );
    assert_eq!(one, other);
    assert_eq!(other, one);
    assert_ne!(one, different);
    assert_ne!(different, one);
    assert_ne!(one, smaller);
    assert_ne!(smaller, one);
    assert_ne!(one, other_keys);
    assert_ne!(other_keys, one);
}

#[test]
fn the_default_map_is_empty() {
    let map = MalMap::default();
    assert_eq!(map.len(), 0);
    assert_eq!(map.keys(), vec![]);
    assert!(!map.contains(&keyword("a")));
}
