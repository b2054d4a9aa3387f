use malrs::builtins::{count, eval_arithmetic_operation, nth, answer, Arithmetic, Event, Request};
use malrs::number::{
    is_numeral_chars, number_equal, number_less, number_less_equal, number_to_string, parse_number,
};
use malrs::types::{MalError, MalValue, MalValueType};

fn num(x: f64) -> MalValue {
    MalValue::new_number(x.to_bits())
}

fn bits_of(value: &MalValue) -> u64 {
    match &*value.mal_type {
        MalValueType::Number(bits) => *bits,
        other => panic!("expected a number, got {:?}", other),
    }
}

fn samples() -> Vec<f64> {
    vec![
        0.0,
        -0.0,
        1.0,
        -1.0,
        0.1,
        0.2,
        -0.3,
        2.5,
        1e-320,
        -1e-320,
        f64::MIN_POSITIVE,
        f64::MAX,
        f64::MIN,
        f64::INFINITY,
        f64::NEG_INFINITY,
        f64::NAN,
        -f64::NAN,
        123456789.125,
        9007199254740993.0,
        1e21,
        1e-7,
        3.0,
        7.0,
    ]
}

fn same(a: u64, b: f64) -> bool {
    if b.is_nan() {
        f64::from_bits(a).is_nan()
    } else {
        a == b.to_bits()
    }
}

fn apply(op: Arithmetic, a: f64, b: f64) -> u64 {
    bits_of(&eval_arithmetic_operation(&[num(a), num(b)], op).unwrap())
}

#[test]
fn sums_are_ieee_sums() {
    for a in samples() {
        for b in samples() {
            assert!(same(apply(Arithmetic::Add, a, b), a + b), "{} + {}", a, b);
        }
    }
    assert_eq!(apply(Arithmetic::Add, 0.1, 0.2), 0.30000000000000004f64.to_bits());
}

#[test]
fn differences_are_ieee_differences() {
    for a in samples() {
        for b in samples() {
            assert!(same(apply(Arithmetic::Subtract, a, b), a - b), "{} - {}", a, b);
        }
    }
    assert_eq!(apply(Arithmetic::Subtract, 5.0, 3.0), 2f64.to_bits());
}

#[test]
fn products_are_ieee_products() {
    for a in samples() {
        for b in samples() {
            assert!(same(apply(Arithmetic::Multiply, a, b), a * b), "{} * {}", a, b);
        }
    }
    assert_eq!(apply(Arithmetic::Multiply, 3.0, 4.0), 12f64.to_bits());
}

#[test]
fn quotients_are_ieee_quotients() {
    for a in samples() {
        for b in samples() {
            assert!(same(apply(Arithmetic::Divide, a, b), a / b), "{} / {}", a, b);
        }
    }
    assert_eq!(apply(Arithmetic::Divide, 1.0, 3.0), (1.0f64 / 3.0).to_bits());
}

#[test]
fn comparisons_are_ieee_comparisons() {
    for a in samples() {
        for b in samples() {
            assert_eq!(number_equal(a.to_bits(), b.to_bits()), a == b, "{} == {}", a, b);
            assert_eq!(number_less(a.to_bits(), b.to_bits()), a < b, "{} < {}", a, b);
            assert_eq!(number_less_equal(a.to_bits(), b.to_bits()), a <= b, "{} <= {}", a, b);
        }
    }
}

#[test]
fn counts_become_numbers() {
    let three = vec![num(1.0), num(2.0), num(3.0)];
    assert_eq!(count(&[MalValue::new_list(three)]), Ok(num(3.0)));
    assert_eq!(count(&[MalValue::new_list(Vec::new())]), Ok(num(0.0)));
    assert_eq!(count(&[MalValue::new_str("h\u{e9}llo".to_string())]), Ok(num(6.0)));
    let many: Vec<MalValue> = (0..1000).map(|i| num(i as f64)).collect();
    assert_eq!(count(&[MalValue::new_vector(many)]), Ok(num(1000.0)));
}

#[test]
fn the_clock_becomes_a_number() {
    assert_eq!(answer(&Request::Clock, Event::Time(0)), Ok(num(0.0)));
    assert_eq!(answer(&Request::Clock, Event::Time(1_500_000_000_123)), Ok(num(1_500_000_000_123.0)));
    assert_eq!(
        answer(&Request::Clock, Event::Time(u128::MAX)),
        Ok(num(u128::MAX as f64))
    );
    assert_eq!(
        answer(&Request::Clock, Event::Time(9007199254740993)),
        Ok(num(9007199254740993u128 as f64))
    );
    assert_eq!(
        answer(&Request::Clock, Event::Failed("no clock".to_string())),
        Err(MalError::RustFunction("Could not calculate the current time.".to_string()))
    );
}

#[test]
fn indices_are_cut_toward_zero() {
    let items = MalValue::new_list((0..10).map(|i| num(i as f64 * 10.0)).collect());
    for (index, expected) in [
        (0.0, 0.0),
        (0.9, 0.0),
        (1.0, 10.0),
        (1.5, 10.0),
        (9.999, 90.0),
        (-0.5, 0.0),
        (-3.0, 0.0),
        (f64::NAN, 0.0),
        (f64::NEG_INFINITY, 0.0),
    ] {
        assert_eq!(nth(&[items.clone(), num(index)]), Ok(num(expected)), "index {}", index);
    }
    for index in [10.0, 1e30, f64::INFINITY, 18446744073709551615.0] {
        assert_eq!(
            nth(&[items.clone(), num(index)]),
            Err(MalError::RustFunction("nth: index out of range".to_string())),
            "index {}",
            index
        );
    }
}

#[test]
fn numerals_are_parsed_as_the_nearest_number() {
    for text in [
        "0", "-0", "1", "-1", "+1", "14", "3.25", "0.1", "-0.5", "1e3", "1E3", "1.5e-3", "2.5E+10",
        "123456789012345678901234567890", "0.000000000000000000001", "1e400", "1e-400",
        "9007199254740993", "4.9e-324", "1.7976931348623157e308", "00012", "1.0",
    ] {
        let expected: f64 = text.parse().unwrap();
        assert_eq!(parse_number(text), Some(expected.to_bits()), "{}", text);
    }
}

#[test]
fn what_is_no_numeral_is_not_parsed() {
    for text in [
        "", "-", "+", ".", ".5", "5.", "1e", "1e+", "e5", "1.2.3", "1 ", " 1", "0x10", "inf", "NaN",
        "1f", "--1", "1e5.5", "abc", "1,5",
    ] {
        assert_eq!(parse_number(text), None, "{:?}", text);
        let chars: Vec<char> = text.chars().collect();
        assert!(!is_numeral_chars(&chars), "{:?}", text);
    }
    let long = "1".repeat(1025);
    assert_eq!(parse_number(&long), None);
    let fits = "1".repeat(1024);
    assert_eq!(parse_number(&fits), Some(fits.parse::<f64>().unwrap().to_bits()));
}

#[test]
fn numbers_are_written_with_the_fewest_digits() {
    for (value, text) in [
        (0.0, "0"),
        (-0.0, "-0"),
        (1.0, "1"),
        (10.0, "10"),
        (14.0, "14"),
        (-2.0, "-2"),
        (100.0, "100"),
        (10000.0, "10000"),
        (1234567890.0, "1234567890"),
        (12345678901234567.0, "12345678901234568"),
        (0.1, "0.1"),
        (0.5, "0.5"),
        (-12.5, "-12.5"),
        (0.30000000000000004, "0.30000000000000004"),
        (1.0 / 3.0, "0.3333333333333333"),
        (1e-7, "0.0000001"),
        (1e21, "1.0E+21"),
        (1.5e300, "1.5E+300"),
        (f64::INFINITY, "+Inf"),
        (f64::NEG_INFINITY, "-Inf"),
        (f64::NAN, "NaN"),
    ] {
        assert_eq!(number_to_string(value.to_bits()), text, "{}", value);
    }
}

#[test]
fn written_numbers_read_back() {
    for value in samples() {
        if value.is_finite() {
            let text = number_to_string(value.to_bits());
            assert_eq!(parse_number(&text), Some(value.to_bits()), "{} as {}", value, text);
        }
    }
    let mut x = 1.0f64;
    for _ in 0..200 {
        x = x * 1.37 + 0.011;
        let text = number_to_string(x.to_bits());
        assert_eq!(text.parse::<f64>().unwrap().to_bits(), x.to_bits(), "{}", text);
        let small = 1.0 / x;
        let text = number_to_string(small.to_bits());
        assert_eq!(text.parse::<f64>().unwrap().to_bits(), small.to_bits(), "{}", text);
    }
}
