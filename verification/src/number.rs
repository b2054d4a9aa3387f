//! Numbers are IEEE 754 binary64 values, carried as their bit patterns.
//!
//! Comparison is decided here on the bit patterns. Arithmetic, conversion and decimal
//! text come from `rustc_apfloat`, a software implementation of IEEE arithmetic.
use crate::text::chars_of;
use rustc_apfloat::ieee::Double;
use rustc_apfloat::Float;
use vstd::prelude::*;

verus! {

/// The bit that holds the sign.
pub const SIGN_BIT: u64 = 0x8000_0000_0000_0000;

/// The bits of positive infinity: every magnitude above it is a NaN.
pub const INFINITY_BITS: u64 = 0x7ff0_0000_0000_0000;

/// The longest numeral that is handed to the decimal parser.
pub const MAX_NUMERAL_LEN: usize = 1024;

/// The bits of a number without its sign.
pub open spec fn magnitude(bits: u64) -> u64 {
    if bits >= SIGN_BIT {
        (bits - SIGN_BIT) as u64
    } else {
        bits
    }
}

/// Whether the bits hold a NaN.
pub open spec fn is_nan(bits: u64) -> bool {
    magnitude(bits) > INFINITY_BITS
}

/// An integer that orders the numbers that are no NaN as IEEE 754 does: both zeros are 0.
pub open spec fn order_key(bits: u64) -> int {
    if bits >= SIGN_BIT {
        -(magnitude(bits) as int)
    } else {
        bits as int
    }
}

/// IEEE equality: a NaN equals nothing, the two zeros are equal.
pub open spec fn number_eq(a: u64, b: u64) -> bool {
    !is_nan(a) && !is_nan(b) && order_key(a) == order_key(b)
}

/// IEEE less-than: false where either side is a NaN.
pub open spec fn number_lt(a: u64, b: u64) -> bool {
    !is_nan(a) && !is_nan(b) && order_key(a) < order_key(b)
}

/// IEEE less-than-or-equal: false where either side is a NaN.
pub open spec fn number_le(a: u64, b: u64) -> bool {
    !is_nan(a) && !is_nan(b) && order_key(a) <= order_key(b)
}

/// The sum of two numbers, rounded to nearest, ties to even.
pub uninterp spec fn number_sum(a: u64, b: u64) -> u64;

/// The difference of two numbers, rounded to nearest, ties to even.
pub uninterp spec fn number_difference(a: u64, b: u64) -> u64;

/// The product of two numbers, rounded to nearest, ties to even.
pub uninterp spec fn number_product(a: u64, b: u64) -> u64;

/// The quotient of two numbers, rounded to nearest, ties to even.
pub uninterp spec fn number_quotient(a: u64, b: u64) -> u64;

/// The number nearest to a non-negative integer, ties to even.
pub uninterp spec fn number_from_int(n: u128) -> u64;

/// A number cut to an integer of 64 bits: rounded toward zero, 0 for a NaN and for what
/// lies below 0, the largest integer for what lies above it.
pub uninterp spec fn number_to_index(bits: u64) -> u64;

/// The number that a decimal numeral denotes, where the parser accepts the numeral.
pub uninterp spec fn parsed_number(text: Seq<char>) -> Option<u64>;

/// The decimal text of a number with at most `digits` significant digits, written with
/// an exponent where it would need more than `zeros` zeros of padding or more than
/// `digits` digits before the point.
pub uninterp spec fn number_text(bits: u64, zeros: nat, digits: nat) -> Seq<char>;

/// Calls `+` of `rustc_apfloat::ieee::Double` (`Float::add_r`, nearest, ties to even) on
/// the numbers with the given bits; the contract names the bits of the sum.
#[verifier::external_body]
pub(crate) fn float_add(a: u64, b: u64) -> (r: u64)
    ensures
        r == number_sum(a, b),
{
    (Double::from_bits(a as u128) + Double::from_bits(b as u128)).value.to_bits() as u64
}

/// Calls `-` of `rustc_apfloat::ieee::Double` (`Float::sub_r`, nearest, ties to even); the
/// contract names the bits of the difference.
#[verifier::external_body]
pub(crate) fn float_sub(a: u64, b: u64) -> (r: u64)
    ensures
        r == number_difference(a, b),
{
    (Double::from_bits(a as u128) - Double::from_bits(b as u128)).value.to_bits() as u64
}

/// Calls `*` of `rustc_apfloat::ieee::Double` (`Float::mul_r`, nearest, ties to even); the
/// contract names the bits of the product.
#[verifier::external_body]
pub(crate) fn float_mul(a: u64, b: u64) -> (r: u64)
    ensures
        r == number_product(a, b),
{
    (Double::from_bits(a as u128) * Double::from_bits(b as u128)).value.to_bits() as u64
}

/// Calls `/` of `rustc_apfloat::ieee::Double` (`Float::div_r`, nearest, ties to even); the
/// contract names the bits of the quotient. Division by zero gives an infinity or a NaN.
#[verifier::external_body]
pub(crate) fn float_div(a: u64, b: u64) -> (r: u64)
    ensures
        r == number_quotient(a, b),
{
    (Double::from_bits(a as u128) / Double::from_bits(b as u128)).value.to_bits() as u64
}

/// Calls `Float::from_u128` of `rustc_apfloat::ieee::Double`, which rounds the integer to
/// the nearest number; the contract names its bits.
#[verifier::external_body]
pub(crate) fn float_from_int(n: u128) -> (r: u64)
    ensures
        r == number_from_int(n),
{
    Double::from_u128(n).value.to_bits() as u64
}

/// Calls `Float::to_u128` of `rustc_apfloat::ieee::Double` with a width of 64 bits, which
/// rounds toward zero and gives 0 or the largest integer where the number does not fit;
/// the contract names the integer.
#[verifier::external_body]
pub(crate) fn float_to_index(bits: u64) -> (r: u64)
    ensures
        r == number_to_index(bits),
{
    Double::from_bits(bits as u128).to_u128(64).value as u64
}

/// Calls `str::parse` for `rustc_apfloat::ieee::Double` (`Float::from_str_r`, nearest, ties
/// to even) on a decimal numeral; the contract names the bits of the number, or `None`
/// where the parser refuses the text.
#[verifier::external_body]
pub(crate) fn float_parse(text: &str) -> (r: Option<u64>)
    requires
        is_numeral(text@),
        text@.len() <= MAX_NUMERAL_LEN,
    ensures
        r == parsed_number(text@),
{
    match text.parse::<Double>() {
        Ok(x) => Some(x.to_bits() as u64),
        Err(_) => None,
    }
}

/// Formats with `Display` of `rustc_apfloat::ieee::Double`, with a width of `zeros` and a
/// precision of `digits`: at most `digits` significant digits, and an exponent where
/// more than `zeros` zeros would be inserted or the digits before the point would be
/// more than `digits`. The contract names the text.
#[verifier::external_body]
pub(crate) fn float_format(bits: u64, zeros: usize, digits: usize) -> (r: String)
    requires
        1 <= digits <= 17,
    ensures
        r@ == number_text(bits, zeros as nat, digits as nat),
{
    format!("{:1$.2$}", Double::from_bits(bits as u128), zeros, digits)
}

/// Whether `c` is a decimal digit.
pub open spec fn is_digit(c: char) -> bool {
    '0' <= c <= '9'
}

/// The index past the digits of `s` that start at `from`.
pub open spec fn skip_digits(s: Seq<char>, from: int) -> int
    decreases s.len() - from,
{
    if 0 <= from < s.len() && is_digit(s[from]) {
        skip_digits(s, from + 1)
    } else {
        from
    }
}

/// The index past an optional sign at `from`.
pub open spec fn skip_sign(s: Seq<char>, from: int) -> int {
    if 0 <= from < s.len() && (s[from] == '-' || s[from] == '+') {
        from + 1
    } else {
        from
    }
}

/// A decimal numeral: an optional sign, digits, an optional point with digits after it,
/// and an optional exponent (`e` or `E`, an optional sign, digits).
pub open spec fn is_numeral(s: Seq<char>) -> bool {
    let a = skip_sign(s, 0);
    let b = skip_digits(s, a);
    let c = if b < s.len() && s[b] == '.' {
        skip_digits(s, b + 1)
    } else {
        b
    };
    let frac_ok = b < s.len() && s[b] == '.' ==> c > b + 1;
    let d = if c < s.len() && (s[c] == 'e' || s[c] == 'E') {
        skip_digits(s, skip_sign(s, c + 1))
    } else {
        c
    };
    let exp_ok = c < s.len() && (s[c] == 'e' || s[c] == 'E') ==> d > skip_sign(s, c + 1);
    b > a && frac_ok && exp_ok && d == s.len()
}

/// The index past the digits that start at `from`.
fn scan_digits(s: &Vec<char>, from: usize) -> (r: usize)
    requires
        from <= s.len(),
    ensures
        r == skip_digits(s@, from as int),
        from <= r <= s.len(),
{
    let mut i = from;
    while i < s.len() && s[i] >= '0' && s[i] <= '9'
        invariant
            from <= i <= s.len(),
            skip_digits(s@, from as int) == skip_digits(s@, i as int),
        decreases s.len() - i,
    {
        i += 1;
    }
    i
}

/// The index past an optional sign at `from`.
fn scan_sign(s: &Vec<char>, from: usize) -> (r: usize)
    requires
        from <= s.len(),
    ensures
        r == skip_sign(s@, from as int),
        from <= r <= s.len(),
{
    if from < s.len() && (s[from] == '-' || s[from] == '+') {
        from + 1
    } else {
        from
    }
}

/// Decides whether the characters form a decimal numeral.
pub fn is_numeral_chars(s: &Vec<char>) -> (r: bool)
    ensures
        r == is_numeral(s@),
{
    let a = scan_sign(s, 0);
    let b = scan_digits(s, a);
    if b == a {
        return false;
    }
    let mut c = b;
    if b < s.len() && s[b] == '.' {
        c = scan_digits(s, b + 1);
        if c == b + 1 {
            return false;
        }
    }
    let mut d = c;
    if c < s.len() && (s[c] == 'e' || s[c] == 'E') {
        let e = scan_sign(s, c + 1);
        d = scan_digits(s, e);
        if d == e {
            return false;
        }
    }
    d == s.len()
}

/// How many zeros a number is padded with before an exponent is written instead: enough
/// for every number.
pub const MAX_ZEROS: usize = 1100;

/// The text of a number with at most `digits` significant digits.
pub open spec fn digits_text(bits: u64, digits: nat) -> Seq<char> {
    number_text(bits, MAX_ZEROS as nat, digits)
}

/// Whether the text is written without an exponent.
pub open spec fn is_positional(text: Seq<char>) -> bool {
    forall|i: int| 0 <= i < text.len() ==> text[i] != 'E' && text[i] != 'e'
}

/// Whether the text with `digits` significant digits reads back as the same number, and
/// is written without an exponent where `positional` asks for that.
pub open spec fn reads_back(bits: u64, digits: nat, positional: bool) -> bool {
    let text = digits_text(bits, digits);
    is_numeral(text) && text.len() <= MAX_NUMERAL_LEN && parsed_number(text) == Some(bits) && (
    positional ==> is_positional(text))
}

/// The least number of digits, from `from` up to 17, whose text reads back.
pub open spec fn shortest_digits(bits: u64, from: nat, positional: bool) -> Option<nat>
    decreases 18 - from,
{
    if from > 17 {
        None
    } else if reads_back(bits, from, positional) {
        Some(from)
    } else {
        shortest_digits(bits, from + 1, positional)
    }
}

/// The text of a number: with the fewest digits that read back as the same number,
/// without an exponent where that is possible with 17 digits; the text with 17 digits
/// where none reads back (an infinity, a NaN).
pub open spec fn shortest_text(bits: u64) -> Seq<char> {
    match shortest_digits(bits, 1, true) {
        Some(d) => digits_text(bits, d),
        None => match shortest_digits(bits, 1, false) {
            Some(d) => digits_text(bits, d),
            None => digits_text(bits, 17),
        },
    }
}

/// Decides whether the text is written without an exponent.
fn positional_chars(s: &Vec<char>) -> (r: bool)
    ensures
        r == is_positional(s@),
{
    let mut i: usize = 0;
    while i < s.len()
        invariant
            i <= s@.len(),
            forall|j: int| 0 <= j < i ==> s@[j] != 'E' && s@[j] != 'e',
        decreases s.len() - i,
    {
        if s[i] == 'E' || s[i] == 'e' {
            return false;
        }
        i += 1;
    }
    true
}

/// The text with the fewest digits that reads back, if there is one.
fn shortest(bits: u64, positional: bool) -> (r: Option<String>)
    ensures
        match shortest_digits(bits, 1, positional) {
            Some(d) => r matches Some(text) && text@ == digits_text(bits, d),
            None => r is None,
        },
{
    let mut digits: usize = 1;
    while digits <= 17
        invariant
            1 <= digits <= 18,
            shortest_digits(bits, 1, positional) == shortest_digits(bits, digits as nat, positional),
        decreases 18 - digits,
    {
        let text = float_format(bits, MAX_ZEROS, digits);
        let chars = chars_of(text.as_str());
        if chars.len() <= MAX_NUMERAL_LEN && is_numeral_chars(&chars) && (!positional
            || positional_chars(&chars)) {
            let back = float_parse(text.as_str());
            if back == Some(bits) {
                return Some(text);
            }
        }
        digits += 1;
    }
    None
}

/// Renders a number with as few digits as read back as the same number.
pub fn number_to_string(bits: u64) -> (r: String)
    ensures
        r@ == shortest_text(bits),
{
    match shortest(bits, true) {
        Some(text) => text,
        None => match shortest(bits, false) {
            Some(text) => text,
            None => float_format(bits, MAX_ZEROS, 17),
        },
    }
}

/// Reads a decimal numeral; `None` where the text is no numeral, is longer than
/// `MAX_NUMERAL_LEN`, or is refused by the parser.
pub fn parse_number(text: &str) -> (r: Option<u64>)
    ensures
        r == if is_numeral(text@) && text@.len() <= MAX_NUMERAL_LEN {
            parsed_number(text@)
        } else {
            None
        },
{
    let chars = chars_of(text);
    if chars.len() <= MAX_NUMERAL_LEN && is_numeral_chars(&chars) {
        float_parse(text)
    } else {
        None
    }
}

/// Decides IEEE equality of two numbers.
pub fn number_equal(a: u64, b: u64) -> (r: bool)
    ensures
        r == number_eq(a, b),
{
    let ma = if a >= SIGN_BIT { a - SIGN_BIT } else { a };
    let mb = if b >= SIGN_BIT { b - SIGN_BIT } else { b };
    if ma > INFINITY_BITS || mb > INFINITY_BITS {
        false
    } else if ma == 0 && mb == 0 {
        true
    } else {
        a == b
    }
}

/// Decides IEEE less-than of two numbers.
pub fn number_less(a: u64, b: u64) -> (r: bool)
    ensures
        r == number_lt(a, b),
{
    let ma = if a >= SIGN_BIT { a - SIGN_BIT } else { a };
    let mb = if b >= SIGN_BIT { b - SIGN_BIT } else { b };
    if ma > INFINITY_BITS || mb > INFINITY_BITS {
        false
    } else if a >= SIGN_BIT {
        if b >= SIGN_BIT {
            mb < ma
        } else {
            ma != 0 || mb != 0
        }
    } else {
        if b >= SIGN_BIT {
            false
        } else {
            ma < mb
        }
    }
}

/// Decides IEEE less-than-or-equal of two numbers.
pub fn number_less_equal(a: u64, b: u64) -> (r: bool)
    ensures
        r == number_le(a, b),
{
    number_less(a, b) || number_equal(a, b)
}

} // verus!
