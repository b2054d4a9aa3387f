//! The builtin library: the native functions that the root environment starts with.
//!
//! A native function works on evaluated arguments. Most give a value or an error at
//! once; a few ask the evaluator to go on (`eval`, `apply`, `map`, `swap!`) or ask the
//! host for input or output.
use crate::atoms::{cell_get, cell_set, Atoms};
use crate::equality::{values_eq, values_equal};
use crate::map::{
    map_assoc_result, map_contains, map_dissoc_result, map_get, map_keys, map_vals,
};
use crate::number::{
    float_add, float_div, float_from_int, float_mul, float_sub, float_to_index, number_difference,
    number_from_int, number_le, number_less, number_less_equal, number_lt, number_product,
    number_quotient, number_sum, number_to_index,
};
use crate::printer::{joined_text, pr_strs};
use crate::text::{chars_of, decimal, push_decimal};
use crate::types::{
    lemma_value_view, result_view, views, Builtin, EnvId, ErrView, Kind, MalError, MalMap,
    MalResult, MalValue, MalValueType, Val,
};
use vstd::prelude::*;
use vstd::string::StringExecFns;
use vstd::utf8::encode_utf8;

verus! {

/// The error of a native function, with its message.
pub open spec fn native_error(message: Seq<char>) -> ErrView {
    ErrView::RustFunction(message)
}

/// The word for arguments after a count: singular after one.
pub open spec fn argument_word(count: nat) -> Seq<char> {
    if count == 1 {
        " argument"@
    } else {
        " arguments"@
    }
}

/// The error for a call that needs exactly `expected` arguments and got `actual`.
pub open spec fn count_error(expected: nat, actual: nat) -> ErrView {
    native_error(
        "Expected "@ + decimal(expected) + argument_word(expected) + ", got "@ + decimal(actual),
    )
}

/// The error for a call that needs at least `min_args` arguments and got `actual`.
pub open spec fn at_least_error(min_args: nat, actual: nat) -> ErrView {
    native_error(
        "Expected at least "@ + decimal(min_args) + argument_word(min_args) + ", got "@ + decimal(
            actual,
        ),
    )
}

/// The model of a check's result.
pub open spec fn check_view(r: Result<(), MalError>) -> Result<(), ErrView> {
    match r {
        Ok(_) => Ok(()),
        Err(e) => Err(e@),
    }
}

/// The error of a native function with the given message.
fn native(message: &str) -> (e: MalError)
    ensures
        e@ == native_error(message@),
{
    MalError::RustFunction(String::from_str(message))
}

/// Appends the word for arguments after a count.
fn push_argument_word(s: &mut String, count: usize)
    ensures
        final(s)@ == old(s)@ + argument_word(count as nat),
{
    if count == 1 {
        s.append(" argument");
    } else {
        s.append(" arguments");
    }
}

/// Checks that there are exactly `expected` arguments.
pub fn arg_count_eq(args: &[MalValue], expected: usize) -> (r: Result<(), MalError>)
    ensures
        check_view(r) == if args@.len() == expected {
            Ok::<(), ErrView>(())
        } else {
            Err(count_error(expected as nat, args@.len()))
        },
{
    if args.len() != expected {
        let mut s = String::from_str("Expected ");
        push_decimal(&mut s, expected);
        push_argument_word(&mut s, expected);
        s.append(", got ");
        push_decimal(&mut s, args.len());
        return Err(MalError::RustFunction(s));
    }
    Ok(())
}

/// Checks that there are at least `min_args` arguments.
pub fn arg_count_gte(args: &[MalValue], min_args: usize) -> (r: Result<(), MalError>)
    ensures
        check_view(r) == if args@.len() >= min_args {
            Ok::<(), ErrView>(())
        } else {
            Err(at_least_error(min_args as nat, args@.len()))
        },
{
    if args.len() < min_args {
        let mut s = String::from_str("Expected at least ");
        push_decimal(&mut s, min_args);
        push_argument_word(&mut s, min_args);
        s.append(", got ");
        push_decimal(&mut s, args.len());
        return Err(MalError::RustFunction(s));
    }
    Ok(())
}

/// The number that an argument holds, or the error for an argument that is no number.
pub open spec fn number_arg(v: Val) -> Result<u64, ErrView> {
    match v.kind {
        Kind::Number(n) => Ok(n),
        _ => Err(native_error("Argument must be a number"@)),
    }
}

/// The model of a result that holds the bits of a number.
pub open spec fn bits_view(r: Result<u64, MalError>) -> Result<u64, ErrView> {
    match r {
        Ok(n) => Ok(n),
        Err(e) => Err(e@),
    }
}

/// The bits of the number that the argument holds.
pub fn get_number_arg(arg: &MalValue) -> (r: Result<u64, MalError>)
    ensures
        bits_view(r) == number_arg(arg@),
{
    proof {
        lemma_value_view(*arg);
    }
    match &*arg.mal_type {
        MalValueType::Number(n) => Ok(*n),
        _ => Err(native("Argument must be a number")),
    }
}

/// The four operations of arithmetic.
#[derive(Clone, Copy, Debug, PartialEq, Eq, Structural)]
pub enum Arithmetic {
    Add,
    Subtract,
    Multiply,
    Divide,
}

/// The result of an operation of arithmetic on two numbers.
pub open spec fn arithmetic(op: Arithmetic, a: u64, b: u64) -> u64 {
    match op {
        Arithmetic::Add => number_sum(a, b),
        Arithmetic::Subtract => number_difference(a, b),
        Arithmetic::Multiply => number_product(a, b),
        Arithmetic::Divide => number_quotient(a, b),
    }
}

/// What an operation on exactly two numbers gives, or the first error: of the count, of
/// the first argument, of the second.
pub open spec fn arithmetic_result(args: Seq<Val>, op: Arithmetic) -> Result<Val, ErrView> {
    if args.len() != 2 {
        Err(count_error(2, args.len()))
    } else {
        match number_arg(args[0]) {
            Err(e) => Err(e),
            Ok(a) => match number_arg(args[1]) {
                Err(e) => Err(e),
                Ok(b) => Ok(Val::number(arithmetic(op, a, b))),
            },
        }
    }
}

/// Applies an operation of arithmetic to exactly two numbers.
pub fn eval_arithmetic_operation(args: &[MalValue], op: Arithmetic) -> (r: MalResult)
    ensures
        result_view(r) == arithmetic_result(views(args@), op),
{
    arg_count_eq(args, 2)?;
    let arg_1 = get_number_arg(&args[0])?;
    let arg_2 = get_number_arg(&args[1])?;
    let bits = match op {
        Arithmetic::Add => float_add(arg_1, arg_2),
        Arithmetic::Subtract => float_sub(arg_1, arg_2),
        Arithmetic::Multiply => float_mul(arg_1, arg_2),
        Arithmetic::Divide => float_div(arg_1, arg_2),
    };
    Ok(MalValue::new_number(bits))
}

/// The four comparisons of numbers.
#[derive(Clone, Copy, Debug, PartialEq, Eq, Structural)]
pub enum Comparison {
    Lt,
    Lte,
    Gt,
    Gte,
}

/// Whether a comparison holds of two numbers.
pub open spec fn compares(op: Comparison, a: u64, b: u64) -> bool {
    match op {
        Comparison::Lt => number_lt(a, b),
        Comparison::Lte => number_le(a, b),
        Comparison::Gt => number_lt(b, a),
        Comparison::Gte => number_le(b, a),
    }
}

/// What a comparison of exactly two numbers gives, or the first error.
pub open spec fn comparison_result(args: Seq<Val>, op: Comparison) -> Result<Val, ErrView> {
    if args.len() != 2 {
        Err(count_error(2, args.len()))
    } else {
        match number_arg(args[0]) {
            Err(e) => Err(e),
            Ok(a) => match number_arg(args[1]) {
                Err(e) => Err(e),
                Ok(b) => Ok(Val::boolean(compares(op, a, b))),
            },
        }
    }
}

/// Compares exactly two numbers.
fn compare_numbers(args: &[MalValue], op: Comparison) -> (r: MalResult)
    ensures
        result_view(r) == comparison_result(views(args@), op),
{
    arg_count_eq(args, 2)?;
    let arg_1 = get_number_arg(&args[0])?;
    let arg_2 = get_number_arg(&args[1])?;
    let holds = match op {
        Comparison::Lt => number_less(arg_1, arg_2),
        Comparison::Lte => number_less_equal(arg_1, arg_2),
        Comparison::Gt => number_less(arg_2, arg_1),
        Comparison::Gte => number_less_equal(arg_2, arg_1),
    };
    Ok(MalValue::new_boolean(holds))
}

/// The questions that a predicate of one argument asks of a value.
#[derive(Clone, Copy, Debug, PartialEq, Eq, Structural)]
pub enum Question {
    IsList,
    IsAtom,
    IsNil,
    IsTrue,
    IsFalse,
    IsSymbol,
    IsKeyword,
    IsVector,
    IsSequential,
    IsMap,
    IsString,
    IsNumber,
    IsFn,
    IsMacro,
}

/// The answer to a question about a value.
pub open spec fn answers(q: Question, v: Val) -> bool {
    match q {
        Question::IsList => v.kind is List,
        Question::IsAtom => v.kind is Atom,
        Question::IsNil => v.kind is Nil,
        Question::IsTrue => v.kind is True,
        Question::IsFalse => v.kind is False,
        Question::IsSymbol => v.kind is Symbol,
        Question::IsKeyword => v.kind is Keyword,
        Question::IsVector => v.kind is Vector,
        Question::IsSequential => v.kind is List || v.kind is Vector,
        Question::IsMap => v.kind is HashMap,
        Question::IsString => v.kind is Str,
        Question::IsNumber => v.kind is Number,
        Question::IsFn => v.is_function(),
        Question::IsMacro => v.is_macro(),
    }
}

/// What a predicate gives: the answer for its one argument, or the error of the count.
pub open spec fn predicate_result(args: Seq<Val>, q: Question) -> Result<Val, ErrView> {
    if args.len() != 1 {
        Err(count_error(1, args.len()))
    } else {
        Ok(Val::boolean(answers(q, args[0])))
    }
}

/// Answers a question about its one argument.
fn predicate(args: &[MalValue], q: Question) -> (r: MalResult)
    ensures
        result_view(r) == predicate_result(views(args@), q),
{
    arg_count_eq(args, 1)?;
    let v = &args[0];
    proof {
        lemma_value_view(*v);
    }
    let answer = match q {
        Question::IsList => v.is_list(),
        Question::IsAtom => v.is_atom(),
        Question::IsNil => matches!(&*v.mal_type, MalValueType::Nil),
        Question::IsTrue => matches!(&*v.mal_type, MalValueType::True),
        Question::IsFalse => matches!(&*v.mal_type, MalValueType::False),
        Question::IsSymbol => matches!(&*v.mal_type, MalValueType::Symbol(_)),
        Question::IsKeyword => matches!(&*v.mal_type, MalValueType::Keyword(_)),
        Question::IsVector => matches!(&*v.mal_type, MalValueType::Vector(_)),
        Question::IsSequential => matches!(&*v.mal_type, MalValueType::List(_))
            || matches!(&*v.mal_type, MalValueType::Vector(_)),
        Question::IsMap => matches!(&*v.mal_type, MalValueType::HashMap(_)),
        Question::IsString => v.is_string(),
        Question::IsNumber => v.is_number(),
        Question::IsFn => v.is_function(),
        Question::IsMacro => v.is_macro(),
    };
    Ok(MalValue::new_boolean(answer))
}

/// `list?`: whether the argument is a list.
pub fn is_list(args: &[MalValue]) -> (r: MalResult)
    ensures
        result_view(r) == predicate_result(views(args@), Question::IsList),
{
    predicate(args, Question::IsList)
}

/// `atom?`: whether the argument is a mutable cell.
pub fn is_atom(args: &[MalValue]) -> (r: MalResult)
    ensures
        result_view(r) == predicate_result(views(args@), Question::IsAtom),
{
    predicate(args, Question::IsAtom)
}

/// `nil?`: whether the argument is `nil`.
pub fn is_nil(args: &[MalValue]) -> (r: MalResult)
    ensures
        result_view(r) == predicate_result(views(args@), Question::IsNil),
{
    predicate(args, Question::IsNil)
}

/// `true?`: whether the argument is `true`.
pub fn is_true(args: &[MalValue]) -> (r: MalResult)
    ensures
        result_view(r) == predicate_result(views(args@), Question::IsTrue),
{
    predicate(args, Question::IsTrue)
}

/// `false?`: whether the argument is `false`.
pub fn is_false(args: &[MalValue]) -> (r: MalResult)
    ensures
        result_view(r) == predicate_result(views(args@), Question::IsFalse),
{
    predicate(args, Question::IsFalse)
}

/// `symbol?`: whether the argument is a symbol.
pub fn is_symbol(args: &[MalValue]) -> (r: MalResult)
    ensures
        result_view(r) == predicate_result(views(args@), Question::IsSymbol),
{
    predicate(args, Question::IsSymbol)
}

/// `keyword?`: whether the argument is a keyword.
pub fn is_keyword(args: &[MalValue]) -> (r: MalResult)
    ensures
        result_view(r) == predicate_result(views(args@), Question::IsKeyword),
{
    predicate(args, Question::IsKeyword)
}

/// `vector?`: whether the argument is a vector.
pub fn is_vector(args: &[MalValue]) -> (r: MalResult)
    ensures
        result_view(r) == predicate_result(views(args@), Question::IsVector),
{
    predicate(args, Question::IsVector)
}

/// `sequential?`: whether the argument is a list or a vector.
pub fn is_sequential(args: &[MalValue]) -> (r: MalResult)
    ensures
        result_view(r) == predicate_result(views(args@), Question::IsSequential),
{
    predicate(args, Question::IsSequential)
}

/// `map?`: whether the argument is a map.
pub fn is_map(args: &[MalValue]) -> (r: MalResult)
    ensures
        result_view(r) == predicate_result(views(args@), Question::IsMap),
{
    predicate(args, Question::IsMap)
}

/// `string?`: whether the argument is a string.
pub fn is_string(args: &[MalValue]) -> (r: MalResult)
    ensures
        result_view(r) == predicate_result(views(args@), Question::IsString),
{
    predicate(args, Question::IsString)
}

/// `number?`: whether the argument is a number.
pub fn is_number(args: &[MalValue]) -> (r: MalResult)
    ensures
        result_view(r) == predicate_result(views(args@), Question::IsNumber),
{
    predicate(args, Question::IsNumber)
}

/// `fn?`: whether the argument is a function, native or user-defined.
pub fn is_fn(args: &[MalValue]) -> (r: MalResult)
    ensures
        result_view(r) == predicate_result(views(args@), Question::IsFn),
{
    predicate(args, Question::IsFn)
}

/// `macro?`: whether the argument is a macro.
pub fn is_macro(args: &[MalValue]) -> (r: MalResult)
    ensures
        result_view(r) == predicate_result(views(args@), Question::IsMacro),
{
    predicate(args, Question::IsMacro)
}

/// `<`: whether the first number is less than the second.
pub fn lt(args: &[MalValue]) -> (r: MalResult)
    ensures
        result_view(r) == comparison_result(views(args@), Comparison::Lt),
{
    compare_numbers(args, Comparison::Lt)
}

/// `<=`: whether the first number is less than or equal to the second.
pub fn lte(args: &[MalValue]) -> (r: MalResult)
    ensures
        result_view(r) == comparison_result(views(args@), Comparison::Lte),
{
    compare_numbers(args, Comparison::Lte)
}

/// `>`: whether the first number is greater than the second.
pub fn gt(args: &[MalValue]) -> (r: MalResult)
    ensures
        result_view(r) == comparison_result(views(args@), Comparison::Gt),
{
    compare_numbers(args, Comparison::Gt)
}

/// `>=`: whether the first number is greater than or equal to the second.
pub fn gte(args: &[MalValue]) -> (r: MalResult)
    ensures
        result_view(r) == comparison_result(views(args@), Comparison::Gte),
{
    compare_numbers(args, Comparison::Gte)
}

/// Copies the values of `src` from index `from` up to `to` to the end of `out`.
pub(crate) fn append_range(out: &mut Vec<MalValue>, src: &[MalValue], from: usize, to: usize)
    requires
        from <= to <= src@.len(),
    ensures
        views(final(out)@) == views(old(out)@) + views(src@).subrange(from as int, to as int),
        final(out)@.len() == old(out)@.len() + (to - from),
{
    let mut i = from;
    while i < to
        invariant
            from <= i <= to <= src@.len(),
            out@.len() == old(out)@.len() + (i - from),
            views(out@) == views(old(out)@) + views(src@).subrange(from as int, i as int),
        decreases to - i,
    {
        let ghost before = out@;
        out.push(src[i].clone());
        assert(views(out@) =~= views(before).push(src@[i as int]@));
        assert(views(src@).subrange(from as int, i + 1) =~= views(src@).subrange(
            from as int,
            i as int,
        ).push(src@[i as int]@));
        assert(views(out@) =~= views(old(out)@) + views(src@).subrange(from as int, i + 1));
        i += 1;
    }
}

/// The values of `src` from index `from` up to `to`.
pub(crate) fn copy_range(src: &[MalValue], from: usize, to: usize) -> (r: Vec<MalValue>)
    requires
        from <= to <= src@.len(),
    ensures
        views(r@) == views(src@).subrange(from as int, to as int),
        r@.len() == to - from,
{
    let mut out: Vec<MalValue> = Vec::new();
    append_range(&mut out, src, from, to);
    assert(views(out@) =~= views(src@).subrange(from as int, to as int));
    out
}

/// `list`: the arguments as a list.
pub fn list(args: &[MalValue]) -> (r: MalResult)
    ensures
        result_view(r) == Ok::<Val, ErrView>(Val::list(views(args@))),
{
    let v = copy_range(args, 0, args.len());
    assert(views(v@) =~= views(args@));
    Ok(MalValue::new_list(v))
}

/// `vector`: the arguments as a vector.
pub fn vector(args: &[MalValue]) -> (r: MalResult)
    ensures
        result_view(r) == Ok::<Val, ErrView>(Val::vector(views(args@))),
{
    let v = copy_range(args, 0, args.len());
    assert(views(v@) =~= views(args@));
    Ok(MalValue::new_vector(v))
}

/// What `cons` gives: the first argument in front of the elements of the second.
pub open spec fn cons_result(args: Seq<Val>) -> Result<Val, ErrView> {
    if args.len() != 2 {
        Err(count_error(2, args.len()))
    } else {
        match args[1].items() {
            Some(items) => Ok(Val::list(seq![args[0]] + items)),
            None => Err(native_error("Invalid 2nd argument"@)),
        }
    }
}

/// `cons`: puts a value in front of the elements of a list or vector.
pub fn cons(args: &[MalValue]) -> (r: MalResult)
    ensures
        result_view(r) == cons_result(views(args@)),
{
    arg_count_eq(args, 2)?;
    match args[1].as_items() {
        Some(vec) => {
            let mut new_vec: Vec<MalValue> = Vec::new();
            new_vec.push(args[0].clone());
            append_range(&mut new_vec, vec.as_slice(), 0, vec.len());
            assert(views(new_vec@) =~= seq![args@[0]@] + views(vec@));
            Ok(MalValue::new_list(new_vec))
        },
        None => Err(native("Invalid 2nd argument")),
    }
}

/// Whether the first `n` arguments are all lists or vectors.
pub open spec fn all_sequences(args: Seq<Val>, n: int) -> bool {
    forall|i: int| 0 <= i < n ==> (#[trigger] args[i]).items() is Some
}

/// The elements of the first `n` arguments, one after the other.
pub open spec fn concatenated(args: Seq<Val>, n: nat) -> Seq<Val>
    decreases n,
{
    if n == 0 {
        seq![]
    } else {
        concatenated(args, (n - 1) as nat) + match args[n - 1].items() {
            Some(items) => items,
            None => seq![],
        }
    }
}

/// What `concat` gives: one list of all the elements, or an error where an argument is
/// neither a list nor a vector.
pub open spec fn concat_result(args: Seq<Val>) -> Result<Val, ErrView> {
    if all_sequences(args, args.len() as int) {
        Ok(Val::list(concatenated(args, args.len())))
    } else {
        Err(native_error("Invalid argument"@))
    }
}

/// `concat`: joins the elements of lists and vectors into one list.
pub fn concat(args: &[MalValue]) -> (r: MalResult)
    ensures
        result_view(r) == concat_result(views(args@)),
{
    let ghost a = views(args@);
    let mut result_vec: Vec<MalValue> = Vec::new();
    let mut i: usize = 0;
    while i < args.len()
        invariant
            i <= args@.len(),
            a == views(args@),
            all_sequences(a, i as int),
            views(result_vec@) == concatenated(a, i as nat),
        decreases args.len() - i,
    {
        match args[i].as_items() {
            Some(vec) => {
                append_range(&mut result_vec, vec.as_slice(), 0, vec.len());
                assert(views(vec@).subrange(0, vec@.len() as int) =~= views(vec@));
            },
            None => {
                assert(a[i as int].items() is None);
                return Err(native("Invalid argument"));
            },
        }
        i += 1;
    }
    Ok(MalValue::new_list(result_vec))
}

/// What `empty?` gives: whether a list, a vector or a string has no elements.
pub open spec fn empty_result(args: Seq<Val>) -> Result<Val, ErrView> {
    if args.len() != 1 {
        Err(count_error(1, args.len()))
    } else {
        match args[0].kind {
            Kind::List(items) => Ok(Val::boolean(items.len() == 0)),
            Kind::Vector(items) => Ok(Val::boolean(items.len() == 0)),
            Kind::Str(s) => Ok(Val::boolean(s.len() == 0)),
            _ => Err(native_error("Invalid argument"@)),
        }
    }
}

/// `empty?`: whether a list, a vector or a string has no elements.
pub fn empty(args: &[MalValue]) -> (r: MalResult)
    ensures
        result_view(r) == empty_result(views(args@)),
{
    arg_count_eq(args, 1)?;
    proof {
        lemma_value_view(args@[0]);
    }
    match &*args[0].mal_type {
        MalValueType::List(vec) => Ok(MalValue::new_boolean(vec.len() == 0)),
        MalValueType::Vector(vec) => Ok(MalValue::new_boolean(vec.len() == 0)),
        MalValueType::Str(s) => Ok(MalValue::new_boolean(s.as_str().is_empty())),
        _ => Err(native("Invalid argument")),
    }
}

/// The number of bytes of a string in UTF-8.
pub open spec fn byte_count(s: Seq<char>) -> usize {
    encode_utf8(s).len() as usize
}

/// What `count` gives: the number of elements of a list or vector, the number of bytes of
/// a string in UTF-8, zero for `nil`.
pub open spec fn count_result(args: Seq<Val>) -> Result<Val, ErrView> {
    if args.len() != 1 {
        Err(count_error(1, args.len()))
    } else {
        match args[0].kind {
            Kind::List(items) => Ok(Val::number(number_from_int(items.len() as u128))),
            Kind::Vector(items) => Ok(Val::number(number_from_int(items.len() as u128))),
            Kind::Str(s) => Ok(Val::number(number_from_int(byte_count(s) as u128))),
            Kind::Nil => Ok(Val::number(number_from_int(0))),
            _ => Err(native_error("Invalid argument"@)),
        }
    }
}

/// `count`: the number of elements of a list or vector, or of bytes of a string.
pub fn count(args: &[MalValue]) -> (r: MalResult)
    ensures
        result_view(r) == count_result(views(args@)),
{
    arg_count_eq(args, 1)?;
    proof {
        lemma_value_view(args@[0]);
    }
    match &*args[0].mal_type {
        MalValueType::List(vec) => Ok(MalValue::new_number(float_from_int(vec.len() as u128))),
        MalValueType::Vector(vec) => Ok(MalValue::new_number(float_from_int(vec.len() as u128))),
        MalValueType::Str(s) => Ok(MalValue::new_number(float_from_int(s.as_str().len() as u128))),
        MalValueType::Nil => Ok(MalValue::new_number(float_from_int(0))),
        _ => Err(native("Invalid argument")),
    }
}

/// What `nth` gives: the element at the index, which is the second argument cut to an
/// integer. The index is looked at before the first argument.
pub open spec fn nth_result(args: Seq<Val>) -> Result<Val, ErrView> {
    if args.len() != 2 {
        Err(count_error(2, args.len()))
    } else {
        match number_arg(args[1]) {
            Err(e) => Err(e),
            Ok(index) => match args[0].items() {
                Some(items) => if number_to_index(index) < items.len() {
                    Ok(items[number_to_index(index) as int])
                } else {
                    Err(native_error("nth: index out of range"@))
                },
                None => Err(native_error("Invalid argument"@)),
            },
        }
    }
}

/// `nth`: the element at an index.
pub fn nth(args: &[MalValue]) -> (r: MalResult)
    ensures
        result_view(r) == nth_result(views(args@)),
{
    arg_count_eq(args, 2)?;
    let index = get_number_arg(&args[1])?;
    match args[0].as_items() {
        Some(vec) => {
            let i = float_to_index(index);
            if i < vec.len() as u64 {
                Ok(vec[i as usize].clone())
            } else {
                Err(native("nth: index out of range"))
            }
        },
        None => Err(native("Invalid argument")),
    }
}

/// What `first` gives: the first element, `nil` for an empty sequence and for `nil`.
pub open spec fn first_result(args: Seq<Val>) -> Result<Val, ErrView> {
    if args.len() != 1 {
        Err(count_error(1, args.len()))
    } else {
        match args[0].items() {
            Some(items) => if items.len() > 0 {
                Ok(items[0])
            } else {
                Ok(Val::nil())
            },
            None => if args[0].kind is Nil {
                Ok(Val::nil())
            } else {
                Err(native_error("Invalid argument"@))
            },
        }
    }
}

/// `first`: the first element of a list or vector.
pub fn first(args: &[MalValue]) -> (r: MalResult)
    ensures
        result_view(r) == first_result(views(args@)),
{
    arg_count_eq(args, 1)?;
    proof {
        lemma_value_view(args@[0]);
    }
    match args[0].as_items() {
        Some(vec) => {
            if vec.len() > 0 {
                Ok(vec[0].clone())
            } else {
                Ok(MalValue::nil())
            }
        },
        None => match &*args[0].mal_type {
            MalValueType::Nil => Ok(MalValue::nil()),
            _ => Err(native("Invalid argument")),
        },
    }
}

/// What `rest` gives: the list of the elements after the first; the empty list for an
/// empty sequence and for `nil`.
pub open spec fn rest_result(args: Seq<Val>) -> Result<Val, ErrView> {
    if args.len() != 1 {
        Err(count_error(1, args.len()))
    } else {
        match args[0].items() {
            Some(items) => if items.len() > 0 {
                Ok(Val::list(items.subrange(1, items.len() as int)))
            } else {
                Ok(Val::list(seq![]))
            },
            None => if args[0].kind is Nil {
                Ok(Val::list(seq![]))
            } else {
                Err(native_error("Invalid argument"@))
            },
        }
    }
}

/// `rest`: the list of all elements but the first.
pub fn rest(args: &[MalValue]) -> (r: MalResult)
    ensures
        result_view(r) == rest_result(views(args@)),
{
    arg_count_eq(args, 1)?;
    proof {
        lemma_value_view(args@[0]);
    }
    match args[0].as_items() {
        Some(vec) => {
            if vec.len() > 0 {
                Ok(MalValue::new_list(copy_range(vec.as_slice(), 1, vec.len())))
            } else {
                let e: Vec<MalValue> = Vec::new();
                assert(views(e@) =~= seq![]);
                Ok(MalValue::new_list(e))
            }
        },
        None => match &*args[0].mal_type {
            MalValueType::Nil => {
                let e: Vec<MalValue> = Vec::new();
                assert(views(e@) =~= seq![]);
                Ok(MalValue::new_list(e))
            },
            _ => Err(native("Invalid argument")),
        },
    }
}

/// What `conj` gives: for a list, the further arguments in reverse order in front of its
/// elements; for a vector, the further arguments behind its elements.
pub open spec fn conj_result(args: Seq<Val>) -> Result<Val, ErrView> {
    if args.len() < 2 {
        Err(at_least_error(2, args.len()))
    } else {
        match args[0].kind {
            Kind::List(items) => Ok(
                Val::list(args.subrange(1, args.len() as int).reverse() + items),
            ),
            Kind::Vector(items) => Ok(Val::vector(items + args.subrange(1, args.len() as int))),
            _ => Err(native_error("Invalid argument"@)),
        }
    }
}

/// `conj`: adds values to a list at its front, to a vector at its end.
pub fn conj(args: &[MalValue]) -> (r: MalResult)
    ensures
        result_view(r) == conj_result(views(args@)),
{
    arg_count_gte(args, 2)?;
    proof {
        lemma_value_view(args@[0]);
    }
    let ghost a = views(args@);
    match &*args[0].mal_type {
        MalValueType::List(vec) => {
            let mut new_vec: Vec<MalValue> = Vec::new();
            let mut i = args.len();
            while i > 1
                invariant
                    1 <= i <= args@.len(),
                    a == views(args@),
                    views(new_vec@) == a.subrange(i as int, a.len() as int).reverse(),
                decreases i,
            {
                let ghost before = views(new_vec@);
                i -= 1;
                new_vec.push(args[i].clone());
                assert(views(new_vec@) =~= before.push(a[i as int]));
                let ghost want = a.subrange(i as int, a.len() as int).reverse();
                assert(want.len() == before.len() + 1);
                assert forall|k: int| 0 <= k < want.len() implies want[k] == before.push(
                    a[i as int],
                )[k] by {
                    if k < before.len() {
                        assert(before[k] == a.subrange(i + 1, a.len() as int)[a.len() - i - 2 - k]);
                    }
                }
                assert(views(new_vec@) =~= want);
            }
            append_range(&mut new_vec, vec.as_slice(), 0, vec.len());
            assert(views(vec@).subrange(0, vec@.len() as int) =~= views(vec@));
            Ok(MalValue::new_list(new_vec))
        },
        MalValueType::Vector(vec) => {
            let mut new_vec: Vec<MalValue> = Vec::new();
            append_range(&mut new_vec, vec.as_slice(), 0, vec.len());
            append_range(&mut new_vec, args, 1, args.len());
            assert(views(new_vec@) =~= views(vec@) + a.subrange(1, a.len() as int));
            Ok(MalValue::new_vector(new_vec))
        },
        _ => Err(native("Invalid argument")),
    }
}

/// What `=` gives: whether its two arguments are equal.
pub open spec fn equals_result(args: Seq<Val>) -> Result<Val, ErrView> {
    if args.len() != 2 {
        Err(count_error(2, args.len()))
    } else {
        Ok(Val::boolean(values_equal(args[0], args[1])))
    }
}

/// `=`: whether two values are equal.
pub fn equals(args: &[MalValue]) -> (r: MalResult)
    ensures
        result_view(r) == equals_result(views(args@)),
{
    arg_count_eq(args, 2)?;
    Ok(MalValue::new_boolean(values_eq(&args[0], &args[1])))
}


/// What `symbol` gives: the symbol with the name that the string holds.
pub open spec fn symbol_result(args: Seq<Val>) -> Result<Val, ErrView> {
    if args.len() != 1 {
        Err(count_error(1, args.len()))
    } else {
        match args[0].kind {
            Kind::Str(s) => Ok(Val::plain(Kind::Symbol(s))),
            _ => Err(native_error("Argument must be a string."@)),
        }
    }
}

/// `symbol`: the symbol with the name that a string holds.
pub fn symbol(args: &[MalValue]) -> (r: MalResult)
    ensures
        result_view(r) == symbol_result(views(args@)),
{
    arg_count_eq(args, 1)?;
    proof {
        lemma_value_view(args@[0]);
    }
    match &*args[0].mal_type {
        MalValueType::Str(s) => Ok(MalValue::new(MalValueType::Symbol(s.clone()))),
        _ => Err(native("Argument must be a string.")),
    }
}

/// What `keyword` gives: the keyword with the name that the string holds.
pub open spec fn keyword_result(args: Seq<Val>) -> Result<Val, ErrView> {
    if args.len() != 1 {
        Err(count_error(1, args.len()))
    } else {
        match args[0].kind {
            Kind::Str(s) => Ok(Val::plain(Kind::Keyword(s))),
            _ => Err(native_error("Argument must be a string."@)),
        }
    }
}

/// `keyword`: the keyword with the name that a string holds.
pub fn keyword(args: &[MalValue]) -> (r: MalResult)
    ensures
        result_view(r) == keyword_result(views(args@)),
{
    arg_count_eq(args, 1)?;
    proof {
        lemma_value_view(args@[0]);
    }
    match &*args[0].mal_type {
        MalValueType::Str(s) => Ok(MalValue::new(MalValueType::Keyword(s.clone()))),
        _ => Err(native("Argument must be a string.")),
    }
}

/// A result that holds a map, as a result that holds the map as a value.
pub open spec fn map_value(r: Result<Seq<(Val, Val)>, ErrView>) -> Result<Val, ErrView> {
    match r {
        Ok(m) => Ok(Val::plain(Kind::HashMap(m))),
        Err(e) => Err(e),
    }
}

/// A map as a value, or the error.
fn wrap_map(r: Result<MalMap, MalError>) -> (out: MalResult)
    ensures
        result_view(out) == map_value(crate::map::map_result_view(r)),
{
    match r {
        Ok(m) => Ok(MalValue::new_map(m)),
        Err(e) => Err(e),
    }
}

/// `hash-map`: the map that alternating keys and values describe.
pub fn hash_map(args: &[MalValue]) -> (r: MalResult)
    ensures
        result_view(r) == map_value(map_assoc_result(Seq::empty(), views(args@))),
{
    wrap_map(MalMap::from_arguments(args))
}

/// The error for a first argument that is no map.
pub open spec fn not_a_map_error() -> ErrView {
    native_error("First argument must be a hash map."@)
}

/// What `assoc` gives: the map of the first argument with the further arguments inserted
/// as alternating keys and values.
pub open spec fn assoc_result(args: Seq<Val>) -> Result<Val, ErrView> {
    if args.len() < 1 {
        Err(at_least_error(1, args.len()))
    } else {
        match args[0].kind {
            Kind::HashMap(m) => map_value(map_assoc_result(m, args.subrange(1, args.len() as int))),
            _ => Err(not_a_map_error()),
        }
    }
}

/// `assoc`: a map with further keys and values.
pub fn assoc(args: &[MalValue]) -> (r: MalResult)
    ensures
        result_view(r) == assoc_result(views(args@)),
{
    arg_count_gte(args, 1)?;
    proof {
        lemma_value_view(args@[0]);
    }
    match &*args[0].mal_type {
        MalValueType::HashMap(mal_map) => {
            let others = copy_range(args, 1, args.len());
            wrap_map(mal_map.assoc(others.as_slice()))
        },
        _ => Err(native("First argument must be a hash map.")),
    }
}

/// What `dissoc` gives: the map of the first argument without the keys that follow.
pub open spec fn dissoc_result(args: Seq<Val>) -> Result<Val, ErrView> {
    if args.len() < 1 {
        Err(at_least_error(1, args.len()))
    } else {
        match args[0].kind {
            Kind::HashMap(m) => map_value(
                map_dissoc_result(m, args.subrange(1, args.len() as int)),
            ),
            _ => Err(not_a_map_error()),
        }
    }
}

/// `dissoc`: a map without some keys.
pub fn dissoc(args: &[MalValue]) -> (r: MalResult)
    ensures
        result_view(r) == dissoc_result(views(args@)),
{
    arg_count_gte(args, 1)?;
    proof {
        lemma_value_view(args@[0]);
    }
    match &*args[0].mal_type {
        MalValueType::HashMap(mal_map) => {
            let others = copy_range(args, 1, args.len());
            wrap_map(mal_map.dissoc(others.as_slice()))
        },
        _ => Err(native("First argument must be a hash map.")),
    }
}

/// What `get` gives: the value bound to the key; `nil` for a key that the map does not
/// hold, and for `nil` in place of a map.
pub open spec fn get_result(args: Seq<Val>) -> Result<Val, ErrView> {
    if args.len() != 2 {
        Err(count_error(2, args.len()))
    } else {
        match args[0].kind {
            Kind::HashMap(m) => Ok(map_get(m, args[1])),
            Kind::Nil => Ok(Val::nil()),
            _ => Err(not_a_map_error()),
        }
    }
}

/// `get`: the value that a map binds to a key.
pub fn get(args: &[MalValue]) -> (r: MalResult)
    ensures
        result_view(r) == get_result(views(args@)),
{
    arg_count_eq(args, 2)?;
    proof {
        lemma_value_view(args@[0]);
    }
    match &*args[0].mal_type {
        MalValueType::HashMap(mal_map) => Ok(mal_map.get(&args[1])),
        MalValueType::Nil => Ok(MalValue::nil()),
        _ => Err(native("First argument must be a hash map.")),
    }
}

/// What `contains?` gives: whether the map holds the key; false for `nil` in place of a
/// map.
pub open spec fn contains_result(args: Seq<Val>) -> Result<Val, ErrView> {
    if args.len() != 2 {
        Err(count_error(2, args.len()))
    } else {
        match args[0].kind {
            Kind::HashMap(m) => Ok(Val::boolean(map_contains(m, args[1]))),
            Kind::Nil => Ok(Val::boolean(false)),
            _ => Err(not_a_map_error()),
        }
    }
}

/// `contains?`: whether a map holds a key.
pub fn contains(args: &[MalValue]) -> (r: MalResult)
    ensures
        result_view(r) == contains_result(views(args@)),
{
    arg_count_eq(args, 2)?;
    proof {
        lemma_value_view(args@[0]);
    }
    match &*args[0].mal_type {
        MalValueType::HashMap(mal_map) => Ok(MalValue::new_boolean(mal_map.contains(&args[1]))),
        MalValueType::Nil => Ok(MalValue::new_boolean(false)),
        _ => Err(native("First argument must be a hash map.")),
    }
}

/// What `keys` gives: the list of the keys, as they were inserted.
pub open spec fn keys_result(args: Seq<Val>) -> Result<Val, ErrView> {
    if args.len() != 1 {
        Err(count_error(1, args.len()))
    } else {
        match args[0].kind {
            Kind::HashMap(m) => Ok(Val::list(map_keys(m))),
            _ => Err(native_error("Argument must be a hash map."@)),
        }
    }
}

/// `keys`: the keys of a map.
pub fn keys(args: &[MalValue]) -> (r: MalResult)
    ensures
        result_view(r) == keys_result(views(args@)),
{
    arg_count_eq(args, 1)?;
    proof {
        lemma_value_view(args@[0]);
    }
    match &*args[0].mal_type {
        MalValueType::HashMap(mal_map) => Ok(MalValue::new_list(mal_map.keys())),
        _ => Err(native("Argument must be a hash map.")),
    }
}

/// What `vals` gives: the list of the values, in the order of their keys.
pub open spec fn vals_result(args: Seq<Val>) -> Result<Val, ErrView> {
    if args.len() != 1 {
        Err(count_error(1, args.len()))
    } else {
        match args[0].kind {
            Kind::HashMap(m) => Ok(Val::list(map_vals(m))),
            _ => Err(native_error("Argument must be a hash map."@)),
        }
    }
}

/// `vals`: the values of a map.
pub fn vals(args: &[MalValue]) -> (r: MalResult)
    ensures
        result_view(r) == vals_result(views(args@)),
{
    arg_count_eq(args, 1)?;
    proof {
        lemma_value_view(args@[0]);
    }
    match &*args[0].mal_type {
        MalValueType::HashMap(mal_map) => Ok(MalValue::new_list(mal_map.vals())),
        _ => Err(native("Argument must be a hash map.")),
    }
}

/// What `meta` gives: the metadata of its argument, `nil` where it has none.
pub open spec fn meta_result(args: Seq<Val>) -> Result<Val, ErrView> {
    if args.len() != 1 {
        Err(count_error(1, args.len()))
    } else {
        Ok(
            match args[0].meta {
                Some(m) => *m,
                None => Val::nil(),
            },
        )
    }
}

/// `meta`: the metadata of a value.
pub fn meta(args: &[MalValue]) -> (r: MalResult)
    ensures
        result_view(r) == meta_result(views(args@)),
{
    arg_count_eq(args, 1)?;
    Ok(args[0].get_meta())
}

/// What `with-meta` gives: the first argument with the second as its metadata.
pub open spec fn with_meta_result(args: Seq<Val>) -> Result<Val, ErrView> {
    if args.len() != 2 {
        Err(count_error(2, args.len()))
    } else {
        Ok(Val { kind: args[0].kind, meta: Some(Box::new(args[1])) })
    }
}

/// `with-meta`: a value with new metadata.
pub fn with_meta(args: &[MalValue]) -> (r: MalResult)
    ensures
        result_view(r) == with_meta_result(views(args@)),
{
    arg_count_eq(args, 2)?;
    Ok(args[0].clone_with_meta(args[1].clone()))
}

/// The strings of one character each that a string is made of.
pub open spec fn single_chars(s: Seq<char>) -> Seq<Val> {
    Seq::new(s.len(), |i: int| Val::string(seq![s[i]]))
}

/// What `seq` gives: `nil` for an empty list, vector or string and for `nil`; a list as it
/// is; the elements of a vector as a list; the characters of a string as a list of
/// strings.
pub open spec fn seq_result(args: Seq<Val>) -> Result<Val, ErrView> {
    if args.len() != 1 {
        Err(count_error(1, args.len()))
    } else {
        match args[0].kind {
            Kind::List(items) => if items.len() == 0 {
                Ok(Val::nil())
            } else {
                Ok(args[0])
            },
            Kind::Vector(items) => if items.len() == 0 {
                Ok(Val::nil())
            } else {
                Ok(Val::list(items))
            },
            Kind::Str(s) => if s.len() == 0 {
                Ok(Val::nil())
            } else {
                Ok(Val::list(single_chars(s)))
            },
            Kind::Nil => Ok(Val::nil()),
            _ => Err(native_error("Invalid argument"@)),
        }
    }
}

/// `seq`: a list, a vector or a string as a list of its elements, `nil` where it has none.
pub fn seq(args: &[MalValue]) -> (r: MalResult)
    ensures
        result_view(r) == seq_result(views(args@)),
{
    arg_count_eq(args, 1)?;
    proof {
        lemma_value_view(args@[0]);
    }
    match &*args[0].mal_type {
        MalValueType::List(vec) => {
            if vec.len() == 0 {
                Ok(MalValue::nil())
            } else {
                Ok(args[0].clone())
            }
        },
        MalValueType::Vector(vec) => {
            if vec.len() == 0 {
                Ok(MalValue::nil())
            } else {
                let items = copy_range(vec.as_slice(), 0, vec.len());
                assert(views(items@) =~= views(vec@));
                Ok(MalValue::new_list(items))
            }
        },
        MalValueType::Str(str_val) => {
            let chars = chars_of(str_val.as_str());
            if chars.len() == 0 {
                Ok(MalValue::nil())
            } else {
                let mut out: Vec<MalValue> = Vec::new();
                let mut i: usize = 0;
                while i < chars.len()
                    invariant
                        i <= chars@.len(),
                        out@.len() == i,
                        forall|j: int| 0 <= j < i ==> (#[trigger] out@[j])@ == Val::string(seq![chars@[j]]),
                    decreases chars.len() - i,
                {
                    let mut one = String::new();
                    one.push(chars[i]);
                    assert(one@ =~= seq![chars@[i as int]]);
                    out.push(MalValue::new_str(one));
                    i += 1;
                }
                assert(views(out@) =~= single_chars(str_val@));
                Ok(MalValue::new_list(out))
            }
        },
        MalValueType::Nil => Ok(MalValue::nil()),
        _ => Err(native("Invalid argument")),
    }
}

/// What `throw` gives: the error that carries the first argument.
pub open spec fn throw_result(args: Seq<Val>) -> Result<Val, ErrView> {
    if args.len() < 1 {
        Err(at_least_error(1, args.len()))
    } else {
        Err(ErrView::Exception(args[0]))
    }
}

/// `throw`: fails with the error that carries a value.
pub fn throw(args: &[MalValue]) -> (r: MalResult)
    ensures
        result_view(r) == throw_result(views(args@)),
{
    arg_count_gte(args, 1)?;
    Err(MalError::Exception(args[0].clone()))
}

/// `pr-str`: the texts of the arguments, readable, with a space between them.
pub fn mal_pr_str(args: &[MalValue], atoms: &Atoms) -> (r: MalResult)
    ensures
        result_view(r) == Ok::<Val, ErrView>(
            Val::string(joined_text(views(args@), args@.len(), true, " "@, atoms@)),
        ),
{
    Ok(MalValue::new_str(pr_strs(args, true, " ", atoms)))
}

/// `str`: the raw texts of the arguments, one behind the other.
pub fn mal_str(args: &[MalValue], atoms: &Atoms) -> (r: MalResult)
    ensures
        result_view(r) == Ok::<Val, ErrView>(
            Val::string(joined_text(views(args@), args@.len(), false, ""@, atoms@)),
        ),
{
    Ok(MalValue::new_str(pr_strs(args, false, "", atoms)))
}

/// What `atom` gives together with the cells after it: a new cell that holds the
/// argument.
pub open spec fn atom_result(args: Seq<Val>, atoms: Seq<Val>) -> (Result<Val, ErrView>, Seq<Val>) {
    if args.len() != 1 {
        (Err(count_error(1, args.len())), atoms)
    } else {
        (Ok(Val::plain(Kind::Atom(atoms.len() as usize))), atoms.push(args[0]))
    }
}

/// `atom`: a new mutable cell.
pub fn atom(args: &[MalValue], atoms: &mut Atoms) -> (r: MalResult)
    ensures
        (result_view(r), final(atoms)@) == atom_result(views(args@), old(atoms)@),
{
    arg_count_eq(args, 1)?;
    Ok(atoms.new_cell(args[0].clone()))
}

/// The error for an argument that is no mutable cell.
pub open spec fn not_an_atom_error() -> ErrView {
    native_error("Invalid argument. Expected atom."@)
}

/// What `deref` gives: the contents of the cell.
pub open spec fn deref_result(args: Seq<Val>, atoms: Seq<Val>) -> Result<Val, ErrView> {
    if args.len() != 1 {
        Err(count_error(1, args.len()))
    } else {
        match args[0].kind {
            Kind::Atom(cell) => Ok(cell_get(atoms, cell)),
            _ => Err(not_an_atom_error()),
        }
    }
}

/// `deref`: the contents of a mutable cell.
pub fn deref_atom(args: &[MalValue], atoms: &Atoms) -> (r: MalResult)
    ensures
        result_view(r) == deref_result(views(args@), atoms@),
{
    arg_count_eq(args, 1)?;
    proof {
        lemma_value_view(args@[0]);
    }
    match &*args[0].mal_type {
        MalValueType::Atom(cell) => Ok(atoms.get(*cell)),
        _ => Err(native("Invalid argument. Expected atom.")),
    }
}

/// What `reset!` gives together with the cells after it: the second argument, which the
/// cell holds from then on.
pub open spec fn reset_result(args: Seq<Val>, atoms: Seq<Val>) -> (Result<Val, ErrView>, Seq<Val>) {
    if args.len() != 2 {
        (Err(count_error(2, args.len())), atoms)
    } else {
        match args[0].kind {
            Kind::Atom(cell) => (Ok(args[1]), cell_set(atoms, cell, args[1])),
            _ => (Err(not_an_atom_error()), atoms),
        }
    }
}

/// `reset!`: puts a value into a mutable cell.
pub fn reset_atom(args: &[MalValue], atoms: &mut Atoms) -> (r: MalResult)
    ensures
        (result_view(r), final(atoms)@) == reset_result(views(args@), old(atoms)@),
{
    arg_count_eq(args, 2)?;
    proof {
        lemma_value_view(args@[0]);
    }
    match &*args[0].mal_type {
        MalValueType::Atom(cell) => {
            atoms.set(*cell, args[1].clone());
            Ok(args[1].clone())
        },
        _ => Err(native("Invalid argument. Expected atom.")),
    }
}


/// What `read-string` gives: the first form of the text that the string holds.
pub open spec fn read_string_result(args: Seq<Val>) -> Result<Val, ErrView> {
    if args.len() != 1 {
        Err(count_error(1, args.len()))
    } else {
        match args[0].kind {
            Kind::Str(s) => crate::reader::read_text(s),
            _ => Err(native_error("read_string expects argument to be of type String"@)),
        }
    }
}

/// `read-string`: reads the first form of a text.
pub fn read_string(args: &[MalValue]) -> (r: MalResult)
    ensures
        result_view(r) == read_string_result(views(args@)),
{
    arg_count_eq(args, 1)?;
    proof {
        lemma_value_view(args@[0]);
    }
    match &*args[0].mal_type {
        MalValueType::Str(arg) => crate::reader::read_str(arg.as_str()),
        _ => Err(native("read_string expects argument to be of type String")),
    }
}

/// What a native function asks of the host.
#[derive(Debug)]
pub enum Request {
    /// Write the text and a line feed to the standard output.
    Print(String),
    /// Read the whole file with the given path.
    ReadFile(String),
    /// Show the prompt and read one line.
    ReadLine(String),
    /// Read the clock.
    Clock,
}

/// The mathematical model of a request.
pub enum RequestView {
    Print(Seq<char>),
    ReadFile(Seq<char>),
    ReadLine(Seq<char>),
    Clock,
}

impl View for Request {
    type V = RequestView;

    open spec fn view(&self) -> RequestView {
        match *self {
            Request::Print(s) => RequestView::Print(s@),
            Request::ReadFile(s) => RequestView::ReadFile(s@),
            Request::ReadLine(s) => RequestView::ReadLine(s@),
            Request::Clock => RequestView::Clock,
        }
    }
}

/// What the host answers to a request.
#[derive(Debug)]
pub enum Event {
    /// The output was written.
    Done,
    /// The contents of the file, or the line that was read.
    Text(String),
    /// The input has ended.
    End,
    /// The host failed; the text says how.
    Failed(String),
    /// The milliseconds since the start of 1970.
    Time(u128),
}

/// The mathematical model of an answer of the host.
pub enum EventView {
    Done,
    Text(Seq<char>),
    End,
    Failed(Seq<char>),
    Time(u128),
}

impl View for Event {
    type V = EventView;

    open spec fn view(&self) -> EventView {
        match *self {
            Event::Done => EventView::Done,
            Event::Text(s) => EventView::Text(s@),
            Event::End => EventView::End,
            Event::Failed(s) => EventView::Failed(s@),
            Event::Time(t) => EventView::Time(t),
        }
    }
}

/// How the evaluator goes on after a native function was called.
#[derive(Debug)]
pub enum Next {
    /// The call gave this value.
    Done(MalValue),
    /// Evaluate `ast` in `env`; its value is the value of the call.
    Eval { ast: MalValue, env: EnvId },
    /// Apply `func` to `args`; the result is the value of the call.
    Apply { func: MalValue, args: Vec<MalValue> },
    /// Apply `func` to each of `items`; the list of the results is the value of the call.
    MapOver { func: MalValue, items: Vec<MalValue> },
    /// Apply `func` to `args`, put the result into the cell and give it as the value.
    Swap { cell: usize, func: MalValue, args: Vec<MalValue> },
    /// Ask the host; what `answer` makes of its answer is the value of the call.
    Ask(Request),
}

/// The mathematical model of how the evaluator goes on.
pub enum NextView {
    Done(Val),
    Eval { ast: Val, env: EnvId },
    Apply { func: Val, args: Seq<Val> },
    MapOver { func: Val, items: Seq<Val> },
    Swap { cell: usize, func: Val, args: Seq<Val> },
    Ask(RequestView),
}

impl View for Next {
    type V = NextView;

    open spec fn view(&self) -> NextView {
        match *self {
            Next::Done(v) => NextView::Done(v@),
            Next::Eval { ast, env } => NextView::Eval { ast: ast@, env },
            Next::Apply { func, args } => NextView::Apply { func: func@, args: views(args@) },
            Next::MapOver { func, items } => NextView::MapOver {
                func: func@,
                items: views(items@),
            },
            Next::Swap { cell, func, args } => NextView::Swap {
                cell,
                func: func@,
                args: views(args@),
            },
            Next::Ask(r) => NextView::Ask(r@),
        }
    }
}

/// The model of the result of a call.
pub open spec fn next_view(r: Result<Next, MalError>) -> Result<NextView, ErrView> {
    match r {
        Ok(n) => Ok(n@),
        Err(e) => Err(e@),
    }
}

/// A value or an error as the result of a call that is done.
pub open spec fn done(r: Result<Val, ErrView>) -> Result<NextView, ErrView> {
    match r {
        Ok(v) => Ok(NextView::Done(v)),
        Err(e) => Err(e),
    }
}

/// The result of a call that is done.
fn finish(r: MalResult) -> (out: Result<Next, MalError>)
    ensures
        next_view(out) == done(result_view(r)),
{
    match r {
        Ok(v) => Ok(Next::Done(v)),
        Err(e) => Err(e),
    }
}

/// What `prn` and `println` give: the request to print the texts of the arguments with
/// a space between them, readable for `prn` and raw for `println`.
pub open spec fn print_result(args: Seq<Val>, readable: bool, atoms: Seq<Val>) -> Result<
    NextView,
    ErrView,
> {
    Ok(NextView::Ask(RequestView::Print(joined_text(args, args.len(), readable, " "@, atoms))))
}

/// `prn`: asks the host to print the readable texts of the arguments.
pub fn prn(args: &[MalValue], atoms: &Atoms) -> (r: Result<Next, MalError>)
    ensures
        next_view(r) == print_result(views(args@), true, atoms@),
{
    Ok(Next::Ask(Request::Print(pr_strs(args, true, " ", atoms))))
}

/// `println`: asks the host to print the raw texts of the arguments.
pub fn mal_println(args: &[MalValue], atoms: &Atoms) -> (r: Result<Next, MalError>)
    ensures
        next_view(r) == print_result(views(args@), false, atoms@),
{
    Ok(Next::Ask(Request::Print(pr_strs(args, false, " ", atoms))))
}

/// What `slurp` gives: the request to read the file that the string names.
pub open spec fn slurp_result(args: Seq<Val>) -> Result<NextView, ErrView> {
    if args.len() != 1 {
        Err(count_error(1, args.len()))
    } else {
        match args[0].kind {
            Kind::Str(s) => Ok(NextView::Ask(RequestView::ReadFile(s))),
            _ => Err(native_error("slurp expects argument to be of type String"@)),
        }
    }
}

/// `slurp`: asks the host for the contents of a file.
pub fn slurp(args: &[MalValue]) -> (r: Result<Next, MalError>)
    ensures
        next_view(r) == slurp_result(views(args@)),
{
    arg_count_eq(args, 1)?;
    proof {
        lemma_value_view(args@[0]);
    }
    match &*args[0].mal_type {
        MalValueType::Str(arg) => Ok(Next::Ask(Request::ReadFile(arg.clone()))),
        _ => Err(native("slurp expects argument to be of type String")),
    }
}

/// What `readline` gives: the request to read a line after the prompt.
pub open spec fn readline_result(args: Seq<Val>) -> Result<NextView, ErrView> {
    if args.len() != 1 {
        Err(count_error(1, args.len()))
    } else {
        match args[0].kind {
            Kind::Str(s) => Ok(NextView::Ask(RequestView::ReadLine(s))),
            _ => Err(native_error("Argument must be a string."@)),
        }
    }
}

/// `readline`: asks the host for a line of input.
pub fn readline(args: &[MalValue]) -> (r: Result<Next, MalError>)
    ensures
        next_view(r) == readline_result(views(args@)),
{
    arg_count_eq(args, 1)?;
    proof {
        lemma_value_view(args@[0]);
    }
    match &*args[0].mal_type {
        MalValueType::Str(prompt) => Ok(Next::Ask(Request::ReadLine(prompt.clone()))),
        _ => Err(native("Argument must be a string.")),
    }
}

/// What `time-ms` gives: the request to read the clock.
pub open spec fn time_ms_result(args: Seq<Val>) -> Result<NextView, ErrView> {
    if args.len() != 0 {
        Err(count_error(0, args.len()))
    } else {
        Ok(NextView::Ask(RequestView::Clock))
    }
}

/// `time-ms`: asks the host for the time.
pub fn time_ms(args: &[MalValue]) -> (r: Result<Next, MalError>)
    ensures
        next_view(r) == time_ms_result(views(args@)),
{
    arg_count_eq(args, 0)?;
    Ok(Next::Ask(Request::Clock))
}

/// The text without the line feeds at its end.
pub open spec fn without_line_feeds(s: Seq<char>) -> Seq<char>
    decreases s.len(),
{
    if s.len() > 0 && s.last() == '\n' {
        without_line_feeds(s.drop_last())
    } else {
        s
    }
}

/// The text without the line feeds at its end.
fn trim_line_feeds(line: &str) -> (r: String)
    ensures
        r@ == without_line_feeds(line@),
{
    let chars = chars_of(line);
    let mut end = chars.len();
    assert(chars@.take(end as int) =~= chars@);
    while end > 0 && chars[end - 1] == '\n'
        invariant
            end <= chars@.len(),
            chars@ == line@,
            without_line_feeds(line@) == without_line_feeds(chars@.take(end as int)),
        decreases end,
    {
        assert(chars@.take(end as int).drop_last() =~= chars@.take(end - 1));
        end -= 1;
    }
    let mut out = String::new();
    let mut i: usize = 0;
    while i < end
        invariant
            i <= end <= chars@.len(),
            out@ == chars@.take(i as int),
        decreases end - i,
    {
        out.push(chars[i]);
        assert(out@ =~= chars@.take(i + 1));
        i += 1;
    }
    out
}

/// The value of a call that asked the host, for each answer. Printing gives `nil`. A file
/// gives its contents, or the error that says why it was not read. A line gives its text
/// without the line feeds at its end, `nil` at the end of the input, and an error
/// otherwise. The clock gives the milliseconds as a number, and an error otherwise.
pub open spec fn answer_result(request: RequestView, event: EventView) -> Result<Val, ErrView> {
    match request {
        RequestView::Print(_) => Ok(Val::nil()),
        RequestView::ReadFile(_) => match event {
            EventView::Text(s) => Ok(Val::string(s)),
            EventView::Failed(why) => Err(native_error("slurp: "@ + why)),
            _ => Err(native_error("slurp: no answer"@)),
        },
        RequestView::ReadLine(_) => match event {
            EventView::Text(s) => Ok(Val::string(without_line_feeds(s))),
            EventView::End => Ok(Val::nil()),
            _ => Err(native_error("Error reading line."@)),
        },
        RequestView::Clock => match event {
            EventView::Time(t) => Ok(Val::number(number_from_int(t))),
            _ => Err(native_error("Could not calculate the current time."@)),
        },
    }
}

/// Turns the host's answer to a request into the value of the call that asked.
pub fn answer(request: &Request, event: Event) -> (r: MalResult)
    ensures
        result_view(r) == answer_result(request@, event@),
{
    match request {
        Request::Print(_) => Ok(MalValue::nil()),
        Request::ReadFile(_) => match event {
            Event::Text(s) => Ok(MalValue::new_str(s)),
            Event::Failed(why) => Err(
                MalError::RustFunction(String::from_str("slurp: ").concat(why.as_str())),
            ),
            _ => Err(native("slurp: no answer")),
        },
        Request::ReadLine(_) => match event {
            Event::Text(s) => Ok(MalValue::new_str(trim_line_feeds(s.as_str()))),
            Event::End => Ok(MalValue::nil()),
            _ => Err(native("Error reading line.")),
        },
        Request::Clock => match event {
            Event::Time(t) => Ok(MalValue::new_number(float_from_int(t))),
            _ => Err(native("Could not calculate the current time.")),
        },
    }
}

/// What `eval` gives: the request to evaluate its argument in the environment that the
/// native function was made for.
pub open spec fn eval_result(args: Seq<Val>, env: EnvId) -> Result<NextView, ErrView> {
    if args.len() != 1 {
        Err(count_error(1, args.len()))
    } else {
        Ok(NextView::Eval { ast: args[0], env })
    }
}

/// `eval`: asks the evaluator to evaluate a value.
pub fn mal_eval(args: &[MalValue], env: EnvId) -> (r: Result<Next, MalError>)
    ensures
        next_view(r) == eval_result(views(args@), env),
{
    arg_count_eq(args, 1)?;
    Ok(Next::Eval { ast: args[0].clone(), env })
}

/// What `apply` gives: the request to apply the first argument to the arguments between
/// it and the last, followed by the elements of the last.
pub open spec fn apply_result(args: Seq<Val>) -> Result<NextView, ErrView> {
    if args.len() < 2 {
        Err(at_least_error(2, args.len()))
    } else {
        match args[args.len() - 1].items() {
            Some(last) => Ok(
                NextView::Apply { func: args[0], args: args.subrange(1, args.len() - 1) + last },
            ),
            None => Err(
                native_error(
                    "Invalid argument. Last argument of apply must be a list or vector."@,
                ),
            ),
        }
    }
}

/// `apply`: asks the evaluator to apply a function to the elements of a list.
pub fn apply(args: &[MalValue]) -> (r: Result<Next, MalError>)
    ensures
        next_view(r) == apply_result(views(args@)),
{
    arg_count_gte(args, 2)?;
    match args[args.len() - 1].as_items() {
        Some(last_args) => {
            let mut vec: Vec<MalValue> = Vec::new();
            append_range(&mut vec, args, 1, args.len() - 1);
            append_range(&mut vec, last_args.as_slice(), 0, last_args.len());
            assert(views(vec@) =~= views(args@).subrange(1, args@.len() - 1) + views(last_args@));
            Ok(Next::Apply { func: args[0].clone(), args: vec })
        },
        None => Err(native("Invalid argument. Last argument of apply must be a list or vector.")),
    }
}

/// What `map` gives: the request to apply the first argument to each element of the
/// second.
pub open spec fn map_result(args: Seq<Val>) -> Result<NextView, ErrView> {
    if args.len() != 2 {
        Err(count_error(2, args.len()))
    } else {
        match args[1].items() {
            Some(items) => Ok(NextView::MapOver { func: args[0], items }),
            None => Err(
                native_error(
                    "Invalid argument. Second argument of map must be a list or vector."@,
                ),
            ),
        }
    }
}

/// `map`: asks the evaluator to apply a function to each element of a list or vector.
pub fn map(args: &[MalValue]) -> (r: Result<Next, MalError>)
    ensures
        next_view(r) == map_result(views(args@)),
{
    arg_count_eq(args, 2)?;
    match args[1].as_items() {
        Some(vec) => {
            let items = copy_range(vec.as_slice(), 0, vec.len());
            assert(views(items@) =~= views(vec@));
            Ok(Next::MapOver { func: args[0].clone(), items })
        },
        None => Err(native("Invalid argument. Second argument of map must be a list or vector.")),
    }
}

/// What `swap!` gives: the request to apply the second argument to the contents of the
/// cell and the further arguments, and to put the result into the cell.
pub open spec fn swap_result(args: Seq<Val>, atoms: Seq<Val>) -> Result<NextView, ErrView> {
    if args.len() < 2 {
        Err(at_least_error(2, args.len()))
    } else {
        match args[0].kind {
            Kind::Atom(cell) => if args[1].is_function_or_macro() {
                Ok(
                    NextView::Swap {
                        cell,
                        func: args[1],
                        args: seq![cell_get(atoms, cell)] + args.subrange(2, args.len() as int),
                    },
                )
            } else {
                Err(native_error("Invalid 2nd argument. Expected function."@))
            },
            _ => Err(native_error("Invalid 1st argument. Expected atom."@)),
        }
    }
}

/// `swap!`: asks the evaluator to apply a function to the contents of a mutable cell
/// and to put the result into the cell.
pub fn swap_atom(args: &[MalValue], atoms: &Atoms) -> (r: Result<Next, MalError>)
    ensures
        next_view(r) == swap_result(views(args@), atoms@),
{
    arg_count_gte(args, 2)?;
    proof {
        lemma_value_view(args@[0]);
    }
    let cell = match &*args[0].mal_type {
        MalValueType::Atom(cell) => *cell,
        _ => {
            return Err(native("Invalid 1st argument. Expected atom."));
        },
    };
    if !args[1].is_function_or_macro() {
        return Err(native("Invalid 2nd argument. Expected function."));
    }
    let mut apply_args: Vec<MalValue> = Vec::new();
    apply_args.push(atoms.get(cell));
    append_range(&mut apply_args, args, 2, args.len());
    assert(views(apply_args@) =~= seq![cell_get(atoms@, cell)] + views(args@).subrange(
        2,
        args@.len() as int,
    ));
    Ok(Next::Swap { cell, func: args[1].clone(), args: apply_args })
}


/// The number of native functions.
pub const BUILTIN_COUNT: usize = 61;

/// The native function at a place of the table.
pub open spec fn builtin_at(i: int) -> Builtin {
    if i == 0 {
        Builtin::Add
    } else if i == 1 {
        Builtin::Subtract
    } else if i == 2 {
        Builtin::Multiply
    } else if i == 3 {
        Builtin::Divide
    } else if i == 4 {
        Builtin::Prn
    } else if i == 5 {
        Builtin::Println
    } else if i == 6 {
        Builtin::PrStr
    } else if i == 7 {
        Builtin::Str
    } else if i == 8 {
        Builtin::List
    } else if i == 9 {
        Builtin::IsList
    } else if i == 10 {
        Builtin::Cons
    } else if i == 11 {
        Builtin::Concat
    } else if i == 12 {
        Builtin::Empty
    } else if i == 13 {
        Builtin::Count
    } else if i == 14 {
        Builtin::Nth
    } else if i == 15 {
        Builtin::First
    } else if i == 16 {
        Builtin::Rest
    } else if i == 17 {
        Builtin::Conj
    } else if i == 18 {
        Builtin::Equals
    } else if i == 19 {
        Builtin::Lt
    } else if i == 20 {
        Builtin::Lte
    } else if i == 21 {
        Builtin::Gt
    } else if i == 22 {
        Builtin::Gte
    } else if i == 23 {
        Builtin::ReadString
    } else if i == 24 {
        Builtin::Slurp
    } else if i == 25 {
        Builtin::Eval
    } else if i == 26 {
        Builtin::Atom
    } else if i == 27 {
        Builtin::IsAtom
    } else if i == 28 {
        Builtin::Deref
    } else if i == 29 {
        Builtin::Reset
    } else if i == 30 {
        Builtin::Swap
    } else if i == 31 {
        Builtin::Throw
    } else if i == 32 {
        Builtin::IsNil
    } else if i == 33 {
        Builtin::IsTrue
    } else if i == 34 {
        Builtin::IsFalse
    } else if i == 35 {
        Builtin::IsSymbol
    } else if i == 36 {
        Builtin::Symbol
    } else if i == 37 {
        Builtin::IsKeyword
    } else if i == 38 {
        Builtin::Keyword
    } else if i == 39 {
        Builtin::Apply
    } else if i == 40 {
        Builtin::MapOver
    } else if i == 41 {
        Builtin::Vector
    } else if i == 42 {
        Builtin::IsVector
    } else if i == 43 {
        Builtin::IsSequential
    } else if i == 44 {
        Builtin::HashMap
    } else if i == 45 {
        Builtin::IsMap
    } else if i == 46 {
        Builtin::Assoc
    } else if i == 47 {
        Builtin::Dissoc
    } else if i == 48 {
        Builtin::Get
    } else if i == 49 {
        Builtin::Contains
    } else if i == 50 {
        Builtin::Keys
    } else if i == 51 {
        Builtin::Vals
    } else if i == 52 {
        Builtin::Readline
    } else if i == 53 {
        Builtin::Meta
    } else if i == 54 {
        Builtin::WithMeta
    } else if i == 55 {
        Builtin::IsString
    } else if i == 56 {
        Builtin::IsNumber
    } else if i == 57 {
        Builtin::IsFn
    } else if i == 58 {
        Builtin::IsMacro
    } else if i == 59 {
        Builtin::TimeMs
    } else {
        Builtin::ToSeq
    }
}

/// The place of a native function in the table.
pub open spec fn builtin_index(b: Builtin) -> int {
    match b {
        Builtin::Add => 0,
        Builtin::Subtract => 1,
        Builtin::Multiply => 2,
        Builtin::Divide => 3,
        Builtin::Prn => 4,
        Builtin::Println => 5,
        Builtin::PrStr => 6,
        Builtin::Str => 7,
        Builtin::List => 8,
        Builtin::IsList => 9,
        Builtin::Cons => 10,
        Builtin::Concat => 11,
        Builtin::Empty => 12,
        Builtin::Count => 13,
        Builtin::Nth => 14,
        Builtin::First => 15,
        Builtin::Rest => 16,
        Builtin::Conj => 17,
        Builtin::Equals => 18,
        Builtin::Lt => 19,
        Builtin::Lte => 20,
        Builtin::Gt => 21,
        Builtin::Gte => 22,
        Builtin::ReadString => 23,
        Builtin::Slurp => 24,
        Builtin::Eval => 25,
        Builtin::Atom => 26,
        Builtin::IsAtom => 27,
        Builtin::Deref => 28,
        Builtin::Reset => 29,
        Builtin::Swap => 30,
        Builtin::Throw => 31,
        Builtin::IsNil => 32,
        Builtin::IsTrue => 33,
        Builtin::IsFalse => 34,
        Builtin::IsSymbol => 35,
        Builtin::Symbol => 36,
        Builtin::IsKeyword => 37,
        Builtin::Keyword => 38,
        Builtin::Apply => 39,
        Builtin::MapOver => 40,
        Builtin::Vector => 41,
        Builtin::IsVector => 42,
        Builtin::IsSequential => 43,
        Builtin::HashMap => 44,
        Builtin::IsMap => 45,
        Builtin::Assoc => 46,
        Builtin::Dissoc => 47,
        Builtin::Get => 48,
        Builtin::Contains => 49,
        Builtin::Keys => 50,
        Builtin::Vals => 51,
        Builtin::Readline => 52,
        Builtin::Meta => 53,
        Builtin::WithMeta => 54,
        Builtin::IsString => 55,
        Builtin::IsNumber => 56,
        Builtin::IsFn => 57,
        Builtin::IsMacro => 58,
        Builtin::TimeMs => 59,
        Builtin::ToSeq => 60,
    }
}

/// The name under which a native function is bound in the root environment.
pub open spec fn builtin_name(b: Builtin) -> Seq<char> {
    match b {
        Builtin::Add => "+"@,
        Builtin::Subtract => "-"@,
        Builtin::Multiply => "*"@,
        Builtin::Divide => "/"@,
        Builtin::Prn => "prn"@,
        Builtin::Println => "println"@,
        Builtin::PrStr => "pr-str"@,
        Builtin::Str => "str"@,
        Builtin::List => "list"@,
        Builtin::IsList => "list?"@,
        Builtin::Cons => "cons"@,
        Builtin::Concat => "concat"@,
        Builtin::Empty => "empty?"@,
        Builtin::Count => "count"@,
        Builtin::Nth => "nth"@,
        Builtin::First => "first"@,
        Builtin::Rest => "rest"@,
        Builtin::Conj => "conj"@,
        Builtin::Equals => "="@,
        Builtin::Lt => "<"@,
        Builtin::Lte => "<="@,
        Builtin::Gt => ">"@,
        Builtin::Gte => ">="@,
        Builtin::ReadString => "read-string"@,
        Builtin::Slurp => "slurp"@,
        Builtin::Eval => "eval"@,
        Builtin::Atom => "atom"@,
        Builtin::IsAtom => "atom?"@,
        Builtin::Deref => "deref"@,
        Builtin::Reset => "reset!"@,
        Builtin::Swap => "swap!"@,
        Builtin::Throw => "throw"@,
        Builtin::IsNil => "nil?"@,
        Builtin::IsTrue => "true?"@,
        Builtin::IsFalse => "false?"@,
        Builtin::IsSymbol => "symbol?"@,
        Builtin::Symbol => "symbol"@,
        Builtin::IsKeyword => "keyword?"@,
        Builtin::Keyword => "keyword"@,
        Builtin::Apply => "apply"@,
        Builtin::MapOver => "map"@,
        Builtin::Vector => "vector"@,
        Builtin::IsVector => "vector?"@,
        Builtin::IsSequential => "sequential?"@,
        Builtin::HashMap => "hash-map"@,
        Builtin::IsMap => "map?"@,
        Builtin::Assoc => "assoc"@,
        Builtin::Dissoc => "dissoc"@,
        Builtin::Get => "get"@,
        Builtin::Contains => "contains?"@,
        Builtin::Keys => "keys"@,
        Builtin::Vals => "vals"@,
        Builtin::Readline => "readline"@,
        Builtin::Meta => "meta"@,
        Builtin::WithMeta => "with-meta"@,
        Builtin::IsString => "string?"@,
        Builtin::IsNumber => "number?"@,
        Builtin::IsFn => "fn?"@,
        Builtin::IsMacro => "macro?"@,
        Builtin::TimeMs => "time-ms"@,
        Builtin::ToSeq => "seq"@,
    }
}

/// No two native functions have the same name.
#[verifier::rlimit(100)]
pub proof fn lemma_names_differ(a: Builtin, b: Builtin)
    requires
        a != b,
    ensures
        builtin_name(a) != builtin_name(b),
{
    reveal_strlit("+");
    assert("+"@.len() == 1 && "+"@[0] == '+');
    reveal_strlit("-");
    assert("-"@.len() == 1 && "-"@[0] == '-');
    reveal_strlit("*");
    assert("*"@.len() == 1 && "*"@[0] == '*');
    reveal_strlit("/");
    assert("/"@.len() == 1 && "/"@[0] == '/');
    reveal_strlit("prn");
    assert("prn"@.len() == 3 && "prn"@[0] == 'p' && "prn"@[1] == 'r' && "prn"@[2] == 'n');
    reveal_strlit("println");
    assert("println"@.len() == 7 && "println"@[0] == 'p' && "println"@[1] == 'r' && "println"@[2] == 'i' && "println"@[3] == 'n');
    reveal_strlit("pr-str");
    assert("pr-str"@.len() == 6 && "pr-str"@[0] == 'p' && "pr-str"@[1] == 'r' && "pr-str"@[2] == '-' && "pr-str"@[3] == 's');
    reveal_strlit("str");
    assert("str"@.len() == 3 && "str"@[0] == 's' && "str"@[1] == 't' && "str"@[2] == 'r');
    reveal_strlit("list");
    assert("list"@.len() == 4 && "list"@[0] == 'l' && "list"@[1] == 'i' && "list"@[2] == 's' && "list"@[3] == 't');
    reveal_strlit("list?");
    assert("list?"@.len() == 5 && "list?"@[0] == 'l' && "list?"@[1] == 'i' && "list?"@[2] == 's' && "list?"@[3] == 't');
    reveal_strlit("cons");
    assert("cons"@.len() == 4 && "cons"@[0] == 'c' && "cons"@[1] == 'o' && "cons"@[2] == 'n' && "cons"@[3] == 's');
    reveal_strlit("concat");
    assert("concat"@.len() == 6 && "concat"@[0] == 'c' && "concat"@[1] == 'o' && "concat"@[2] == 'n' && "concat"@[3] == 'c');
    reveal_strlit("empty?");
    assert("empty?"@.len() == 6 && "empty?"@[0] == 'e' && "empty?"@[1] == 'm' && "empty?"@[2] == 'p' && "empty?"@[3] == 't');
    reveal_strlit("count");
    assert("count"@.len() == 5 && "count"@[0] == 'c' && "count"@[1] == 'o' && "count"@[2] == 'u' && "count"@[3] == 'n');
    reveal_strlit("nth");
    assert("nth"@.len() == 3 && "nth"@[0] == 'n' && "nth"@[1] == 't' && "nth"@[2] == 'h');
    reveal_strlit("first");
    assert("first"@.len() == 5 && "first"@[0] == 'f' && "first"@[1] == 'i' && "first"@[2] == 'r' && "first"@[3] == 's');
    reveal_strlit("rest");
    assert("rest"@.len() == 4 && "rest"@[0] == 'r' && "rest"@[1] == 'e' && "rest"@[2] == 's' && "rest"@[3] == 't');
    reveal_strlit("conj");
    assert("conj"@.len() == 4 && "conj"@[0] == 'c' && "conj"@[1] == 'o' && "conj"@[2] == 'n' && "conj"@[3] == 'j');
    reveal_strlit("=");
    assert("="@.len() == 1 && "="@[0] == '=');
    reveal_strlit("<");
    assert("<"@.len() == 1 && "<"@[0] == '<');
    reveal_strlit("<=");
    assert("<="@.len() == 2 && "<="@[0] == '<' && "<="@[1] == '=');
    reveal_strlit(">");
    assert(">"@.len() == 1 && ">"@[0] == '>');
    reveal_strlit(">=");
    assert(">="@.len() == 2 && ">="@[0] == '>' && ">="@[1] == '=');
    reveal_strlit("read-string");
    assert("read-string"@.len() == 11 && "read-string"@[0] == 'r' && "read-string"@[1] == 'e' && "read-string"@[2] == 'a' && "read-string"@[3] == 'd');
    reveal_strlit("slurp");
    assert("slurp"@.len() == 5 && "slurp"@[0] == 's' && "slurp"@[1] == 'l' && "slurp"@[2] == 'u' && "slurp"@[3] == 'r');
    reveal_strlit("eval");
    assert("eval"@.len() == 4 && "eval"@[0] == 'e' && "eval"@[1] == 'v' && "eval"@[2] == 'a' && "eval"@[3] == 'l');
    reveal_strlit("atom");
    assert("atom"@.len() == 4 && "atom"@[0] == 'a' && "atom"@[1] == 't' && "atom"@[2] == 'o' && "atom"@[3] == 'm');
    reveal_strlit("atom?");
    assert("atom?"@.len() == 5 && "atom?"@[0] == 'a' && "atom?"@[1] == 't' && "atom?"@[2] == 'o' && "atom?"@[3] == 'm');
    reveal_strlit("deref");
    assert("deref"@.len() == 5 && "deref"@[0] == 'd' && "deref"@[1] == 'e' && "deref"@[2] == 'r' && "deref"@[3] == 'e');
    reveal_strlit("reset!");
    assert("reset!"@.len() == 6 && "reset!"@[0] == 'r' && "reset!"@[1] == 'e' && "reset!"@[2] == 's' && "reset!"@[3] == 'e');
    reveal_strlit("swap!");
    assert("swap!"@.len() == 5 && "swap!"@[0] == 's' && "swap!"@[1] == 'w' && "swap!"@[2] == 'a' && "swap!"@[3] == 'p');
    reveal_strlit("throw");
    assert("throw"@.len() == 5 && "throw"@[0] == 't' && "throw"@[1] == 'h' && "throw"@[2] == 'r' && "throw"@[3] == 'o');
    reveal_strlit("nil?");
    assert("nil?"@.len() == 4 && "nil?"@[0] == 'n' && "nil?"@[1] == 'i' && "nil?"@[2] == 'l' && "nil?"@[3] == '?');
    reveal_strlit("true?");
    assert("true?"@.len() == 5 && "true?"@[0] == 't' && "true?"@[1] == 'r' && "true?"@[2] == 'u' && "true?"@[3] == 'e');
    reveal_strlit("false?");
    assert("false?"@.len() == 6 && "false?"@[0] == 'f' && "false?"@[1] == 'a' && "false?"@[2] == 'l' && "false?"@[3] == 's');
    reveal_strlit("symbol?");
    assert("symbol?"@.len() == 7 && "symbol?"@[0] == 's' && "symbol?"@[1] == 'y' && "symbol?"@[2] == 'm' && "symbol?"@[3] == 'b');
    reveal_strlit("symbol");
    assert("symbol"@.len() == 6 && "symbol"@[0] == 's' && "symbol"@[1] == 'y' && "symbol"@[2] == 'm' && "symbol"@[3] == 'b');
    reveal_strlit("keyword?");
    assert("keyword?"@.len() == 8 && "keyword?"@[0] == 'k' && "keyword?"@[1] == 'e' && "keyword?"@[2] == 'y' && "keyword?"@[3] == 'w');
    reveal_strlit("keyword");
    assert("keyword"@.len() == 7 && "keyword"@[0] == 'k' && "keyword"@[1] == 'e' && "keyword"@[2] == 'y' && "keyword"@[3] == 'w');
    reveal_strlit("apply");
    assert("apply"@.len() == 5 && "apply"@[0] == 'a' && "apply"@[1] == 'p' && "apply"@[2] == 'p' && "apply"@[3] == 'l');
    reveal_strlit("map");
    assert("map"@.len() == 3 && "map"@[0] == 'm' && "map"@[1] == 'a' && "map"@[2] == 'p');
    reveal_strlit("vector");
    assert("vector"@.len() == 6 && "vector"@[0] == 'v' && "vector"@[1] == 'e' && "vector"@[2] == 'c' && "vector"@[3] == 't');
    reveal_strlit("vector?");
    assert("vector?"@.len() == 7 && "vector?"@[0] == 'v' && "vector?"@[1] == 'e' && "vector?"@[2] == 'c' && "vector?"@[3] == 't');
    reveal_strlit("sequential?");
    assert("sequential?"@.len() == 11 && "sequential?"@[0] == 's' && "sequential?"@[1] == 'e' && "sequential?"@[2] == 'q' && "sequential?"@[3] == 'u');
    reveal_strlit("hash-map");
    assert("hash-map"@.len() == 8 && "hash-map"@[0] == 'h' && "hash-map"@[1] == 'a' && "hash-map"@[2] == 's' && "hash-map"@[3] == 'h');
    reveal_strlit("map?");
    assert("map?"@.len() == 4 && "map?"@[0] == 'm' && "map?"@[1] == 'a' && "map?"@[2] == 'p' && "map?"@[3] == '?');
    reveal_strlit("assoc");
    assert("assoc"@.len() == 5 && "assoc"@[0] == 'a' && "assoc"@[1] == 's' && "assoc"@[2] == 's' && "assoc"@[3] == 'o');
    reveal_strlit("dissoc");
    assert("dissoc"@.len() == 6 && "dissoc"@[0] == 'd' && "dissoc"@[1] == 'i' && "dissoc"@[2] == 's' && "dissoc"@[3] == 's');
    reveal_strlit("get");
    assert("get"@.len() == 3 && "get"@[0] == 'g' && "get"@[1] == 'e' && "get"@[2] == 't');
    reveal_strlit("contains?");
    assert("contains?"@.len() == 9 && "contains?"@[0] == 'c' && "contains?"@[1] == 'o' && "contains?"@[2] == 'n' && "contains?"@[3] == 't');
    reveal_strlit("keys");
    assert("keys"@.len() == 4 && "keys"@[0] == 'k' && "keys"@[1] == 'e' && "keys"@[2] == 'y' && "keys"@[3] == 's');
    reveal_strlit("vals");
    assert("vals"@.len() == 4 && "vals"@[0] == 'v' && "vals"@[1] == 'a' && "vals"@[2] == 'l' && "vals"@[3] == 's');
    reveal_strlit("readline");
    assert("readline"@.len() == 8 && "readline"@[0] == 'r' && "readline"@[1] == 'e' && "readline"@[2] == 'a' && "readline"@[3] == 'd');
    reveal_strlit("meta");
    assert("meta"@.len() == 4 && "meta"@[0] == 'm' && "meta"@[1] == 'e' && "meta"@[2] == 't' && "meta"@[3] == 'a');
    reveal_strlit("with-meta");
    assert("with-meta"@.len() == 9 && "with-meta"@[0] == 'w' && "with-meta"@[1] == 'i' && "with-meta"@[2] == 't' && "with-meta"@[3] == 'h');
    reveal_strlit("string?");
    assert("string?"@.len() == 7 && "string?"@[0] == 's' && "string?"@[1] == 't' && "string?"@[2] == 'r' && "string?"@[3] == 'i');
    reveal_strlit("number?");
    assert("number?"@.len() == 7 && "number?"@[0] == 'n' && "number?"@[1] == 'u' && "number?"@[2] == 'm' && "number?"@[3] == 'b');
    reveal_strlit("fn?");
    assert("fn?"@.len() == 3 && "fn?"@[0] == 'f' && "fn?"@[1] == 'n' && "fn?"@[2] == '?');
    reveal_strlit("macro?");
    assert("macro?"@.len() == 6 && "macro?"@[0] == 'm' && "macro?"@[1] == 'a' && "macro?"@[2] == 'c' && "macro?"@[3] == 'r');
    reveal_strlit("time-ms");
    assert("time-ms"@.len() == 7 && "time-ms"@[0] == 't' && "time-ms"@[1] == 'i' && "time-ms"@[2] == 'm' && "time-ms"@[3] == 'e');
    reveal_strlit("seq");
    assert("seq"@.len() == 3 && "seq"@[0] == 's' && "seq"@[1] == 'e' && "seq"@[2] == 'q');
}

/// Every native function has its place in the table.
pub proof fn lemma_table_complete(b: Builtin)
    ensures
        0 <= builtin_index(b) < BUILTIN_COUNT,
        builtin_at(builtin_index(b)) == b,
{
}

/// Every place of the table holds another native function.
pub proof fn lemma_table_places(i: int)
    requires
        0 <= i < BUILTIN_COUNT,
    ensures
        builtin_index(builtin_at(i)) == i,
{
}

/// The native function at a place of the table.
fn builtin_number(i: usize) -> (b: Builtin)
    ensures
        b == builtin_at(i as int),
{
    if i == 0 {
        Builtin::Add
    } else if i == 1 {
        Builtin::Subtract
    } else if i == 2 {
        Builtin::Multiply
    } else if i == 3 {
        Builtin::Divide
    } else if i == 4 {
        Builtin::Prn
    } else if i == 5 {
        Builtin::Println
    } else if i == 6 {
        Builtin::PrStr
    } else if i == 7 {
        Builtin::Str
    } else if i == 8 {
        Builtin::List
    } else if i == 9 {
        Builtin::IsList
    } else if i == 10 {
        Builtin::Cons
    } else if i == 11 {
        Builtin::Concat
    } else if i == 12 {
        Builtin::Empty
    } else if i == 13 {
        Builtin::Count
    } else if i == 14 {
        Builtin::Nth
    } else if i == 15 {
        Builtin::First
    } else if i == 16 {
        Builtin::Rest
    } else if i == 17 {
        Builtin::Conj
    } else if i == 18 {
        Builtin::Equals
    } else if i == 19 {
        Builtin::Lt
    } else if i == 20 {
        Builtin::Lte
    } else if i == 21 {
        Builtin::Gt
    } else if i == 22 {
        Builtin::Gte
    } else if i == 23 {
        Builtin::ReadString
    } else if i == 24 {
        Builtin::Slurp
    } else if i == 25 {
        Builtin::Eval
    } else if i == 26 {
        Builtin::Atom
    } else if i == 27 {
        Builtin::IsAtom
    } else if i == 28 {
        Builtin::Deref
    } else if i == 29 {
        Builtin::Reset
    } else if i == 30 {
        Builtin::Swap
    } else if i == 31 {
        Builtin::Throw
    } else if i == 32 {
        Builtin::IsNil
    } else if i == 33 {
        Builtin::IsTrue
    } else if i == 34 {
        Builtin::IsFalse
    } else if i == 35 {
        Builtin::IsSymbol
    } else if i == 36 {
        Builtin::Symbol
    } else if i == 37 {
        Builtin::IsKeyword
    } else if i == 38 {
        Builtin::Keyword
    } else if i == 39 {
        Builtin::Apply
    } else if i == 40 {
        Builtin::MapOver
    } else if i == 41 {
        Builtin::Vector
    } else if i == 42 {
        Builtin::IsVector
    } else if i == 43 {
        Builtin::IsSequential
    } else if i == 44 {
        Builtin::HashMap
    } else if i == 45 {
        Builtin::IsMap
    } else if i == 46 {
        Builtin::Assoc
    } else if i == 47 {
        Builtin::Dissoc
    } else if i == 48 {
        Builtin::Get
    } else if i == 49 {
        Builtin::Contains
    } else if i == 50 {
        Builtin::Keys
    } else if i == 51 {
        Builtin::Vals
    } else if i == 52 {
        Builtin::Readline
    } else if i == 53 {
        Builtin::Meta
    } else if i == 54 {
        Builtin::WithMeta
    } else if i == 55 {
        Builtin::IsString
    } else if i == 56 {
        Builtin::IsNumber
    } else if i == 57 {
        Builtin::IsFn
    } else if i == 58 {
        Builtin::IsMacro
    } else if i == 59 {
        Builtin::TimeMs
    } else {
        Builtin::ToSeq
    }
}

/// The name under which a native function is bound.
pub fn name_of(b: Builtin) -> (r: &'static str)
    ensures
        r@ == builtin_name(b),
{
    match b {
        Builtin::Add => "+",
        Builtin::Subtract => "-",
        Builtin::Multiply => "*",
        Builtin::Divide => "/",
        Builtin::Prn => "prn",
        Builtin::Println => "println",
        Builtin::PrStr => "pr-str",
        Builtin::Str => "str",
        Builtin::List => "list",
        Builtin::IsList => "list?",
        Builtin::Cons => "cons",
        Builtin::Concat => "concat",
        Builtin::Empty => "empty?",
        Builtin::Count => "count",
        Builtin::Nth => "nth",
        Builtin::First => "first",
        Builtin::Rest => "rest",
        Builtin::Conj => "conj",
        Builtin::Equals => "=",
        Builtin::Lt => "<",
        Builtin::Lte => "<=",
        Builtin::Gt => ">",
        Builtin::Gte => ">=",
        Builtin::ReadString => "read-string",
        Builtin::Slurp => "slurp",
        Builtin::Eval => "eval",
        Builtin::Atom => "atom",
        Builtin::IsAtom => "atom?",
        Builtin::Deref => "deref",
        Builtin::Reset => "reset!",
        Builtin::Swap => "swap!",
        Builtin::Throw => "throw",
        Builtin::IsNil => "nil?",
        Builtin::IsTrue => "true?",
        Builtin::IsFalse => "false?",
        Builtin::IsSymbol => "symbol?",
        Builtin::Symbol => "symbol",
        Builtin::IsKeyword => "keyword?",
        Builtin::Keyword => "keyword",
        Builtin::Apply => "apply",
        Builtin::MapOver => "map",
        Builtin::Vector => "vector",
        Builtin::IsVector => "vector?",
        Builtin::IsSequential => "sequential?",
        Builtin::HashMap => "hash-map",
        Builtin::IsMap => "map?",
        Builtin::Assoc => "assoc",
        Builtin::Dissoc => "dissoc",
        Builtin::Get => "get",
        Builtin::Contains => "contains?",
        Builtin::Keys => "keys",
        Builtin::Vals => "vals",
        Builtin::Readline => "readline",
        Builtin::Meta => "meta",
        Builtin::WithMeta => "with-meta",
        Builtin::IsString => "string?",
        Builtin::IsNumber => "number?",
        Builtin::IsFn => "fn?",
        Builtin::IsMacro => "macro?",
        Builtin::TimeMs => "time-ms",
        Builtin::ToSeq => "seq",
    }
}

/// The table of the builtin library: each name with its native function, made for the
/// environment `env`.
pub fn ns(env: EnvId) -> (r: Vec<(&'static str, MalValue)>)
    ensures
        r@.len() == BUILTIN_COUNT,
        forall|i: int|
            0 <= i < BUILTIN_COUNT ==> (#[trigger] r@[i]).0@ == builtin_name(builtin_at(i))
                && r@[i].1@ == Val::plain(Kind::RustFunc { func: builtin_at(i), env }),
{
    let mut table: Vec<(&'static str, MalValue)> = Vec::new();
    let mut i: usize = 0;
    while i < BUILTIN_COUNT
        invariant
            i <= BUILTIN_COUNT,
            table@.len() == i,
            forall|j: int|
                0 <= j < i ==> (#[trigger] table@[j]).0@ == builtin_name(builtin_at(j))
                    && table@[j].1@ == Val::plain(Kind::RustFunc { func: builtin_at(j), env }),
        decreases BUILTIN_COUNT - i,
    {
        let b = builtin_number(i);
        table.push((name_of(b), MalValue::new_rust_func(b, env)));
        i += 1;
    }
    table
}

/// What a call of a native function gives and the cells after it. Only `atom` and
/// `reset!` change the cells.
pub open spec fn call_result(func: Builtin, args: Seq<Val>, env: EnvId, atoms: Seq<Val>) -> (
    Result<NextView, ErrView>,
    Seq<Val>,
) {
    match func {
        Builtin::Atom => (done(atom_result(args, atoms).0), atom_result(args, atoms).1),
        Builtin::Reset => (done(reset_result(args, atoms).0), reset_result(args, atoms).1),
        _ => (pure_result(func, args, env, atoms), atoms),
    }
}

/// What a call of a native function gives that leaves the cells as they are.
pub open spec fn pure_result(func: Builtin, args: Seq<Val>, env: EnvId, atoms: Seq<Val>) -> Result<
    NextView,
    ErrView,
> {
    match func {
        Builtin::Add => done(arithmetic_result(args, Arithmetic::Add)),
        Builtin::Subtract => done(arithmetic_result(args, Arithmetic::Subtract)),
        Builtin::Multiply => done(arithmetic_result(args, Arithmetic::Multiply)),
        Builtin::Divide => done(arithmetic_result(args, Arithmetic::Divide)),
        Builtin::Prn => print_result(args, true, atoms),
        Builtin::Println => print_result(args, false, atoms),
        Builtin::PrStr => Ok(
            NextView::Done(Val::string(joined_text(args, args.len(), true, " "@, atoms))),
        ),
        Builtin::Str => Ok(
            NextView::Done(Val::string(joined_text(args, args.len(), false, ""@, atoms))),
        ),
        Builtin::List => Ok(NextView::Done(Val::list(args))),
        Builtin::IsList => done(predicate_result(args, Question::IsList)),
        Builtin::Cons => done(cons_result(args)),
        Builtin::Concat => done(concat_result(args)),
        Builtin::Empty => done(empty_result(args)),
        Builtin::Count => done(count_result(args)),
        Builtin::Nth => done(nth_result(args)),
        Builtin::First => done(first_result(args)),
        Builtin::Rest => done(rest_result(args)),
        Builtin::Conj => done(conj_result(args)),
        Builtin::Equals => done(equals_result(args)),
        Builtin::Lt => done(comparison_result(args, Comparison::Lt)),
        Builtin::Lte => done(comparison_result(args, Comparison::Lte)),
        Builtin::Gt => done(comparison_result(args, Comparison::Gt)),
        Builtin::Gte => done(comparison_result(args, Comparison::Gte)),
        Builtin::ReadString => done(read_string_result(args)),
        Builtin::Slurp => slurp_result(args),
        Builtin::Eval => eval_result(args, env),
        Builtin::Atom => done(atom_result(args, atoms).0),
        Builtin::IsAtom => done(predicate_result(args, Question::IsAtom)),
        Builtin::Deref => done(deref_result(args, atoms)),
        Builtin::Reset => done(reset_result(args, atoms).0),
        Builtin::Swap => swap_result(args, atoms),
        Builtin::Throw => done(throw_result(args)),
        Builtin::IsNil => done(predicate_result(args, Question::IsNil)),
        Builtin::IsTrue => done(predicate_result(args, Question::IsTrue)),
        Builtin::IsFalse => done(predicate_result(args, Question::IsFalse)),
        Builtin::IsSymbol => done(predicate_result(args, Question::IsSymbol)),
        Builtin::Symbol => done(symbol_result(args)),
        Builtin::IsKeyword => done(predicate_result(args, Question::IsKeyword)),
        Builtin::Keyword => done(keyword_result(args)),
        Builtin::Apply => apply_result(args),
        Builtin::MapOver => map_result(args),
        Builtin::Vector => Ok(NextView::Done(Val::vector(args))),
        Builtin::IsVector => done(predicate_result(args, Question::IsVector)),
        Builtin::IsSequential => done(predicate_result(args, Question::IsSequential)),
        Builtin::HashMap => done(map_value(map_assoc_result(Seq::empty(), args))),
        Builtin::IsMap => done(predicate_result(args, Question::IsMap)),
        Builtin::Assoc => done(assoc_result(args)),
        Builtin::Dissoc => done(dissoc_result(args)),
        Builtin::Get => done(get_result(args)),
        Builtin::Contains => done(contains_result(args)),
        Builtin::Keys => done(keys_result(args)),
        Builtin::Vals => done(vals_result(args)),
        Builtin::Readline => readline_result(args),
        Builtin::Meta => done(meta_result(args)),
        Builtin::WithMeta => done(with_meta_result(args)),
        Builtin::IsString => done(predicate_result(args, Question::IsString)),
        Builtin::IsNumber => done(predicate_result(args, Question::IsNumber)),
        Builtin::IsFn => done(predicate_result(args, Question::IsFn)),
        Builtin::IsMacro => done(predicate_result(args, Question::IsMacro)),
        Builtin::TimeMs => time_ms_result(args),
        Builtin::ToSeq => done(seq_result(args)),
    }
}

/// Calls the native function `func` on evaluated arguments. `env` is the environment that
/// the function value was made for.
pub fn call(func: Builtin, args: &[MalValue], env: EnvId, atoms: &mut Atoms) -> (r: Result<
    Next,
    MalError,
>)
    ensures
        (next_view(r), final(atoms)@) == call_result(func, views(args@), env, old(atoms)@),
{
    match func {
        Builtin::Add => finish(eval_arithmetic_operation(args, Arithmetic::Add)),
        Builtin::Subtract => finish(eval_arithmetic_operation(args, Arithmetic::Subtract)),
        Builtin::Multiply => finish(eval_arithmetic_operation(args, Arithmetic::Multiply)),
        Builtin::Divide => finish(eval_arithmetic_operation(args, Arithmetic::Divide)),
        Builtin::Prn => prn(args, atoms),
        Builtin::Println => mal_println(args, atoms),
        Builtin::PrStr => finish(mal_pr_str(args, atoms)),
        Builtin::Str => finish(mal_str(args, atoms)),
        Builtin::List => finish(list(args)),
        Builtin::IsList => finish(is_list(args)),
        Builtin::Cons => finish(cons(args)),
        Builtin::Concat => finish(concat(args)),
        Builtin::Empty => finish(empty(args)),
        Builtin::Count => finish(count(args)),
        Builtin::Nth => finish(nth(args)),
        Builtin::First => finish(first(args)),
        Builtin::Rest => finish(rest(args)),
        Builtin::Conj => finish(conj(args)),
        Builtin::Equals => finish(equals(args)),
        Builtin::Lt => finish(lt(args)),
        Builtin::Lte => finish(lte(args)),
        Builtin::Gt => finish(gt(args)),
        Builtin::Gte => finish(gte(args)),
        Builtin::ReadString => finish(read_string(args)),
        Builtin::Slurp => slurp(args),
        Builtin::Eval => mal_eval(args, env),
        Builtin::Atom => finish(atom(args, atoms)),
        Builtin::IsAtom => finish(is_atom(args)),
        Builtin::Deref => finish(deref_atom(args, atoms)),
        Builtin::Reset => finish(reset_atom(args, atoms)),
        Builtin::Swap => swap_atom(args, atoms),
        Builtin::Throw => finish(throw(args)),
        Builtin::IsNil => finish(is_nil(args)),
        Builtin::IsTrue => finish(is_true(args)),
        Builtin::IsFalse => finish(is_false(args)),
        Builtin::IsSymbol => finish(is_symbol(args)),
        Builtin::Symbol => finish(symbol(args)),
        Builtin::IsKeyword => finish(is_keyword(args)),
        Builtin::Keyword => finish(keyword(args)),
        Builtin::Apply => apply(args),
        Builtin::MapOver => map(args),
        Builtin::Vector => finish(vector(args)),
        Builtin::IsVector => finish(is_vector(args)),
        Builtin::IsSequential => finish(is_sequential(args)),
        Builtin::HashMap => finish(hash_map(args)),
        Builtin::IsMap => finish(is_map(args)),
        Builtin::Assoc => finish(assoc(args)),
        Builtin::Dissoc => finish(dissoc(args)),
        Builtin::Get => finish(get(args)),
        Builtin::Contains => finish(contains(args)),
        Builtin::Keys => finish(keys(args)),
        Builtin::Vals => finish(vals(args)),
        Builtin::Readline => readline(args),
        Builtin::Meta => finish(meta(args)),
        Builtin::WithMeta => finish(with_meta(args)),
        Builtin::IsString => finish(is_string(args)),
        Builtin::IsNumber => finish(is_number(args)),
        Builtin::IsFn => finish(is_fn(args)),
        Builtin::IsMacro => finish(is_macro(args)),
        Builtin::TimeMs => time_ms(args),
        Builtin::ToSeq => finish(seq(args)),
    }
}

} // verus!
