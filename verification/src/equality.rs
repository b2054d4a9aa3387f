//! Equality of values: structural, with lists and vectors compared by their elements
//! alone, maps by their keys and values whatever their order, and mutable cells equal to
//! nothing. Metadata plays no part.
use crate::map::{is_key, key_token, map_index, position};
use crate::number::{number_eq, number_equal};
use crate::text::str_equal;
use crate::types::{
    lemma_value_view, name_views, views, Kind, MalMap, MalValue, MalValueType, Val,
};
use vstd::prelude::*;

verus! {

/// Equality of two values: numbers by IEEE equality, lists and vectors by length and
/// elements, maps by equal counts and, for each key of either, an entry of the other for
/// that key with an equal value; a mutable cell is equal to nothing.
pub open spec fn values_equal(a: Val, b: Val) -> bool
    decreases a,
{
    match (a.kind, b.kind) {
        (Kind::Nil, Kind::Nil) => true,
        (Kind::True, Kind::True) => true,
        (Kind::False, Kind::False) => true,
        (Kind::Number(x), Kind::Number(y)) => number_eq(x, y),
        (Kind::Symbol(x), Kind::Symbol(y)) => x == y,
        (Kind::Str(x), Kind::Str(y)) => x == y,
        (Kind::Keyword(x), Kind::Keyword(y)) => x == y,
        (Kind::List(x), Kind::List(y)) => x.len() == y.len() && forall|i: int|
            0 <= i < x.len() ==> values_equal(#[trigger] x[i], y[i]),
        (Kind::List(x), Kind::Vector(y)) => x.len() == y.len() && forall|i: int|
            0 <= i < x.len() ==> values_equal(#[trigger] x[i], y[i]),
        (Kind::Vector(x), Kind::List(y)) => x.len() == y.len() && forall|i: int|
            0 <= i < x.len() ==> values_equal(#[trigger] x[i], y[i]),
        (Kind::Vector(x), Kind::Vector(y)) => x.len() == y.len() && forall|i: int|
            0 <= i < x.len() ==> values_equal(#[trigger] x[i], y[i]),
        (Kind::HashMap(x), Kind::HashMap(y)) => {
            &&& x.len() == y.len()
            &&& forall|i: int|
                0 <= i < x.len() ==> match key_token((#[trigger] x[i]).0) {
                    Some(t) => match map_index(y, t) {
                        Some(j) => 0 <= j < y.len() && values_equal(x[i].1, y[j].1),
                        None => false,
                    },
                    None => true,
                }
            &&& forall|j: int|
                0 <= j < y.len() ==> match key_token((#[trigger] y[j]).0) {
                    Some(t) => match map_index(x, t) {
                        Some(i) => 0 <= i < x.len() && values_equal(x[i].1, y[j].1),
                        None => false,
                    },
                    None => true,
                }
        },
        (Kind::RustFunc { func: f1, env: e1 }, Kind::RustFunc { func: f2, env: e2 }) => f1 == f2
            && e1 == e2,
        (
            Kind::MalFunc { body: body_a, parameters: names_a, outer_env: env_a, is_macro: macro_a },
            Kind::MalFunc { body: body_b, parameters: names_b, outer_env: env_b, is_macro: macro_b },
        ) => values_equal(*body_a, *body_b) && names_a == names_b && env_a == env_b && macro_a
            == macro_b,
        _ => false,
    }
}

/// Equality is symmetric.
pub proof fn lemma_values_equal_symmetric(a: Val, b: Val)
    ensures
        values_equal(a, b) == values_equal(b, a),
    decreases a,
{
    match (a.kind, b.kind) {
        (Kind::List(x), Kind::List(y)) => {
            lemma_items_symmetric(x, y);
        },
        (Kind::List(x), Kind::Vector(y)) => {
            lemma_items_symmetric(x, y);
        },
        (Kind::Vector(x), Kind::List(y)) => {
            lemma_items_symmetric(x, y);
        },
        (Kind::Vector(x), Kind::Vector(y)) => {
            lemma_items_symmetric(x, y);
        },
        (Kind::HashMap(x), Kind::HashMap(y)) => {
            assert forall|i: int, j: int| 0 <= i < x.len() && 0 <= j < y.len() implies values_equal(
                (#[trigger] x[i]).1,
                (#[trigger] y[j]).1,
            ) == values_equal(y[j].1, x[i].1) by {
                lemma_values_equal_symmetric(x[i].1, y[j].1);
            }
            if values_equal(a, b) {
                lemma_entries_symmetric(x, y);
            }
            if values_equal(b, a) {
                lemma_entries_symmetric(y, x);
            }
        },
        (Kind::MalFunc { body: b1, .. }, Kind::MalFunc { body: b2, .. }) => {
            lemma_values_equal_symmetric(*b1, *b2);
        },
        _ => {},
    }
}

/// Where two maps are equal one way round, and the values of their entries are equal
/// either way round alike, the maps are equal the other way round.
proof fn lemma_entries_symmetric(x: Seq<(Val, Val)>, y: Seq<(Val, Val)>)
    requires
        forall|i: int, j: int|
            0 <= i < x.len() && 0 <= j < y.len() ==> values_equal(
                (#[trigger] x[i]).1,
                (#[trigger] y[j]).1,
            ) == values_equal(y[j].1, x[i].1),
        values_equal(Val::plain(Kind::HashMap(x)), Val::plain(Kind::HashMap(y))),
    ensures
        values_equal(Val::plain(Kind::HashMap(y)), Val::plain(Kind::HashMap(x))),
{
    assert forall|j: int| 0 <= j < y.len() implies match key_token((#[trigger] y[j]).0) {
        Some(t) => match map_index(x, t) {
            Some(i) => 0 <= i < x.len() && values_equal(y[j].1, x[i].1),
            None => false,
        },
        None => true,
    } by {
        if let Some(t) = key_token(y[j].0) {
            let i = map_index(x, t)->0;
            let _ = x[i];
        }
    }
    assert forall|i: int| 0 <= i < x.len() implies match key_token((#[trigger] x[i]).0) {
        Some(t) => match map_index(y, t) {
            Some(j) => 0 <= j < y.len() && values_equal(y[j].1, x[i].1),
            None => false,
        },
        None => true,
    } by {
        if let Some(t) = key_token(x[i].0) {
            let j = map_index(y, t)->0;
            let _ = y[j];
        }
    }
}

/// Equality of the elements at the same places is symmetric.
proof fn lemma_items_symmetric(x: Seq<Val>, y: Seq<Val>)
    ensures
        forall|i: int|
            0 <= i < x.len() && i < y.len() ==> values_equal(#[trigger] x[i], y[i]) == values_equal(
                y[i],
                x[i],
            ),
    decreases x,
{
    assert forall|i: int| 0 <= i < x.len() && i < y.len() implies values_equal(
        #[trigger] x[i],
        y[i],
    ) == values_equal(y[i], x[i]) by {
        lemma_values_equal_symmetric(x[i], y[i]);
    }
}

/// Whether a sequence is written as a list or as a vector plays no part in equality.
pub proof fn lemma_sequence_kinds_equal(x: Seq<Val>, y: Seq<Val>)
    ensures
        values_equal(Val::list(x), Val::vector(y)) == values_equal(Val::list(x), Val::list(y)),
        values_equal(Val::vector(x), Val::list(y)) == values_equal(Val::list(x), Val::list(y)),
        values_equal(Val::vector(x), Val::vector(y)) == values_equal(Val::list(x), Val::list(y)),
{
}

/// A mutable cell is equal to no value, itself included.
pub proof fn lemma_atom_equals_nothing(a: Val, b: Val)
    requires
        a.kind is Atom || b.kind is Atom,
    ensures
        !values_equal(a, b),
{
}

/// Metadata plays no part in equality.
pub proof fn lemma_meta_ignored(a: Val, b: Val, m: Option<Box<Val>>, n: Option<Box<Val>>)
    ensures
        values_equal(Val { kind: a.kind, meta: m }, Val { kind: b.kind, meta: n }) == values_equal(
            a,
            b,
        ),
{
}

/// Decides equality of two sequences of values.
fn items_eq(x: &Vec<MalValue>, y: &Vec<MalValue>) -> (r: bool)
    ensures
        r == (x@.len() == y@.len() && forall|i: int|
            0 <= i < x@.len() ==> values_equal(#[trigger] views(x@)[i], views(y@)[i])),
    decreases x,
{
    if x.len() != y.len() {
        return false;
    }
    let mut i: usize = 0;
    while i < x.len()
        invariant
            i <= x@.len(),
            x@.len() == y@.len(),
            forall|j: int| 0 <= j < i ==> values_equal(#[trigger] views(x@)[j], views(y@)[j]),
        decreases x.len() - i,
    {
        if !values_eq(&x[i], &y[i]) {
            assert(!values_equal(views(x@)[i as int], views(y@)[i as int]));
            return false;
        }
        i += 1;
    }
    true
}

/// Whether the entry `e` has a partner in `y` with an equal value.
spec fn entry_matched(e: (Val, Val), y: Seq<(Val, Val)>) -> bool {
    match key_token(e.0) {
        Some(t) => match map_index(y, t) {
            Some(j) => 0 <= j < y.len() && values_equal(e.1, y[j].1),
            None => false,
        },
        None => true,
    }
}

/// Whether the entry `e` has a partner in `x` whose value is equal to its own.
spec fn entry_matched_back(x: Seq<(Val, Val)>, e: (Val, Val)) -> bool {
    match key_token(e.0) {
        Some(t) => match map_index(x, t) {
            Some(i) => 0 <= i < x.len() && values_equal(x[i].1, e.1),
            None => false,
        },
        None => true,
    }
}

/// Decides whether each entry of either map has a partner in the other with an equal
/// value.
fn maps_eq(x: &MalMap, y: &MalMap) -> (r: bool)
    ensures
        r == ((forall|i: int| 0 <= i < x@.len() ==> entry_matched(#[trigger] x@[i], y@)) && (
        forall|j: int| 0 <= j < y@.len() ==> entry_matched_back(x@, #[trigger] y@[j]))),
    decreases x,
{
    let mut i: usize = 0;
    while i < x.entries.len()
        invariant
            i <= x.entries@.len(),
            forall|k: int| 0 <= k < i ==> entry_matched(#[trigger] x@[k], y@),
        decreases x.entries.len() - i,
    {
        let e = &x.entries[i];
        let same = if is_key(&e.key) {
            let p = position(&y.entries, &e.key);
            if p.is_some() {
                let j = p.unwrap();
                values_eq(&e.value, &y.entries[j].value)
            } else {
                false
            }
        } else {
            true
        };
        assert(same == entry_matched(x@[i as int], y@));
        if !same {
            return false;
        }
        i += 1;
    }
    let mut j: usize = 0;
    while j < y.entries.len()
        invariant
            j <= y.entries@.len(),
            forall|k: int| 0 <= k < x@.len() ==> entry_matched(#[trigger] x@[k], y@),
            forall|k: int| 0 <= k < j ==> entry_matched_back(x@, #[trigger] y@[k]),
        decreases y.entries.len() - j,
    {
        let e = &y.entries[j];
        let same = if is_key(&e.key) {
            let p = position(&x.entries, &e.key);
            if p.is_some() {
                let i = p.unwrap();
                values_eq(&x.entries[i].value, &e.value)
            } else {
                false
            }
        } else {
            true
        };
        assert(same == entry_matched_back(x@, y@[j as int]));
        if !same {
            return false;
        }
        j += 1;
    }
    true
}

/// Decides equality of two lists of names.
fn names_eq(x: &Vec<String>, y: &Vec<String>) -> (r: bool)
    ensures
        r == (name_views(x@) == name_views(y@)),
{
    if x.len() != y.len() {
        assert(name_views(x@).len() != name_views(y@).len());
        return false;
    }
    let mut i: usize = 0;
    while i < x.len()
        invariant
            i <= x@.len(),
            x@.len() == y@.len(),
            forall|j: int| 0 <= j < i ==> x@[j]@ == y@[j]@,
        decreases x.len() - i,
    {
        if !str_equal(x[i].as_str(), y[i].as_str()) {
            assert(name_views(x@)[i as int] != name_views(y@)[i as int]);
            return false;
        }
        i += 1;
    }
    assert(name_views(x@) =~= name_views(y@));
    true
}

/// Decides equality of two values.
pub fn values_eq(a: &MalValue, b: &MalValue) -> (r: bool)
    ensures
        r == values_equal(a@, b@),
    decreases a,
{
    proof {
        lemma_value_view(*a);
        lemma_value_view(*b);
    }
    match (&*a.mal_type, &*b.mal_type) {
        (MalValueType::Nil, MalValueType::Nil) => true,
        (MalValueType::True, MalValueType::True) => true,
        (MalValueType::False, MalValueType::False) => true,
        (MalValueType::Number(x), MalValueType::Number(y)) => number_equal(*x, *y),
        (MalValueType::Symbol(x), MalValueType::Symbol(y)) => str_equal(x.as_str(), y.as_str()),
        (MalValueType::Str(x), MalValueType::Str(y)) => str_equal(x.as_str(), y.as_str()),
        (MalValueType::Keyword(x), MalValueType::Keyword(y)) => str_equal(x.as_str(), y.as_str()),
        (MalValueType::List(x), MalValueType::List(y)) => items_eq(x, y),
        (MalValueType::List(x), MalValueType::Vector(y)) => items_eq(x, y),
        (MalValueType::Vector(x), MalValueType::List(y)) => items_eq(x, y),
        (MalValueType::Vector(x), MalValueType::Vector(y)) => items_eq(x, y),
        (MalValueType::HashMap(x), MalValueType::HashMap(y)) => {
            x.len() == y.len() && maps_eq(x, y)
        },
        (MalValueType::RustFunc(x), MalValueType::RustFunc(y)) => x.func == y.func && x.env
            == y.env,
        (MalValueType::MalFunc(x), MalValueType::MalFunc(y)) => {
            values_eq(&x.body, &y.body) && names_eq(&x.parameters, &y.parameters) && x.outer_env
                == y.outer_env && x.is_macro == y.is_macro
        },
        _ => false,
    }
}

impl PartialEq for MalValue {
    fn eq(&self, other: &MalValue) -> (r: bool) {
        values_eq(self, other)
    }
}

impl vstd::std_specs::cmp::PartialEqSpecImpl for MalValue {
    open spec fn obeys_eq_spec() -> bool {
        true
    }

    open spec fn eq_spec(&self, other: &MalValue) -> bool {
        values_equal(self@, other@)
    }
}

} // verus!
