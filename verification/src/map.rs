//! The associative map of the language: keys are strings and keywords, kept in the order
//! in which they were first inserted.
use crate::text::str_equal;
use crate::types::{
    entry_views, lemma_value_view, views, ErrView, Kind, MalError, MalMap, MalMapEntry, MalValue,
    MalValueType, Val,
};
use vstd::prelude::*;
use vstd::string::StringExecFns;

verus! {

/// What a key is compared by: whether it is a keyword, and its text. `None` for a value
/// that cannot be a key.
pub open spec fn key_token(v: Val) -> Option<(bool, Seq<char>)> {
    match v.kind {
        Kind::Str(s) => Some((false, s)),
        Kind::Keyword(s) => Some((true, s)),
        _ => None,
    }
}

/// The index of the last entry whose key has the token `t`.
pub open spec fn map_index(m: Seq<(Val, Val)>, t: (bool, Seq<char>)) -> Option<int>
    decreases m.len(),
{
    if m.len() == 0 {
        None
    } else if key_token(m.last().0) == Some(t) {
        Some(m.len() - 1)
    } else {
        map_index(m.drop_last(), t)
    }
}

/// Whether the map has an entry for the key `k`.
pub open spec fn map_contains(m: Seq<(Val, Val)>, k: Val) -> bool {
    key_token(k) matches Some(t) && map_index(m, t) is Some
}

/// The value bound to the key `k`, `nil` where there is none.
pub open spec fn map_get(m: Seq<(Val, Val)>, k: Val) -> Val {
    match key_token(k) {
        Some(t) => match map_index(m, t) {
            Some(i) => m[i].1,
            None => Val::nil(),
        },
        None => Val::nil(),
    }
}

/// The map with `k` bound to `v`: an entry with the same key keeps its place and its key,
/// a new key goes to the end.
pub open spec fn map_insert(m: Seq<(Val, Val)>, k: Val, v: Val) -> Seq<(Val, Val)> {
    match key_token(k) {
        Some(t) => match map_index(m, t) {
            Some(i) => m.update(i, (m[i].0, v)),
            None => m.push((k, v)),
        },
        None => m,
    }
}

/// The map without the entry for the key `k`.
pub open spec fn map_remove(m: Seq<(Val, Val)>, k: Val) -> Seq<(Val, Val)> {
    match key_token(k) {
        Some(t) => match map_index(m, t) {
            Some(i) => m.remove(i),
            None => m,
        },
        None => m,
    }
}

/// Whether the values at the even positions below `n` can all be keys.
pub open spec fn keys_valid(args: Seq<Val>, n: int) -> bool {
    forall|i: int| 0 <= i < n && i % 2 == 0 ==> key_token(#[trigger] args[i]) is Some
}

/// Whether all the values can be keys.
pub open spec fn all_keys(keys: Seq<Val>) -> bool {
    forall|i: int| 0 <= i < keys.len() ==> key_token(#[trigger] keys[i]) is Some
}

/// The map after the first `n` arguments, taken as alternating keys and values, were
/// inserted in order.
pub open spec fn map_assoc(m: Seq<(Val, Val)>, args: Seq<Val>, n: nat) -> Seq<(Val, Val)>
    decreases n,
{
    if n < 2 {
        m
    } else {
        map_insert(map_assoc(m, args, (n - 2) as nat), args[n - 2], args[n - 1])
    }
}

/// The map after the first `n` keys were removed in order.
pub open spec fn map_dissoc(m: Seq<(Val, Val)>, keys: Seq<Val>, n: nat) -> Seq<(Val, Val)>
    decreases n,
{
    if n == 0 {
        m
    } else {
        map_remove(map_dissoc(m, keys, (n - 1) as nat), keys[n - 1])
    }
}

/// The error for an odd number of arguments.
pub open spec fn odd_arguments_error() -> ErrView {
    ErrView::Parser("hash map must have an even number of arguments"@)
}

/// The error for a key that is neither a string nor a keyword.
pub open spec fn bad_key_error() -> ErrView {
    ErrView::Parser("hash map keys must be strings or keywords"@)
}

/// What inserting alternating keys and values into `m` gives: an error for an odd count
/// or for a key that is neither a string nor a keyword.
pub open spec fn map_assoc_result(m: Seq<(Val, Val)>, args: Seq<Val>) -> Result<
    Seq<(Val, Val)>,
    ErrView,
> {
    if args.len() % 2 != 0 {
        Err(odd_arguments_error())
    } else if !keys_valid(args, args.len() as int) {
        Err(bad_key_error())
    } else {
        Ok(map_assoc(m, args, args.len()))
    }
}

/// What removing the keys from `m` gives: an error for a key that is neither a string nor
/// a keyword.
pub open spec fn map_dissoc_result(m: Seq<(Val, Val)>, keys: Seq<Val>) -> Result<
    Seq<(Val, Val)>,
    ErrView,
> {
    if !all_keys(keys) {
        Err(bad_key_error())
    } else {
        Ok(map_dissoc(m, keys, keys.len()))
    }
}

/// The model of a result that holds a map.
pub open spec fn map_result_view(r: Result<MalMap, MalError>) -> Result<Seq<(Val, Val)>, ErrView> {
    match r {
        Ok(m) => Ok(m@),
        Err(e) => Err(e@),
    }
}

/// Every key can be a key, and no two entries have the same key.
pub open spec fn map_wf(m: Seq<(Val, Val)>) -> bool {
    &&& forall|i: int| 0 <= i < m.len() ==> key_token((#[trigger] m[i]).0) is Some
    &&& forall|i: int, j: int|
        0 <= i < j < m.len() ==> key_token((#[trigger] m[i]).0) != key_token((#[trigger] m[j]).0)
}

/// The keys of the map, as the tokens they are compared by.
pub open spec fn key_set(m: Seq<(Val, Val)>) -> Set<(bool, Seq<char>)> {
    Set::new(|t: (bool, Seq<char>)| map_index(m, t) is Some)
}

/// An index that `map_index` gives lies in the map, at an entry with that key, and no
/// later entry has the key; where it gives none, no entry has the key.
pub proof fn lemma_map_index(m: Seq<(Val, Val)>, t: (bool, Seq<char>))
    ensures
        match map_index(m, t) {
            Some(i) => 0 <= i < m.len() && key_token(m[i].0) == Some(t) && forall|j: int|
                i < j < m.len() ==> key_token((#[trigger] m[j]).0) != Some(t),
            None => forall|j: int| 0 <= j < m.len() ==> key_token((#[trigger] m[j]).0) != Some(t),
        },
    decreases m.len(),
{
    if m.len() > 0 && key_token(m.last().0) != Some(t) {
        let d = m.drop_last();
        lemma_map_index(d, t);
        assert forall|j: int| 0 <= j < d.len() implies #[trigger] m[j] == d[j] by {}
        match map_index(d, t) {
            Some(i) => {
                assert forall|j: int| i < j < m.len() implies key_token((#[trigger] m[j]).0)
                    != Some(t) by {
                    if j < d.len() {
                        assert(m[j] == d[j]);
                    }
                }
            },
            None => {
                assert forall|j: int| 0 <= j < m.len() implies key_token((#[trigger] m[j]).0)
                    != Some(t) by {
                    if j < d.len() {
                        assert(m[j] == d[j]);
                    }
                }
            },
        }
    }
}

/// The index of the last entry with the token is the one that `map_index` gives.
pub proof fn lemma_map_index_is(m: Seq<(Val, Val)>, t: (bool, Seq<char>), i: int)
    requires
        0 <= i < m.len(),
        key_token(m[i].0) == Some(t),
        forall|j: int| i < j < m.len() ==> key_token((#[trigger] m[j]).0) != Some(t),
    ensures
        map_index(m, t) == Some(i),
    decreases m.len(),
{
    if i < m.len() - 1 {
        lemma_map_index_is(m.drop_last(), t, i);
    }
}

/// Where no entry has the token, `map_index` gives none.
pub proof fn lemma_map_index_none(m: Seq<(Val, Val)>, t: (bool, Seq<char>))
    requires
        forall|j: int| 0 <= j < m.len() ==> key_token((#[trigger] m[j]).0) != Some(t),
    ensures
        map_index(m, t) is None,
    decreases m.len(),
{
    if m.len() > 0 {
        lemma_map_index_none(m.drop_last(), t);
    }
}

/// Inserting keeps a map well formed.
pub proof fn lemma_insert_wf(m: Seq<(Val, Val)>, k: Val, v: Val)
    requires
        map_wf(m),
    ensures
        map_wf(map_insert(m, k, v)),
{
    if let Some(t) = key_token(k) {
        lemma_map_index(m, t);
    }
}

/// Removing keeps a map well formed.
pub proof fn lemma_remove_wf(m: Seq<(Val, Val)>, k: Val)
    requires
        map_wf(m),
    ensures
        map_wf(map_remove(m, k)),
{
    if let Some(t) = key_token(k) {
        lemma_map_index(m, t);
    }
}

/// Inserting alternating keys and values keeps a map well formed.
pub proof fn lemma_assoc_wf(m: Seq<(Val, Val)>, args: Seq<Val>, n: nat)
    requires
        map_wf(m),
    ensures
        map_wf(map_assoc(m, args, n)),
    decreases n,
{
    if n >= 2 {
        lemma_assoc_wf(m, args, (n - 2) as nat);
        lemma_insert_wf(map_assoc(m, args, (n - 2) as nat), args[n - 2], args[n - 1]);
    }
}

/// Removing keys keeps a map well formed.
pub proof fn lemma_dissoc_wf(m: Seq<(Val, Val)>, keys: Seq<Val>, n: nat)
    requires
        map_wf(m),
    ensures
        map_wf(map_dissoc(m, keys, n)),
    decreases n,
{
    if n >= 1 {
        lemma_dissoc_wf(m, keys, (n - 1) as nat);
        lemma_remove_wf(map_dissoc(m, keys, (n - 1) as nat), keys[n - 1]);
    }
}

/// Inserting a key that the map does not hold and removing it again gives the map back,
/// and so its set of keys.
pub proof fn lemma_assoc_dissoc_restores(m: Seq<(Val, Val)>, k: Val, v: Val)
    requires
        key_token(k) is Some,
        !map_contains(m, k),
    ensures
        map_remove(map_insert(m, k, v), k) == m,
        key_set(map_remove(map_insert(m, k, v), k)) == key_set(m),
{
    let t = key_token(k)->0;
    let m2 = m.push((k, v));
    assert(m2.drop_last() =~= m);
    assert(map_index(m2, t) == Some(m.len() as int));
    assert(m2.remove(m.len() as int) =~= m);
}

/// Whatever the map held, after a key was inserted and removed again the map does not
/// hold it, and every other key is held as before.
pub proof fn lemma_assoc_dissoc_keys(m: Seq<(Val, Val)>, k: Val, v: Val)
    requires
        key_token(k) is Some,
        map_wf(m),
    ensures
        key_set(map_remove(map_insert(m, k, v), k)) == key_set(m).remove(key_token(k)->0),
{
    let t = key_token(k)->0;
    let m1 = map_insert(m, k, v);
    let m2 = map_remove(m1, k);
    lemma_map_index(m, t);
    lemma_insert_wf(m, k, v);
    if map_index(m, t) is Some {
        let i = map_index(m, t)->0;
        lemma_map_index_is(m1, t, i);
    } else {
        assert(m1.drop_last() =~= m);
    }
    lemma_map_index(m1, t);
    let i1 = map_index(m1, t)->0;
    assert(m2 == m1.remove(i1));
    assert forall|u: (bool, Seq<char>)| key_set(m2).contains(u) == key_set(m).remove(t).contains(
        u,
    ) by {
        lemma_map_index(m2, u);
        lemma_map_index(m, u);
        lemma_map_index(m1, u);
        if u == t {
            lemma_map_index_none(m2, t);
        } else if map_index(m, u) is Some {
            let j = map_index(m, u)->0;
            assert(key_token(m1[j].0) == Some(u));
            let j2 = if j < i1 {
                j
            } else {
                j - 1
            };
            assert(m2[j2] == m1[j]);
            assert(key_token(m2[j2].0) == Some(u));
        } else {
            if map_index(m2, u) is Some {
                let j2 = map_index(m2, u)->0;
                let j1 = if j2 < i1 {
                    j2
                } else {
                    j2 + 1
                };
                assert(m2[j2] == m1[j1]);
                assert(key_token(m1[j1].0) == Some(u));
                assert(j1 < m.len());
                assert(key_token(m[j1].0) == Some(u));
            }
        }
    }
    assert(key_set(m2) =~= key_set(m).remove(t));
}

/// Whether two values are keys with the same token.
fn same_key(a: &MalValue, b: &MalValue) -> (r: bool)
    ensures
        r == (key_token(a@) is Some && key_token(a@) == key_token(b@)),
{
    proof {
        lemma_value_view(*a);
        lemma_value_view(*b);
    }
    match (&*a.mal_type, &*b.mal_type) {
        (MalValueType::Str(x), MalValueType::Str(y)) => str_equal(x.as_str(), y.as_str()),
        (MalValueType::Keyword(x), MalValueType::Keyword(y)) => str_equal(x.as_str(), y.as_str()),
        _ => false,
    }
}

/// Whether the value can be a key: a string or a keyword.
pub fn is_key(v: &MalValue) -> (r: bool)
    ensures
        r == key_token(v@) is Some,
{
    proof {
        lemma_value_view(*v);
    }
    match &*v.mal_type {
        MalValueType::Str(_) => true,
        MalValueType::Keyword(_) => true,
        _ => false,
    }
}

/// The index of the last entry with the key.
pub(crate) fn position(entries: &Vec<MalMapEntry>, key: &MalValue) -> (r: Option<usize>)
    requires
        key_token(key@) is Some,
    ensures
        match r {
            Some(i) => map_index(entry_views(entries@), key_token(key@)->0) == Some(i as int) && i
                < entries@.len(),
            None => map_index(entry_views(entries@), key_token(key@)->0) is None,
        },
{
    let ghost m = entry_views(entries@);
    let ghost t = key_token(key@)->0;
    let mut i = entries.len();
    while i > 0
        invariant
            i <= entries@.len(),
            m == entry_views(entries@),
            t == key_token(key@)->0,
            key_token(key@) is Some,
            forall|j: int| i <= j < m.len() ==> key_token((#[trigger] m[j]).0) != Some(t),
        decreases i,
    {
        i -= 1;
        if same_key(&entries[i].key, key) {
            proof {
                lemma_map_index_is(m, t, i as int);
            }
            return Some(i);
        }
    }
    proof {
        lemma_map_index_none(m, t);
    }
    None
}

/// A copy of the entries.
fn copy_entries(entries: &Vec<MalMapEntry>) -> (r: Vec<MalMapEntry>)
    ensures
        entry_views(r@) == entry_views(entries@),
{
    let mut out: Vec<MalMapEntry> = Vec::new();
    let mut i: usize = 0;
    while i < entries.len()
        invariant
            i <= entries@.len(),
            out@.len() == i,
            forall|j: int| 0 <= j < i ==> (#[trigger] out@[j]).key@ == entries@[j].key@ && out@[j].value@ == entries@[j].value@,
        decreases entries.len() - i,
    {
        out.push(MalMapEntry { key: entries[i].key.clone(), value: entries[i].value.clone() });
        i += 1;
    }
    assert(entry_views(out@) =~= entry_views(entries@));
    out
}

/// Binds a key in place, or at the end where the key is new.
fn insert_entry(entries: &mut Vec<MalMapEntry>, key: &MalValue, value: &MalValue)
    requires
        key_token(key@) is Some,
    ensures
        entry_views(final(entries)@) == map_insert(entry_views(old(entries)@), key@, value@),
{
    match position(entries, key) {
        Some(i) => {
            let kept = entries[i].key.clone();
            entries.set(i, MalMapEntry { key: kept, value: value.clone() });
            assert(entry_views(entries@) =~= map_insert(entry_views(old(entries)@), key@, value@));
        },
        None => {
            entries.push(MalMapEntry { key: key.clone(), value: value.clone() });
            assert(entry_views(entries@) =~= map_insert(entry_views(old(entries)@), key@, value@));
        },
    }
}

/// Removes the entry of a key.
fn remove_entry(entries: &mut Vec<MalMapEntry>, key: &MalValue)
    requires
        key_token(key@) is Some,
    ensures
        entry_views(final(entries)@) == map_remove(entry_views(old(entries)@), key@),
{
    match position(entries, key) {
        Some(i) => {
            let _ = entries.remove(i);
            assert(entry_views(entries@) =~= map_remove(entry_views(old(entries)@), key@));
        },
        None => {},
    }
}

/// The error for an odd number of arguments.
fn odd_arguments() -> (e: MalError)
    ensures
        e@ == odd_arguments_error(),
{
    MalError::Parser(String::from_str("hash map must have an even number of arguments"))
}

/// The error for a key that is neither a string nor a keyword.
fn bad_key() -> (e: MalError)
    ensures
        e@ == bad_key_error(),
{
    MalError::Parser(String::from_str("hash map keys must be strings or keywords"))
}

impl MalMap {
    /// The empty map.
    pub fn new() -> (r: MalMap)
        ensures
            r@ == Seq::<(Val, Val)>::empty(),
            map_wf(r@),
    {
        let r = MalMap { entries: Vec::new() };
        assert(r@ =~= Seq::<(Val, Val)>::empty());
        r
    }

    /// The map that alternating keys and values describe. A later value for a key takes
    /// the place of an earlier one.
    pub fn from_arguments(arguments: &[MalValue]) -> (r: Result<MalMap, MalError>)
        ensures
            map_result_view(r) == map_assoc_result(Seq::empty(), views(arguments@)),
            r matches Ok(m) ==> map_wf(m@),
    {
        let empty = MalMap::new();
        empty.assoc(arguments)
    }

    /// This map with the alternating keys and values inserted in order.
    pub fn assoc(&self, arguments: &[MalValue]) -> (r: Result<MalMap, MalError>)
        ensures
            map_result_view(r) == map_assoc_result(self@, views(arguments@)),
            map_wf(self@) ==> (r matches Ok(m) ==> map_wf(m@)),
    {
        let ghost args = views(arguments@);
        proof {
            if map_wf(self@) {
                lemma_assoc_wf(self@, args, args.len());
            }
        }
        if arguments.len() % 2 != 0 {
            return Err(odd_arguments());
        }
        let mut entries = copy_entries(&self.entries);
        let mut i: usize = 0;
        while i < arguments.len()
            invariant
                i <= arguments@.len(),
                i % 2 == 0,
                arguments@.len() % 2 == 0,
                args == views(arguments@),
                keys_valid(args, i as int),
                entry_views(entries@) == map_assoc(self@, args, i as nat),
            decreases arguments.len() - i,
        {
            if !is_key(&arguments[i]) {
                assert(key_token(args[i as int]) is None);
                return Err(bad_key());
            }
            insert_entry(&mut entries, &arguments[i], &arguments[i + 1]);
            i += 2;
        }
        Ok(MalMap { entries })
    }

    /// This map without the entries for the given keys.
    pub fn dissoc(&self, keys: &[MalValue]) -> (r: Result<MalMap, MalError>)
        ensures
            map_result_view(r) == map_dissoc_result(self@, views(keys@)),
            map_wf(self@) ==> (r matches Ok(m) ==> map_wf(m@)),
    {
        let ghost ks = views(keys@);
        proof {
            if map_wf(self@) {
                lemma_dissoc_wf(self@, ks, ks.len());
            }
        }
        let mut entries = copy_entries(&self.entries);
        let mut i: usize = 0;
        while i < keys.len()
            invariant
                i <= keys@.len(),
                ks == views(keys@),
                forall|j: int| 0 <= j < i ==> key_token(#[trigger] ks[j]) is Some,
                entry_views(entries@) == map_dissoc(self@, ks, i as nat),
            decreases keys.len() - i,
        {
            if !is_key(&keys[i]) {
                assert(key_token(ks[i as int]) is None);
                return Err(bad_key());
            }
            remove_entry(&mut entries, &keys[i]);
            i += 1;
        }
        Ok(MalMap { entries })
    }

    /// The value bound to `key`; `nil` where the map has no such key.
    pub fn get(&self, key: &MalValue) -> (r: MalValue)
        ensures
            r@ == map_get(self@, key@),
    {
        if !is_key(key) {
            return MalValue::nil();
        }
        match position(&self.entries, key) {
            Some(i) => self.entries[i].value.clone(),
            None => MalValue::nil(),
        }
    }

    /// Whether the map has an entry for `key`.
    pub fn contains(&self, key: &MalValue) -> (r: bool)
        ensures
            r == map_contains(self@, key@),
    {
        if !is_key(key) {
            return false;
        }
        position(&self.entries, key).is_some()
    }

    /// The number of entries.
    pub fn len(&self) -> (r: usize)
        ensures
            r == self@.len(),
    {
        self.entries.len()
    }

    /// The entries as pairs of key and value, in the order of the map. The keys are the
    /// values that were inserted, with their own types.
    pub fn iter(&self) -> (r: Vec<(MalValue, MalValue)>)
        ensures
            r@.len() == self@.len(),
            forall|i: int| 0 <= i < r@.len() ==> ((#[trigger] r@[i]).0@, r@[i].1@) == self@[i],
    {
        let mut out: Vec<(MalValue, MalValue)> = Vec::new();
        let mut i: usize = 0;
        while i < self.entries.len()
            invariant
                i <= self.entries@.len(),
                out@.len() == i,
                forall|j: int| 0 <= j < i ==> ((#[trigger] out@[j]).0@, out@[j].1@) == self@[j],
            decreases self.entries.len() - i,
        {
            out.push((self.entries[i].key.clone(), self.entries[i].value.clone()));
            i += 1;
        }
        out
    }

    /// The keys, in the order of the map.
    pub fn keys(&self) -> (r: Vec<MalValue>)
        ensures
            views(r@) == map_keys(self@),
    {
        let mut out: Vec<MalValue> = Vec::new();
        let mut i: usize = 0;
        while i < self.entries.len()
            invariant
                i <= self.entries@.len(),
                out@.len() == i,
                forall|j: int| 0 <= j < i ==> (#[trigger] out@[j])@ == self@[j].0,
            decreases self.entries.len() - i,
        {
            out.push(self.entries[i].key.clone());
            i += 1;
        }
        assert(views(out@) =~= map_keys(self@));
        out
    }

    /// The values, in the order of the map.
    pub fn vals(&self) -> (r: Vec<MalValue>)
        ensures
            views(r@) == map_vals(self@),
    {
        let mut out: Vec<MalValue> = Vec::new();
        let mut i: usize = 0;
        while i < self.entries.len()
            invariant
                i <= self.entries@.len(),
                out@.len() == i,
                forall|j: int| 0 <= j < i ==> (#[trigger] out@[j])@ == self@[j].1,
            decreases self.entries.len() - i,
        {
            out.push(self.entries[i].value.clone());
            i += 1;
        }
        assert(views(out@) =~= map_vals(self@));
        out
    }
}

impl Default for MalMap {
    /// The empty map.
    fn default() -> (r: Self)
        ensures
            r@ == Seq::<(Val, Val)>::empty(),
    {
        MalMap::new()
    }
}

/// The keys of a map, in its order.
pub open spec fn map_keys(m: Seq<(Val, Val)>) -> Seq<Val> {
    Seq::new(m.len(), |i: int| m[i].0)
}

/// The values of a map, in its order.
pub open spec fn map_vals(m: Seq<(Val, Val)>) -> Seq<Val> {
    Seq::new(m.len(), |i: int| m[i].1)
}

} // verus!
