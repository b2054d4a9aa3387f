//! Reading is the inverse of printing: the text that the printer writes for a value
//! reads back as that value.
use crate::map::{key_token, lemma_map_index_none, map_assoc, map_assoc_result, map_wf};
use crate::number::{
    digits_text, is_digit, is_numeral, parsed_number, shortest_digits, shortest_text, skip_digits,
    skip_sign, MAX_NUMERAL_LEN,
};
use crate::printer::{
    entries_text, escaped, escaped_char, items_text, pr_str_text, string_text, value_text,
};
use crate::reader::{
    form_at, forms_until, is_delimiter, name_token, read_text, skip_blank, skip_name,
    starts_number, string_body, tokens_from, tokens_of,
};
use crate::types::{ErrView, Kind, TokenView, Val};
use vstd::prelude::*;

verus! {

/// Whether no character of the text ends a name.
pub open spec fn no_delimiters(s: Seq<char>) -> bool {
    forall|i: int| 0 <= i < s.len() ==> !is_delimiter(#[trigger] s[i])
}

/// Whether the text is read as a symbol of that name: it is not empty, holds no
/// delimiter, does not start like a prefix, a keyword or a number, and is none of `nil`,
/// `true` and `false`.
pub open spec fn is_symbol_text(s: Seq<char>) -> bool {
    &&& s.len() > 0
    &&& no_delimiters(s)
    &&& s[0] != '~'
    &&& s[0] != '@'
    &&& s[0] != ':'
    &&& !starts_number(s)
    &&& s != "nil"@
    &&& s != "true"@
    &&& s != "false"@
}

/// Whether the text of the number reads back as the number: true of every number that is
/// neither an infinity nor a NaN, as far as the decimal parser and printer are each
/// other's inverse.
pub open spec fn number_reads_back(n: u64) -> bool {
    shortest_digits(n, 1, true) is Some || shortest_digits(n, 1, false) is Some
}

/// Whether a value is one that text can stand for: it is built from `nil`, booleans,
/// numbers whose text reads back, symbols and keywords with readable names, strings,
/// lists, vectors and well-formed maps, and carries no metadata.
pub open spec fn is_readable(v: Val) -> bool
    decreases v,
{
    v.meta is None && match v.kind {
        Kind::Nil => true,
        Kind::True => true,
        Kind::False => true,
        Kind::Number(n) => number_reads_back(n),
        Kind::Symbol(s) => is_symbol_text(s),
        Kind::Str(_) => true,
        Kind::Keyword(s) => no_delimiters(s),
        Kind::List(items) => forall|i: int| 0 <= i < items.len() ==> is_readable(#[trigger] items[i]),
        Kind::Vector(items) => forall|i: int|
            0 <= i < items.len() ==> is_readable(#[trigger] items[i]),
        Kind::HashMap(entries) => map_wf(entries) && forall|i: int|
            0 <= i < entries.len() ==> is_readable((#[trigger] entries[i]).0) && is_readable(
                entries[i].1,
            ),
        _ => false,
    }
}

/// The tokens that the text of a readable value is made of.
pub open spec fn value_tokens(v: Val) -> Seq<TokenView>
    decreases v,
{
    match v.kind {
        Kind::Nil => seq![TokenView::Nil],
        Kind::True => seq![TokenView::True],
        Kind::False => seq![TokenView::False],
        Kind::Number(n) => seq![TokenView::Number(n)],
        Kind::Symbol(s) => seq![TokenView::Symbol(s)],
        Kind::Str(s) => seq![TokenView::Str(s)],
        Kind::Keyword(s) => seq![TokenView::Keyword(s)],
        Kind::List(items) => seq![TokenView::LParen] + items_tokens(items, items.len())
            + seq![TokenView::RParen],
        Kind::Vector(items) => seq![TokenView::LBracket] + items_tokens(items, items.len())
            + seq![TokenView::RBracket],
        Kind::HashMap(entries) => seq![TokenView::LCurly] + entries_tokens(
            entries,
            2 * entries.len(),
        ) + seq![TokenView::RCurly],
        _ => seq![TokenView::Symbol("#<function>"@)],
    }
}

/// The tokens of the first `n` values.
pub open spec fn items_tokens(items: Seq<Val>, n: nat) -> Seq<TokenView>
    decreases items, n,
{
    if n == 0 || n > items.len() {
        seq![]
    } else {
        items_tokens(items, (n - 1) as nat) + value_tokens(items[n - 1])
    }
}

/// The key or the value of an entry, counted through the map: keys at the even places.
pub open spec fn entry_part(entries: Seq<(Val, Val)>, j: int) -> Val {
    if j % 2 == 0 {
        entries[j / 2].0
    } else {
        entries[j / 2].1
    }
}

/// The tokens of the first `n` keys and values.
pub open spec fn entries_tokens(entries: Seq<(Val, Val)>, n: nat) -> Seq<TokenView>
    decreases entries, n,
{
    if n == 0 || n > 2 * entries.len() {
        seq![]
    } else {
        entries_tokens(entries, (n - 1) as nat) + value_tokens(entry_part(entries, n - 1))
    }
}

/// Whether the tokens `t` stand in `ts` from index `p` on.
pub open spec fn tokens_at(ts: Seq<TokenView>, p: int, t: Seq<TokenView>) -> bool {
    0 <= p && p + t.len() <= ts.len() && ts.subrange(p, p + t.len()) == t
}

/// Whether a token closes a list, a vector or a map.
pub open spec fn is_closer(t: TokenView) -> bool {
    t is RParen || t is RBracket || t is RCurly
}

/// The tokens of a value are not empty, and the first is no closing bracket.
pub proof fn lemma_tokens_start(v: Val)
    ensures
        value_tokens(v).len() > 0,
        !is_closer(value_tokens(v)[0]),
{
}

/// Where two runs of tokens stand one behind the other, each stands at its place.
proof fn lemma_tokens_at_split(ts: Seq<TokenView>, p: int, a: Seq<TokenView>, b: Seq<TokenView>)
    requires
        tokens_at(ts, p, a + b),
    ensures
        tokens_at(ts, p, a),
        tokens_at(ts, p + a.len(), b),
{
    let whole = ts.subrange(p, p + (a + b).len());
    assert(ts.subrange(p, p + a.len()) =~= whole.subrange(0, a.len() as int));
    assert(whole.subrange(0, a.len() as int) =~= a);
    assert(ts.subrange(p + a.len(), p + a.len() + b.len()) =~= whole.subrange(
        a.len() as int,
        (a + b).len() as int,
    ));
    assert(whole.subrange(a.len() as int, (a + b).len() as int) =~= b);
}

/// Where the tokens of the first `n` values stand, the tokens of each of them stand
/// behind those of the values before it.
proof fn lemma_items_tokens_at(ts: Seq<TokenView>, p: int, items: Seq<Val>, n: nat, k: nat)
    requires
        n <= items.len(),
        k < n,
        tokens_at(ts, p, items_tokens(items, n)),
    ensures
        tokens_at(ts, p, items_tokens(items, k)),
        tokens_at(ts, p + items_tokens(items, k).len(), value_tokens(items[k as int])),
        items_tokens(items, (k + 1) as nat) == items_tokens(items, k) + value_tokens(
            items[k as int],
        ),
        p + items_tokens(items, (k + 1) as nat).len() <= p + items_tokens(items, n).len(),
    decreases n,
{
    lemma_tokens_at_split(
        ts,
        p,
        items_tokens(items, (n - 1) as nat),
        value_tokens(items[n - 1]),
    );
    if k < n - 1 {
        lemma_items_tokens_at(ts, p, items, (n - 1) as nat, k);
    }
}

/// Where the tokens of the first `n` keys and values stand, the tokens of each of
/// them stand behind those before it.
proof fn lemma_entries_tokens_at(
    ts: Seq<TokenView>,
    p: int,
    entries: Seq<(Val, Val)>,
    n: nat,
    k: nat,
)
    requires
        n <= 2 * entries.len(),
        k < n,
        tokens_at(ts, p, entries_tokens(entries, n)),
    ensures
        tokens_at(ts, p, entries_tokens(entries, k)),
        tokens_at(ts, p + entries_tokens(entries, k).len(), value_tokens(entry_part(entries, k as int))),
        entries_tokens(entries, (k + 1) as nat) == entries_tokens(entries, k) + value_tokens(
            entry_part(entries, k as int),
        ),
        p + entries_tokens(entries, (k + 1) as nat).len() <= p + entries_tokens(entries, n).len(),
    decreases n,
{
    lemma_tokens_at_split(
        ts,
        p,
        entries_tokens(entries, (n - 1) as nat),
        value_tokens(entry_part(entries, n - 1)),
    );
    if k < n - 1 {
        lemma_entries_tokens_at(ts, p, entries, (n - 1) as nat, k);
    }
}

/// The keys and values of a map, alternating.
pub open spec fn flattened(entries: Seq<(Val, Val)>) -> Seq<Val> {
    Seq::new(2 * entries.len(), |j: int| entry_part(entries, j))
}

/// Inserting the keys and values of a well-formed map into the empty map, in order,
/// gives the map.
proof fn lemma_assoc_flattened(entries: Seq<(Val, Val)>, k: nat)
    requires
        map_wf(entries),
        k <= entries.len(),
    ensures
        map_assoc(seq![], flattened(entries), 2 * k) == entries.take(k as int),
    decreases k,
{
    if k == 0 {
        assert(entries.take(0) =~= seq![]);
    } else {
        lemma_assoc_flattened(entries, (k - 1) as nat);
        let before = entries.take(k - 1);
        let key = entries[k - 1].0;
        let t = key_token(key)->0;
        assert(flattened(entries)[2 * k - 2] == key);
        assert(flattened(entries)[2 * k - 1] == entries[k - 1].1);
        assert forall|j: int| 0 <= j < before.len() implies key_token((#[trigger] before[j]).0)
            != Some(t) by {
            assert(before[j] == entries[j]);
        }
        lemma_map_index_none(before, t);
        assert(before.push((key, entries[k - 1].1)) =~= entries.take(k as int));
    }
}

/// The tokens of a readable value are parsed as the value.
pub proof fn lemma_parse_value(ts: Seq<TokenView>, p: int, v: Val)
    requires
        is_readable(v),
        tokens_at(ts, p, value_tokens(v)),
    ensures
        form_at(ts, p) == Ok::<(Val, int), ErrView>((v, p + value_tokens(v).len())),
    decreases v, 0nat,
{
    let t = value_tokens(v);
    assert(ts[p] == ts.subrange(p, p + t.len())[0]);
    match v.kind {
        Kind::List(items) => {
            let inner = items_tokens(items, items.len());
            lemma_tokens_at_split(ts, p, seq![TokenView::LParen] + inner, seq![TokenView::RParen]);
            lemma_tokens_at_split(ts, p, seq![TokenView::LParen], inner);
            let end = p + 1 + inner.len();
            assert(ts[end] == ts.subrange(end, end + 1)[0]);
            assert(items.take(0) =~= seq![]);
            lemma_parse_items(ts, p + 1, items, 0, TokenView::RParen);
            assert(v == Val::list(items));
        },
        Kind::Vector(items) => {
            let inner = items_tokens(items, items.len());
            lemma_tokens_at_split(
                ts,
                p,
                seq![TokenView::LBracket] + inner,
                seq![TokenView::RBracket],
            );
            lemma_tokens_at_split(ts, p, seq![TokenView::LBracket], inner);
            let end = p + 1 + inner.len();
            assert(ts[end] == ts.subrange(end, end + 1)[0]);
            assert(items.take(0) =~= seq![]);
            lemma_parse_items(ts, p + 1, items, 0, TokenView::RBracket);
            assert(v == Val::vector(items));
        },
        Kind::HashMap(entries) => {
            let inner = entries_tokens(entries, 2 * entries.len());
            lemma_tokens_at_split(ts, p, seq![TokenView::LCurly] + inner, seq![TokenView::RCurly]);
            lemma_tokens_at_split(ts, p, seq![TokenView::LCurly], inner);
            let end = p + 1 + inner.len();
            assert(ts[end] == ts.subrange(end, end + 1)[0]);
            assert(flattened(entries).take(0) =~= seq![]);
            lemma_parse_entries(ts, p + 1, entries, 0);
            lemma_assoc_flattened(entries, entries.len());
            assert(entries.take(entries.len() as int) =~= entries);
            assert forall|i: int| 0 <= i < 2 * entries.len() && i % 2 == 0 implies key_token(
                #[trigger] flattened(entries)[i],
            ) is Some by {
                assert(flattened(entries)[i] == entries[i / 2].0);
            }
            assert(map_assoc_result(seq![], flattened(entries)) == Ok::<Seq<(Val, Val)>, ErrView>(
                entries,
            ));
            assert(v == Val::plain(Kind::HashMap(entries)));
        },
        _ => {},
    }
}

/// The tokens of readable values before a closing bracket are parsed as the values.
proof fn lemma_parse_items(ts: Seq<TokenView>, start: int, items: Seq<Val>, k: nat, close: TokenView)
    requires
        k <= items.len(),
        is_closer(close),
        forall|i: int| 0 <= i < items.len() ==> is_readable(#[trigger] items[i]),
        tokens_at(ts, start, items_tokens(items, items.len())),
        start + items_tokens(items, items.len()).len() < ts.len(),
        ts[start + items_tokens(items, items.len()).len()] == close,
    ensures
        forms_until(ts, start + items_tokens(items, k).len(), close, items.take(k as int)) == Ok::<
            (Seq<Val>, int),
            ErrView,
        >((items, start + items_tokens(items, items.len()).len() + 1)),
    decreases items, items.len() - k,
{
    let n = items.len();
    let q = start + items_tokens(items, k).len();
    if k == n {
        assert(items.take(k as int) =~= items);
    } else {
        lemma_items_tokens_at(ts, start, items, n, k);
        let item = items[k as int];
        lemma_tokens_start(item);
        assert(ts[q] == ts.subrange(q, q + value_tokens(item).len())[0]);
        lemma_parse_value(ts, q, item);
        assert(items.take(k as int).push(item) =~= items.take(k as int + 1));
        lemma_parse_items(ts, start, items, k + 1, close);
    }
}

/// The tokens of readable keys and values before a closing brace are parsed as the
/// keys and values.
proof fn lemma_parse_entries(ts: Seq<TokenView>, start: int, entries: Seq<(Val, Val)>, k: nat)
    requires
        k <= 2 * entries.len(),
        forall|i: int|
            0 <= i < entries.len() ==> is_readable((#[trigger] entries[i]).0) && is_readable(
                entries[i].1,
            ),
        tokens_at(ts, start, entries_tokens(entries, 2 * entries.len())),
        start + entries_tokens(entries, 2 * entries.len()).len() < ts.len(),
        ts[start + entries_tokens(entries, 2 * entries.len()).len()] == TokenView::RCurly,
    ensures
        forms_until(
            ts,
            start + entries_tokens(entries, k).len(),
            TokenView::RCurly,
            flattened(entries).take(k as int),
        ) == Ok::<(Seq<Val>, int), ErrView>(
            (flattened(entries), start + entries_tokens(entries, 2 * entries.len()).len() + 1),
        ),
    decreases entries, 2 * entries.len() - k,
{
    let n = 2 * entries.len();
    let q = start + entries_tokens(entries, k).len();
    if k == n {
        assert(flattened(entries).take(k as int) =~= flattened(entries));
    } else {
        lemma_entries_tokens_at(ts, start, entries, n, k);
        let item = entry_part(entries, k as int);
        let _ = entries[k as int / 2];
        lemma_tokens_start(item);
        assert(ts[q] == ts.subrange(q, q + value_tokens(item).len())[0]);
        lemma_parse_value(ts, q, item);
        assert(flattened(entries).take(k as int).push(item) =~= flattened(entries).take(k as int + 1));
        lemma_parse_entries(ts, start, entries, k + 1);
    }
}


/// Whether the text `t` stands in `s` from index `p` on.
pub open spec fn text_at(s: Seq<char>, p: int, t: Seq<char>) -> bool {
    0 <= p && p + t.len() <= s.len() && s.subrange(p, p + t.len()) == t
}

/// Whether a name that ends before index `p` ends there: the text ends, or a delimiter
/// follows.
pub open spec fn ends_token(s: Seq<char>, p: int) -> bool {
    0 <= p <= s.len() && (p < s.len() ==> is_delimiter(s[p]))
}

/// Whether a name can start with the character: no delimiter and no prefix character.
pub open spec fn starts_name(c: char) -> bool {
    !is_delimiter(c) && c != '~' && c != '@'
}

/// Where two texts stand one behind the other, each stands at its place.
proof fn lemma_text_at_split(s: Seq<char>, p: int, a: Seq<char>, b: Seq<char>)
    requires
        text_at(s, p, a + b),
    ensures
        text_at(s, p, a),
        text_at(s, p + a.len(), b),
{
    let whole = s.subrange(p, p + (a + b).len());
    assert(s.subrange(p, p + a.len()) =~= whole.subrange(0, a.len() as int));
    assert(whole.subrange(0, a.len() as int) =~= a);
    assert(s.subrange(p + a.len(), p + a.len() + b.len()) =~= whole.subrange(
        a.len() as int,
        (a + b).len() as int,
    ));
    assert(whole.subrange(a.len() as int, (a + b).len() as int) =~= b);
}

/// A text that stands at a place has its characters there.
proof fn lemma_text_at_char(s: Seq<char>, p: int, t: Seq<char>, i: int)
    requires
        text_at(s, p, t),
        0 <= i < t.len(),
    ensures
        s[p + i] == t[i],
{
    assert(s.subrange(p, p + t.len())[i] == s[p + i]);
}

/// A run of characters that are no delimiters, before a delimiter or the end, is
/// skipped as one name.
proof fn lemma_skip_name_exact(s: Seq<char>, p: int, n: nat)
    requires
        0 <= p,
        p + n <= s.len(),
        forall|i: int| p <= i < p + n ==> !is_delimiter(#[trigger] s[i]),
        ends_token(s, p + n),
    ensures
        skip_name(s, p) == p + n,
    decreases n,
{
    if n > 0 {
        assert(!is_delimiter(s[p]));
        lemma_skip_name_exact(s, p + 1, (n - 1) as nat);
    }
}

/// The three names that are no symbols, character by character.
proof fn lemma_literals()
    ensures
        "nil"@ == seq!['n', 'i', 'l'],
        "true"@ == seq!['t', 'r', 'u', 'e'],
        "false"@ == seq!['f', 'a', 'l', 's', 'e'],
{
    reveal_strlit("nil");
    reveal_strlit("true");
    reveal_strlit("false");
    assert("nil"@ =~= seq!['n', 'i', 'l']);
    assert("true"@ =~= seq!['t', 'r', 'u', 'e']);
    assert("false"@ =~= seq!['f', 'a', 'l', 's', 'e']);
}

/// A text that holds no delimiter and starts like a name is one token from its first
/// character to its last, wherever it stands, with white space before it or none.
proof fn lemma_lex_name(s: Seq<char>, p: int, lead: int, t: Seq<char>, acc: Seq<TokenView>)
    requires
        0 <= lead <= 1,
        0 <= p,
        lead == 1 ==> p < s.len() && s[p] == ' ',
        t.len() > 0,
        no_delimiters(t),
        starts_name(t[0]),
        text_at(s, p + lead, t),
        ends_token(s, p + lead + t.len()),
        name_token(t) is Ok,
    ensures
        tokens_from(s, p, acc) == tokens_from(s, p + lead + t.len(), acc.push(name_token(t)->Ok_0)),
{
    let q = p + lead;
    lemma_text_at_char(s, q, t, 0);
    assert(skip_blank(s, q, false) == q);
    assert(skip_blank(s, p, false) == q);
    assert forall|i: int| q + 1 <= i < q + t.len() implies !is_delimiter(#[trigger] s[i]) by {
        lemma_text_at_char(s, q, t, i - q);
    }
    lemma_skip_name_exact(s, q + 1, (t.len() - 1) as nat);
    assert(s.subrange(q, q + t.len()) == t);
}

/// What is skipped as digits are digits.
proof fn lemma_skip_digits_are_digits(s: Seq<char>, from: int)
    requires
        0 <= from <= s.len(),
    ensures
        from <= skip_digits(s, from) <= s.len(),
        forall|i: int| from <= i < skip_digits(s, from) ==> is_digit(#[trigger] s[i]),
    decreases s.len() - from,
{
    if from < s.len() && is_digit(s[from]) {
        lemma_skip_digits_are_digits(s, from + 1);
    }
}

/// A numeral holds no delimiter and starts like a number.
proof fn lemma_numeral_shape(t: Seq<char>)
    requires
        is_numeral(t),
    ensures
        t.len() > 0,
        no_delimiters(t),
        starts_number(t),
        starts_name(t[0]),
        t[0] != ':',
        t != "nil"@,
        t != "true"@,
        t != "false"@,
{
    lemma_literals();
    let a = skip_sign(t, 0);
    lemma_skip_digits_are_digits(t, a);
    let b = skip_digits(t, a);
    assert(is_digit(t[a]));
    if b < t.len() && t[b] == '.' {
        lemma_skip_digits_are_digits(t, b + 1);
    }
    let c = if b < t.len() && t[b] == '.' {
        skip_digits(t, b + 1)
    } else {
        b
    };
    if c < t.len() && (t[c] == 'e' || t[c] == 'E') {
        lemma_skip_digits_are_digits(t, skip_sign(t, c + 1));
    }
    assert forall|i: int| 0 <= i < t.len() implies !is_delimiter(#[trigger] t[i]) by {
        if i < a {
        } else if i < b {
            assert(is_digit(t[i]));
        } else if i == b {
        } else if i < c {
            assert(is_digit(t[i]));
        } else if i == c {
        } else if i < skip_sign(t, c + 1) {
        } else {
            assert(is_digit(t[i]));
        }
    }
}

/// Where a number of digits is found whose text reads back, it does read back.
proof fn lemma_shortest_reads_back(n: u64, from: nat, positional: bool)
    requires
        shortest_digits(n, from, positional) is Some,
    ensures
        ({
            let d = shortest_digits(n, from, positional)->0;
            let t = digits_text(n, d);
            is_numeral(t) && t.len() <= MAX_NUMERAL_LEN && parsed_number(t) == Some(n)
        }),
    decreases 18 - from,
{
    if from <= 17 && !crate::number::reads_back(n, from, positional) {
        lemma_shortest_reads_back(n, from + 1, positional);
    }
}

/// The text of a number that reads back is a numeral that is parsed as the number.
proof fn lemma_number_text(n: u64)
    requires
        number_reads_back(n),
    ensures
        is_numeral(shortest_text(n)),
        shortest_text(n).len() <= MAX_NUMERAL_LEN,
        parsed_number(shortest_text(n)) == Some(n),
{
    if shortest_digits(n, 1, true) is Some {
        lemma_shortest_reads_back(n, 1, true);
    } else {
        lemma_shortest_reads_back(n, 1, false);
    }
}

/// Escaping goes character by character from the front as well.
proof fn lemma_escaped_front(c: char, rest: Seq<char>)
    ensures
        escaped(seq![c] + rest) == escaped_char(c) + escaped(rest),
    decreases rest.len(),
{
    let whole = seq![c] + rest;
    if rest.len() == 0 {
        assert(whole.drop_last() =~= seq![]);
        assert(escaped(whole.drop_last()) =~= seq![]);
        assert(whole.last() == c);
        assert(escaped(whole) =~= escaped_char(c) + escaped(rest));
    } else {
        assert(whole.drop_last() =~= seq![c] + rest.drop_last());
        assert(whole.last() == rest.last());
        lemma_escaped_front(c, rest.drop_last());
        assert(escaped(whole) =~= escaped_char(c) + escaped(rest));
    }
}

/// The escaped text of a string with a quote behind it is read as the string.
proof fn lemma_string_body(s: Seq<char>, q: int, x: Seq<char>, acc: Seq<char>)
    requires
        text_at(s, q, escaped(x) + seq!['"']),
    ensures
        string_body(s, q, acc) == Some((acc + x, q + escaped(x).len() + 1)),
    decreases x.len(),
{
    if x.len() == 0 {
        lemma_text_at_char(s, q, escaped(x) + seq!['"'], 0);
        assert(acc + x =~= acc);
    } else {
        let c = x[0];
        let rest = x.subrange(1, x.len() as int);
        assert(x =~= seq![c] + rest);
        lemma_escaped_front(c, rest);
        let e = escaped_char(c);
        assert(escaped(x) + seq!['"'] =~= e + (escaped(rest) + seq!['"']));
        lemma_text_at_split(s, q, e, escaped(rest) + seq!['"']);
        lemma_text_at_char(s, q, e, 0);
        if c == '"' || c == '\\' || c == '\n' {
            lemma_text_at_char(s, q, e, 1);
            let pushed = if c == '\n' {
                acc.push('\n')
            } else {
                acc.push(s[q + 1])
            };
            assert(pushed == acc.push(c));
            lemma_string_body(s, q + 2, rest, acc.push(c));
        } else {
            lemma_string_body(s, q + 1, rest, acc.push(c));
        }
        assert(acc.push(c) + rest =~= acc + x);
    }
}

/// The text of a string is one token.
proof fn lemma_lex_string(s: Seq<char>, p: int, lead: int, x: Seq<char>, acc: Seq<TokenView>)
    requires
        0 <= lead <= 1,
        0 <= p,
        lead == 1 ==> p < s.len() && s[p] == ' ',
        text_at(s, p + lead, string_text(x, true)),
    ensures
        tokens_from(s, p, acc) == tokens_from(
            s,
            p + lead + string_text(x, true).len(),
            acc.push(TokenView::Str(x)),
        ),
{
    let q = p + lead;
    let t = string_text(x, true);
    assert(t =~= seq!['"'] + (escaped(x) + seq!['"']));
    lemma_text_at_split(s, q, seq!['"'], escaped(x) + seq!['"']);
    lemma_text_at_char(s, q, seq!['"'], 0);
    assert(skip_blank(s, q, false) == q);
    assert(skip_blank(s, p, false) == q);
    lemma_string_body(s, q + 1, x, seq![]);
    assert(Seq::<char>::empty() + x =~= x);
}

/// A bracket is one token.
proof fn lemma_lex_bracket(s: Seq<char>, p: int, lead: int, c: char, acc: Seq<TokenView>)
    requires
        0 <= lead <= 1,
        0 <= p,
        lead == 1 ==> p < s.len() && s[p] == ' ',
        p + lead < s.len(),
        s[p + lead] == c,
        c == '(' || c == ')' || c == '[' || c == ']' || c == '{' || c == '}',
    ensures
        tokens_from(s, p, acc) == tokens_from(s, p + lead + 1, acc.push(bracket_token(c))),
{
    let q = p + lead;
    assert(skip_blank(s, q, false) == q);
    assert(skip_blank(s, p, false) == q);
}

/// The token of a bracket.
pub open spec fn bracket_token(c: char) -> TokenView {
    if c == '(' {
        TokenView::LParen
    } else if c == ')' {
        TokenView::RParen
    } else if c == '[' {
        TokenView::LBracket
    } else if c == ']' {
        TokenView::RBracket
    } else if c == '{' {
        TokenView::LCurly
    } else {
        TokenView::RCurly
    }
}


/// Where the texts of the first `n` values stand in `s`, the text of one of them stands
/// behind the texts of those before it, with one space between.
proof fn lemma_items_text_at(
    s: Seq<char>,
    start: int,
    items: Seq<Val>,
    n: nat,
    k: nat,
    atoms: Seq<Val>,
    depth: nat,
)
    requires
        n <= items.len(),
        k < n,
        text_at(s, start, items_text(items, n, true, atoms, depth)),
    ensures
        ({
            let before = items_text(items, k, true, atoms, depth);
            let after = items_text(items, (k + 1) as nat, true, atoms, depth);
            let text = value_text(items[k as int], true, atoms, depth);
            let lead: int = if k > 0 {
                1
            } else {
                0
            };
            &&& lead == 1 ==> start + before.len() < s.len() && s[start + before.len()] == ' '
            &&& text_at(s, start + before.len() + lead, text)
            &&& after.len() == before.len() + lead + text.len()
            &&& start + after.len() <= start + items_text(items, n, true, atoms, depth).len()
            &&& k + 1 < n ==> start + after.len() < s.len() && s[start + after.len()] == ' '
            &&& k + 1 == n ==> after.len() == items_text(items, n, true, atoms, depth).len()
        }),
    decreases n,
{
    let whole = items_text(items, n, true, atoms, depth);
    let last = value_text(items[n - 1], true, atoms, depth);
    if n == 1 {
        assert(items_text(items, 0, true, atoms, depth) =~= seq![]);
    } else {
        let shorter = items_text(items, (n - 1) as nat, true, atoms, depth);
        assert(whole == (shorter + seq![' ']) + last);
        lemma_text_at_split(s, start, shorter + seq![' '], last);
        lemma_text_at_split(s, start, shorter, seq![' ']);
        lemma_text_at_char(s, start + shorter.len(), seq![' '], 0);
        if k < n - 1 {
            lemma_items_text_at(s, start, items, (n - 1) as nat, k, atoms, depth);
        }
    }
}

/// Where the texts of the first `n` entries stand in `s`, the texts of the key and the
/// value of one of them stand behind the texts of those before it, with one space
/// between each.
proof fn lemma_entries_text_at(
    s: Seq<char>,
    start: int,
    entries: Seq<(Val, Val)>,
    n: nat,
    k: nat,
    atoms: Seq<Val>,
    depth: nat,
)
    requires
        n <= entries.len(),
        k < n,
        text_at(s, start, entries_text(entries, n, true, atoms, depth)),
    ensures
        ({
            let before = entries_text(entries, k, true, atoms, depth);
            let after = entries_text(entries, (k + 1) as nat, true, atoms, depth);
            let key = value_text(entries[k as int].0, true, atoms, depth);
            let val = value_text(entries[k as int].1, true, atoms, depth);
            let lead: int = if k > 0 {
                1
            } else {
                0
            };
            let at = start + before.len() + lead;
            &&& lead == 1 ==> start + before.len() < s.len() && s[start + before.len()] == ' '
            &&& text_at(s, at, key)
            &&& at + key.len() < s.len()
            &&& s[at + key.len()] == ' '
            &&& text_at(s, at + key.len() + 1, val)
            &&& after.len() == before.len() + lead + key.len() + 1 + val.len()
            &&& start + after.len() <= start + entries_text(entries, n, true, atoms, depth).len()
            &&& k + 1 < n ==> start + after.len() < s.len() && s[start + after.len()] == ' '
            &&& k + 1 == n ==> after.len() == entries_text(entries, n, true, atoms, depth).len()
        }),
    decreases n,
{
    let whole = entries_text(entries, n, true, atoms, depth);
    let key = value_text(entries[n - 1].0, true, atoms, depth);
    let val = value_text(entries[n - 1].1, true, atoms, depth);
    if n == 1 {
        assert(entries_text(entries, 0, true, atoms, depth) =~= seq![]);
        let none: Seq<char> = seq![];
        assert(whole == ((none + key) + seq![' ']) + val);
        assert(none + key =~= key);
        lemma_text_at_split(s, start, key + seq![' '], val);
        lemma_text_at_split(s, start, key, seq![' ']);
        lemma_text_at_char(s, start + key.len(), seq![' '], 0);
    } else {
        let shorter = entries_text(entries, (n - 1) as nat, true, atoms, depth);
        assert(whole == (((shorter + seq![' ']) + key) + seq![' ']) + val);
        lemma_text_at_split(s, start, ((shorter + seq![' ']) + key) + seq![' '], val);
        lemma_text_at_split(s, start, (shorter + seq![' ']) + key, seq![' ']);
        lemma_text_at_split(s, start, shorter + seq![' '], key);
        lemma_text_at_split(s, start, shorter, seq![' ']);
        lemma_text_at_char(s, start + shorter.len(), seq![' '], 0);
        lemma_text_at_char(s, start + shorter.len() + 1 + key.len(), seq![' '], 0);
        if k < n - 1 {
            lemma_entries_text_at(s, start, entries, (n - 1) as nat, k, atoms, depth);
        }
    }
}

/// The text of a readable value is split into the tokens of the value, wherever it
/// stands: behind white space or not, and before the end of the text or a delimiter.
#[verifier::rlimit(40)]
pub proof fn lemma_lex_value(
    s: Seq<char>,
    p: int,
    lead: int,
    v: Val,
    acc: Seq<TokenView>,
    atoms: Seq<Val>,
    depth: nat,
)
    requires
        0 <= lead <= 1,
        0 <= p,
        lead == 1 ==> p < s.len() && s[p] == ' ',
        is_readable(v),
        text_at(s, p + lead, value_text(v, true, atoms, depth)),
        ends_token(s, p + lead + value_text(v, true, atoms, depth).len()),
    ensures
        tokens_from(s, p, acc) == tokens_from(
            s,
            p + lead + value_text(v, true, atoms, depth).len(),
            acc + value_tokens(v),
        ),
    decreases v, 0nat,
{
    let t = value_text(v, true, atoms, depth);
    let q = p + lead;
    lemma_literals();
    match v.kind {
        Kind::Nil => {
            lemma_lex_name(s, p, lead, t, acc);
            assert(acc.push(TokenView::Nil) =~= acc + value_tokens(v));
        },
        Kind::True => {
            lemma_lex_name(s, p, lead, t, acc);
            assert(acc.push(TokenView::True) =~= acc + value_tokens(v));
        },
        Kind::False => {
            lemma_lex_name(s, p, lead, t, acc);
            assert(acc.push(TokenView::False) =~= acc + value_tokens(v));
        },
        Kind::Number(n) => {
            lemma_number_text(n);
            lemma_numeral_shape(t);
            lemma_lex_name(s, p, lead, t, acc);
            assert(acc.push(TokenView::Number(n)) =~= acc + value_tokens(v));
        },
        Kind::Symbol(name) => {
            lemma_lex_name(s, p, lead, t, acc);
            assert(acc.push(TokenView::Symbol(name)) =~= acc + value_tokens(v));
        },
        Kind::Keyword(name) => {
            assert(t == seq![':'] + name);
            assert forall|i: int| 0 <= i < t.len() implies !is_delimiter(#[trigger] t[i]) by {
                if i > 0 {
                    assert(t[i] == name[i - 1]);
                }
            }
            assert(t.subrange(1, t.len() as int) =~= name);
            lemma_lex_name(s, p, lead, t, acc);
            assert(acc.push(TokenView::Keyword(name)) =~= acc + value_tokens(v));
        },
        Kind::Str(x) => {
            lemma_lex_string(s, p, lead, x, acc);
            assert(acc.push(TokenView::Str(x)) =~= acc + value_tokens(v));
        },
        Kind::List(items) => {
            let inner = items_text(items, items.len(), true, atoms, depth);
            assert(t == (seq!['('] + inner) + seq![')']);
            lemma_text_at_split(s, q, seq!['('] + inner, seq![')']);
            lemma_text_at_split(s, q, seq!['('], inner);
            lemma_text_at_char(s, q, seq!['('], 0);
            lemma_text_at_char(s, q + 1 + inner.len(), seq![')'], 0);
            lemma_lex_bracket(s, p, lead, '(', acc);
            let a1 = acc.push(TokenView::LParen);
            assert(items_tokens(items, 0) =~= seq![]);
            assert(a1 + items_tokens(items, 0) =~= a1);
            assert(items_text(items, 0, true, atoms, depth) =~= seq![]);
            lemma_lex_items(s, q + 1, items, 0, a1, atoms, depth);
            let a2 = a1 + items_tokens(items, items.len());
            lemma_lex_bracket(s, q + 1 + inner.len(), 0, ')', a2);
            assert(a2.push(TokenView::RParen) =~= acc + value_tokens(v));
        },
        Kind::Vector(items) => {
            let inner = items_text(items, items.len(), true, atoms, depth);
            assert(t == (seq!['['] + inner) + seq![']']);
            lemma_text_at_split(s, q, seq!['['] + inner, seq![']']);
            lemma_text_at_split(s, q, seq!['['], inner);
            lemma_text_at_char(s, q, seq!['['], 0);
            lemma_text_at_char(s, q + 1 + inner.len(), seq![']'], 0);
            lemma_lex_bracket(s, p, lead, '[', acc);
            let a1 = acc.push(TokenView::LBracket);
            assert(items_tokens(items, 0) =~= seq![]);
            assert(a1 + items_tokens(items, 0) =~= a1);
            assert(items_text(items, 0, true, atoms, depth) =~= seq![]);
            lemma_lex_items(s, q + 1, items, 0, a1, atoms, depth);
            let a2 = a1 + items_tokens(items, items.len());
            lemma_lex_bracket(s, q + 1 + inner.len(), 0, ']', a2);
            assert(a2.push(TokenView::RBracket) =~= acc + value_tokens(v));
        },
        Kind::HashMap(entries) => {
            let inner = entries_text(entries, entries.len(), true, atoms, depth);
            assert(t == (seq!['{'] + inner) + seq!['}']);
            lemma_text_at_split(s, q, seq!['{'] + inner, seq!['}']);
            lemma_text_at_split(s, q, seq!['{'], inner);
            lemma_text_at_char(s, q, seq!['{'], 0);
            lemma_text_at_char(s, q + 1 + inner.len(), seq!['}'], 0);
            lemma_lex_bracket(s, p, lead, '{', acc);
            let a1 = acc.push(TokenView::LCurly);
            assert(entries_tokens(entries, 0) =~= seq![]);
            assert(a1 + entries_tokens(entries, 0) =~= a1);
            assert(entries_text(entries, 0, true, atoms, depth) =~= seq![]);
            lemma_lex_entries(s, q + 1, entries, 0, a1, atoms, depth);
            let a2 = a1 + entries_tokens(entries, 2 * entries.len());
            lemma_lex_bracket(s, q + 1 + inner.len(), 0, '}', a2);
            assert(a2.push(TokenView::RCurly) =~= acc + value_tokens(v));
        },
        _ => {},
    }
}

/// The texts of readable values, with a space between them, are split into the
/// tokens of the values.
proof fn lemma_lex_items(
    s: Seq<char>,
    start: int,
    items: Seq<Val>,
    k: nat,
    acc: Seq<TokenView>,
    atoms: Seq<Val>,
    depth: nat,
)
    requires
        0 <= start,
        k <= items.len(),
        forall|i: int| 0 <= i < items.len() ==> is_readable(#[trigger] items[i]),
        text_at(s, start, items_text(items, items.len(), true, atoms, depth)),
        ends_token(s, start + items_text(items, items.len(), true, atoms, depth).len()),
    ensures
        tokens_from(
            s,
            start + items_text(items, k, true, atoms, depth).len(),
            acc + items_tokens(items, k),
        ) == tokens_from(
            s,
            start + items_text(items, items.len(), true, atoms, depth).len(),
            acc + items_tokens(items, items.len()),
        ),
    decreases items, items.len() - k,
{
    let n = items.len();
    if k < n {
        lemma_items_text_at(s, start, items, n, k, atoms, depth);
        let item = items[k as int];
        let before = items_text(items, k, true, atoms, depth);
        let lead: int = if k > 0 {
            1
        } else {
            0
        };
        let a = acc + items_tokens(items, k);
        lemma_lex_value(s, start + before.len(), lead, item, a, atoms, depth);
        assert(a + value_tokens(item) =~= acc + items_tokens(items, (k + 1) as nat));
        lemma_lex_items(s, start, items, k + 1, acc, atoms, depth);
    }
}

/// The texts of readable keys and values, with a space between all, are split into
/// the tokens of the keys and values.
proof fn lemma_lex_entries(
    s: Seq<char>,
    start: int,
    entries: Seq<(Val, Val)>,
    k: nat,
    acc: Seq<TokenView>,
    atoms: Seq<Val>,
    depth: nat,
)
    requires
        0 <= start,
        k <= entries.len(),
        forall|i: int|
            0 <= i < entries.len() ==> is_readable((#[trigger] entries[i]).0) && is_readable(
                entries[i].1,
            ),
        text_at(s, start, entries_text(entries, entries.len(), true, atoms, depth)),
        ends_token(s, start + entries_text(entries, entries.len(), true, atoms, depth).len()),
    ensures
        tokens_from(
            s,
            start + entries_text(entries, k, true, atoms, depth).len(),
            acc + entries_tokens(entries, 2 * k),
        ) == tokens_from(
            s,
            start + entries_text(entries, entries.len(), true, atoms, depth).len(),
            acc + entries_tokens(entries, 2 * entries.len()),
        ),
    decreases entries, entries.len() - k,
{
    let n = entries.len();
    if k < n {
        lemma_entries_text_at(s, start, entries, n, k, atoms, depth);
        let entry = entries[k as int];
        let before = entries_text(entries, k, true, atoms, depth);
        let lead: int = if k > 0 {
            1
        } else {
            0
        };
        let at = start + before.len();
        let key = value_text(entry.0, true, atoms, depth);
        let a = acc + entries_tokens(entries, 2 * k);
        lemma_lex_value(s, at, lead, entry.0, a, atoms, depth);
        let a1 = a + value_tokens(entry.0);
        lemma_lex_value(s, at + lead + key.len(), 1, entry.1, a1, atoms, depth);
        assert(entry_part(entries, 2 * k as int) == entry.0);
        assert(entry_part(entries, 2 * k as int + 1) == entry.1);
        assert(entries_tokens(entries, (2 * k + 1) as nat) == entries_tokens(entries, 2 * k)
            + value_tokens(entry.0));
        assert(entries_tokens(entries, (2 * k + 2) as nat) == entries_tokens(
            entries,
            (2 * k + 1) as nat,
        ) + value_tokens(entry.1));
        assert(a1 + value_tokens(entry.1) =~= acc + entries_tokens(entries, (2 * k + 2) as nat));
        lemma_lex_entries(s, start, entries, k + 1, acc, atoms, depth);
    }
}

/// The text that is written for a readable value is split into the tokens of the value.
pub proof fn lemma_lex_text(v: Val, atoms: Seq<Val>, depth: nat)
    requires
        is_readable(v),
    ensures
        tokens_of(value_text(v, true, atoms, depth)) == Ok::<Seq<TokenView>, ErrView>(
            value_tokens(v),
        ),
{
    let t = value_text(v, true, atoms, depth);
    assert(t.subrange(0, t.len() as int) =~= t);
    lemma_lex_value(t, 0, 0, v, seq![], atoms, depth);
    assert(Seq::<TokenView>::empty() + value_tokens(v) =~= value_tokens(v));
    assert(skip_blank(t, t.len() as int, false) == t.len());
}

/// Reading is the inverse of printing: the text that is written for a readable value, so
/// that it can be read again, is read as that value.
pub proof fn lemma_read_printed(v: Val, atoms: Seq<Val>)
    requires
        is_readable(v),
    ensures
        read_text(pr_str_text(v, true, atoms)) == Ok::<Val, ErrView>(v),
{
    let depth = crate::printer::MAX_CELL_DEPTH as nat;
    lemma_lex_text(v, atoms, depth);
    let ts = value_tokens(v);
    lemma_tokens_start(v);
    assert(ts.subrange(0, ts.len() as int) =~= ts);
    lemma_parse_value(ts, 0, v);
}

/// Printing is the inverse of reading on every text that the printer writes for a
/// readable value: such a text is read and written again as the same text.
pub proof fn lemma_print_read(text: Seq<char>, v: Val, atoms: Seq<Val>)
    requires
        is_readable(v),
        text == pr_str_text(v, true, atoms),
    ensures
        read_text(text) is Ok,
        pr_str_text(read_text(text)->Ok_0, true, atoms) == text,
{
    lemma_read_printed(v, atoms);
}

} // verus!
