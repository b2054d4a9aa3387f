//! Renders a value as text, either so that it can be read again or raw.
use crate::atoms::{cell_get, Atoms};
use crate::number::{number_to_string, shortest_text};
use crate::text::chars_of;
use crate::types::{
    lemma_value_view, views, ErrView, Kind, MalError, MalMapEntry, MalValue, MalValueType, Val,
};
use vstd::prelude::*;
use vstd::string::StringExecFns;

verus! {

/// How many cells deep a value is rendered: the contents of a cell below that depth are
/// left out.
pub const MAX_CELL_DEPTH: usize = 32;

/// One character of a string as it is written inside double quotes.
pub open spec fn escaped_char(c: char) -> Seq<char> {
    if c == '"' {
        seq!['\\', '"']
    } else if c == '\\' {
        seq!['\\', '\\']
    } else if c == '\n' {
        seq!['\\', 'n']
    } else {
        seq![c]
    }
}

/// The characters of a string as they are written inside double quotes.
pub open spec fn escaped(s: Seq<char>) -> Seq<char>
    decreases s.len(),
{
    if s.len() == 0 {
        seq![]
    } else {
        escaped(s.drop_last()) + escaped_char(s.last())
    }
}

/// The text of a string: in double quotes and escaped where it is to be read again.
pub open spec fn string_text(s: Seq<char>, readable: bool) -> Seq<char> {
    if readable {
        seq!['"'] + escaped(s) + seq!['"']
    } else {
        s
    }
}

/// The text of a value. A cell shows its contents, down to `depth` cells.
pub open spec fn value_text(v: Val, readable: bool, atoms: Seq<Val>, depth: nat) -> Seq<char>
    decreases depth, v,
{
    match v.kind {
        Kind::Nil => "nil"@,
        Kind::True => "true"@,
        Kind::False => "false"@,
        Kind::Number(n) => shortest_text(n),
        Kind::Symbol(s) => s,
        Kind::Str(s) => string_text(s, readable),
        Kind::Keyword(s) => seq![':'] + s,
        Kind::List(items) => seq!['('] + items_text(items, items.len(), readable, atoms, depth)
            + seq![')'],
        Kind::Vector(items) => seq!['['] + items_text(items, items.len(), readable, atoms, depth)
            + seq![']'],
        Kind::HashMap(entries) => seq!['{'] + entries_text(
            entries,
            entries.len(),
            readable,
            atoms,
            depth,
        ) + seq!['}'],
        Kind::RustFunc { .. } => "#<function>"@,
        Kind::MalFunc { .. } => "#<function>"@,
        Kind::Atom(cell) => if depth == 0 {
            "(atom ...)"@
        } else {
            "(atom "@ + value_text(cell_get(atoms, cell), readable, atoms, (depth - 1) as nat)
                + seq![')']
        },
    }
}

/// The texts of the first `n` values, with a space between them.
pub open spec fn items_text(
    items: Seq<Val>,
    n: nat,
    readable: bool,
    atoms: Seq<Val>,
    depth: nat,
) -> Seq<char>
    decreases depth, items, n,
{
    if n == 0 || n > items.len() {
        seq![]
    } else if n == 1 {
        value_text(items[0], readable, atoms, depth)
    } else {
        items_text(items, (n - 1) as nat, readable, atoms, depth) + seq![' '] + value_text(
            items[n - 1],
            readable,
            atoms,
            depth,
        )
    }
}

/// The texts of the first `n` entries, each a key and a value, with a space between all.
pub open spec fn entries_text(
    entries: Seq<(Val, Val)>,
    n: nat,
    readable: bool,
    atoms: Seq<Val>,
    depth: nat,
) -> Seq<char>
    decreases depth, entries, n,
{
    if n == 0 || n > entries.len() {
        seq![]
    } else {
        let before = if n == 1 {
            seq![]
        } else {
            entries_text(entries, (n - 1) as nat, readable, atoms, depth) + seq![' ']
        };
        before + value_text(entries[n - 1].0, readable, atoms, depth) + seq![' '] + value_text(
            entries[n - 1].1,
            readable,
            atoms,
            depth,
        )
    }
}

/// The text of a value as the language shows it.
pub open spec fn pr_str_text(v: Val, readable: bool, atoms: Seq<Val>) -> Seq<char> {
    value_text(v, readable, atoms, MAX_CELL_DEPTH as nat)
}

/// The texts of values joined by a separator.
pub open spec fn joined_text(
    items: Seq<Val>,
    n: nat,
    readable: bool,
    separator: Seq<char>,
    atoms: Seq<Val>,
) -> Seq<char>
    decreases n,
{
    if n == 0 || n > items.len() {
        seq![]
    } else if n == 1 {
        pr_str_text(items[0], readable, atoms)
    } else {
        joined_text(items, (n - 1) as nat, readable, separator, atoms) + separator + pr_str_text(
            items[n - 1],
            readable,
            atoms,
        )
    }
}

/// Appends the characters of a string as they are written inside double quotes.
fn push_escaped(out: &mut String, s: &str)
    ensures
        final(out)@ == old(out)@ + escaped(s@),
{
    let chars = chars_of(s);
    let mut i: usize = 0;
    while i < chars.len()
        invariant
            i <= chars@.len(),
            chars@ == s@,
            out@ == old(out)@ + escaped(chars@.take(i as int)),
        decreases chars.len() - i,
    {
        let c = chars[i];
        proof {
            assert(chars@.take(i + 1).drop_last() =~= chars@.take(i as int));
            assert(chars@.take(i + 1).last() == c);
        }
        if c == '"' {
            out.push('\\');
            out.push('"');
        } else if c == '\\' {
            out.push('\\');
            out.push('\\');
        } else if c == '\n' {
            out.push('\\');
            out.push('n');
        } else {
            out.push(c);
        }
        assert(out@ =~= old(out)@ + escaped(chars@.take(i + 1)));
        i += 1;
    }
    assert(chars@.take(chars@.len() as int) =~= chars@);
}

/// Appends the text of a value.
fn push_value(out: &mut String, v: &MalValue, readable: bool, atoms: &Atoms, depth: usize)
    ensures
        final(out)@ == old(out)@ + value_text(v@, readable, atoms@, depth as nat),
    decreases depth, v,
{
    proof {
        lemma_value_view(*v);
    }
    match &*v.mal_type {
        MalValueType::Nil => {
            out.append("nil");
        },
        MalValueType::True => {
            out.append("true");
        },
        MalValueType::False => {
            out.append("false");
        },
        MalValueType::Number(n) => {
            let text = number_to_string(*n);
            out.append(text.as_str());
        },
        MalValueType::Symbol(s) => {
            out.append(s.as_str());
        },
        MalValueType::Str(s) => {
            if readable {
                out.push('"');
                push_escaped(out, s.as_str());
                out.push('"');
                assert(out@ =~= old(out)@ + string_text(s@, readable));
            } else {
                out.append(s.as_str());
            }
        },
        MalValueType::Keyword(s) => {
            out.push(':');
            out.append(s.as_str());
            assert(out@ =~= old(out)@ + (seq![':'] + s@));
        },
        MalValueType::List(items) => {
            out.push('(');
            push_items(out, items, readable, atoms, depth);
            out.push(')');
            assert(out@ =~= old(out)@ + value_text(v@, readable, atoms@, depth as nat));
        },
        MalValueType::Vector(items) => {
            out.push('[');
            push_items(out, items, readable, atoms, depth);
            out.push(']');
            assert(out@ =~= old(out)@ + value_text(v@, readable, atoms@, depth as nat));
        },
        MalValueType::HashMap(m) => {
            out.push('{');
            push_entries(out, &m.entries, readable, atoms, depth);
            out.push('}');
            assert(out@ =~= old(out)@ + value_text(v@, readable, atoms@, depth as nat));
        },
        MalValueType::RustFunc(_) => {
            out.append("#<function>");
        },
        MalValueType::MalFunc(_) => {
            out.append("#<function>");
        },
        MalValueType::Atom(cell) => {
            if depth == 0 {
                out.append("(atom ...)");
            } else {
                out.append("(atom ");
                let inner = atoms.get(*cell);
                push_value(out, &inner, readable, atoms, depth - 1);
                out.push(')');
                assert(out@ =~= old(out)@ + value_text(v@, readable, atoms@, depth as nat));
            }
        },
    }
}

/// Appends the texts of values, with a space between them.
fn push_items(out: &mut String, items: &Vec<MalValue>, readable: bool, atoms: &Atoms, depth: usize)
    ensures
        final(out)@ == old(out)@ + items_text(
            views(items@),
            items@.len(),
            readable,
            atoms@,
            depth as nat,
        ),
    decreases depth, items,
{
    let ghost vs = views(items@);
    let mut i: usize = 0;
    while i < items.len()
        invariant
            i <= items@.len(),
            vs == views(items@),
            out@ == old(out)@ + items_text(vs, i as nat, readable, atoms@, depth as nat),
        decreases items.len() - i,
    {
        if i > 0 {
            out.push(' ');
        }
        push_value(out, &items[i], readable, atoms, depth);
        assert(out@ =~= old(out)@ + items_text(vs, (i + 1) as nat, readable, atoms@, depth as nat));
        i += 1;
    }
}

/// Appends the texts of the keys and values of a map, with a space between all.
fn push_entries(
    out: &mut String,
    entries: &Vec<MalMapEntry>,
    readable: bool,
    atoms: &Atoms,
    depth: usize,
)
    ensures
        final(out)@ == old(out)@ + entries_text(
            crate::types::entry_views(entries@),
            entries@.len(),
            readable,
            atoms@,
            depth as nat,
        ),
    decreases depth, entries,
{
    let ghost es = crate::types::entry_views(entries@);
    let mut i: usize = 0;
    while i < entries.len()
        invariant
            i <= entries@.len(),
            es == crate::types::entry_views(entries@),
            out@ == old(out)@ + entries_text(es, i as nat, readable, atoms@, depth as nat),
        decreases entries.len() - i,
    {
        if i > 0 {
            out.push(' ');
        }
        push_value(out, &entries[i].key, readable, atoms, depth);
        out.push(' ');
        push_value(out, &entries[i].value, readable, atoms, depth);
        assert(out@ =~= old(out)@ + entries_text(es, (i + 1) as nat, readable, atoms@, depth as nat));
        i += 1;
    }
}

/// Renders a value. With `print_readably` strings are quoted and escaped so that the text
/// can be read again; without it they are written raw.
pub fn pr_str(value: &MalValue, print_readably: bool, atoms: &Atoms) -> (r: String)
    ensures
        r@ == pr_str_text(value@, print_readably, atoms@),
{
    let mut out = String::new();
    push_value(&mut out, value, print_readably, atoms, MAX_CELL_DEPTH);
    assert(out@ =~= pr_str_text(value@, print_readably, atoms@));
    out
}

/// Renders each value and joins the texts with the separator.
pub fn pr_strs(strs: &[MalValue], print_readably: bool, separator: &str, atoms: &Atoms) -> (r:
    String)
    ensures
        r@ == joined_text(views(strs@), strs@.len(), print_readably, separator@, atoms@),
{
    let ghost vs = views(strs@);
    let mut out = String::new();
    let mut i: usize = 0;
    while i < strs.len()
        invariant
            i <= strs@.len(),
            vs == views(strs@),
            out@ == joined_text(vs, i as nat, print_readably, separator@, atoms@),
        decreases strs.len() - i,
    {
        if i > 0 {
            out.append(separator);
        }
        push_value(&mut out, &strs[i], print_readably, atoms, MAX_CELL_DEPTH);
        assert(out@ =~= joined_text(vs, (i + 1) as nat, print_readably, separator@, atoms@));
        i += 1;
    }
    assert(out@ =~= joined_text(vs, strs@.len(), print_readably, separator@, atoms@));
    out
}

/// The text that describes an error.
pub open spec fn error_text(e: ErrView, atoms: Seq<Val>) -> Seq<char> {
    match e {
        ErrView::EmptyProgram => "Empty program."@,
        ErrView::Tokenizer(m) => "Tokenizer error: "@ + m,
        ErrView::Parser(m) => "Parser error: "@ + m,
        ErrView::UndefinedSymbol(s) => seq!['\''] + s + "' not found"@,
        ErrView::Evaluation(m) => "Error in evaluation: "@ + m,
        ErrView::RustFunction(m) => "Error when calling rust function: "@ + m,
        ErrView::SpecialForm(m) => "Error when evaluating special form: "@ + m,
        ErrView::Exception(v) => "Exception: "@ + pr_str_text(v, true, atoms),
    }
}

/// Describes an error as the top-level loop shows it.
pub fn error_message(error: &MalError, atoms: &Atoms) -> (r: String)
    ensures
        r@ == error_text(error@, atoms@),
{
    match error {
        MalError::EmptyProgram => String::from_str("Empty program."),
        MalError::Tokenizer(m) => String::from_str("Tokenizer error: ").concat(m.as_str()),
        MalError::Parser(m) => String::from_str("Parser error: ").concat(m.as_str()),
        MalError::UndefinedSymbol(s) => {
            let mut out = String::new();
            out.push('\'');
            out.append(s.as_str());
            out.append("' not found");
            assert(out@ =~= error_text(error@, atoms@));
            out
        },
        MalError::Evaluation(m) => String::from_str("Error in evaluation: ").concat(m.as_str()),
        MalError::RustFunction(m) => String::from_str("Error when calling rust function: ").concat(
            m.as_str(),
        ),
        MalError::SpecialForm(m) => String::from_str(
            "Error when evaluating special form: ",
        ).concat(m.as_str()),
        MalError::Exception(v) => {
            let text = pr_str(v, true, atoms);
            String::from_str("Exception: ").concat(text.as_str())
        },
    }
}

} // verus!
