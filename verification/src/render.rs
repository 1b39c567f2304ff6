//! How a value is rendered into one cell.

use crate::grid::{Cell, CellView};
use crate::text::{
    decimal_text, duration_text, filesize_text, format_duration, format_filesize, push_int,
};
use crate::value::{value_views, FieldView, Value, ValueView};
use vstd::prelude::*;
use vstd::string::*;

verus! {

/// The word for a boolean.
pub open spec fn bool_text(b: bool) -> Seq<char> {
    if b {
        seq!['t', 'r', 'u', 'e']
    } else {
        seq!['f', 'a', 'l', 's', 'e']
    }
}

/// How many lists and records, one inside the other, a description opens
/// before it cuts short what lies deeper.
pub open spec fn depth_limit() -> nat {
    64
}

/// The text that describes a value, whatever its kind: a scalar as it would
/// show in a cell (text in double quotes, the absent value as `null`), a list
/// as `[a, b]`, a record as `{name: a, other: b}`. Lists and records are
/// opened `depth` deep; one that lies deeper shows as `[...]` or `{...}`.
pub open spec fn describe(v: ValueView, depth: nat) -> Seq<char>
    decreases v, 0nat,
{
    match v {
        ValueView::Nothing => seq!['n', 'u', 'l', 'l'],
        ValueView::Bool(b) => bool_text(b),
        ValueView::Int(n) => decimal_text(n),
        ValueView::Float { bits, text } => text,
        ValueView::Text(s) => seq!['"'] + s + seq!['"'],
        ValueView::Date(s) => s,
        ValueView::Duration(n) => duration_text(n),
        ValueView::Filesize(n) => filesize_text(n),
        ValueView::Other(s) => s,
        ValueView::Record(fields) => if depth == 0 {
            seq!['{', '.', '.', '.', '}']
        } else {
            seq!['{'] + describe_fields(fields, fields.len(), (depth - 1) as nat) + seq!['}']
        },
        ValueView::List(items) => if depth == 0 {
            seq!['[', '.', '.', '.', ']']
        } else {
            seq!['['] + describe_items(items, items.len(), (depth - 1) as nat) + seq![']']
        },
    }
}

/// The leading `n` items of a list, each described, separated by a comma and
/// a space.
pub open spec fn describe_items(items: Seq<ValueView>, n: nat, depth: nat) -> Seq<char>
    decreases items, n,
{
    if n == 0 || n > items.len() {
        Seq::empty()
    } else if n == 1 {
        describe(items[0], depth)
    } else {
        describe_items(items, (n - 1) as nat, depth) + seq![',', ' '] + describe(
            items[n - 1],
            depth,
        )
    }
}

/// The leading `n` fields of a record, each as its name, a colon and its
/// value described, separated by a comma and a space.
pub open spec fn describe_fields(fields: Seq<FieldView>, n: nat, depth: nat) -> Seq<char>
    decreases fields, n,
{
    if n == 0 || n > fields.len() {
        Seq::empty()
    } else if n == 1 {
        fields[0].name + seq![':', ' '] + describe(fields[0].value, depth)
    } else {
        describe_fields(fields, (n - 1) as nat, depth) + seq![',', ' '] + fields[n - 1].name
            + seq![':', ' '] + describe(fields[n - 1].value, depth)
    }
}

/// The text that describes a value for a cell: its description, opened as
/// deep as the limit allows.
pub open spec fn debug_text(v: ValueView) -> Seq<char> {
    describe(v, depth_limit())
}

/// Appends `describe(v, depth)` to `out`.
pub fn push_described(out: &mut String, v: &Value, depth: usize)
    ensures
        final(out)@ == old(out)@ + describe(v@, depth as nat),
    decreases v,
{
    proof {
        reveal_strlit("null");
        reveal_strlit("true");
        reveal_strlit("false");
        reveal_strlit("\"");
        reveal_strlit("{");
        reveal_strlit("}");
        reveal_strlit("[");
        reveal_strlit("]");
        reveal_strlit("{...}");
        reveal_strlit("[...]");
    }
    match v {
        Value::Nothing => {
            out.append("null");
        },
        Value::Bool(b) => {
            if *b {
                out.append("true");
            } else {
                out.append("false");
            }
        },
        Value::Int(n) => {
            push_int(out, *n);
        },
        Value::Float { bits, text } => {
            out.append(text.as_str());
        },
        Value::Text(s) => {
            out.append("\"");
            out.append(s.as_str());
            out.append("\"");
        },
        Value::Date(s) => {
            out.append(s.as_str());
        },
        Value::Duration(n) => {
            let text = format_duration(*n);
            out.append(text.as_str());
        },
        Value::Filesize(n) => {
            let text = format_filesize(*n);
            out.append(text.as_str());
        },
        Value::Other(s) => {
            out.append(s.as_str());
        },
        Value::Record(r) => {
            if depth == 0 {
                out.append("{...}");
            } else {
                out.append("{");
                let ghost start = out@;
                let mut i: usize = 0;
                while i < r.fields.len()
                    invariant
                        i <= r.fields.len(),
                        depth > 0,
                        decreases_to!(v => r),
                        out@ == start + describe_fields(r@, i as nat, (depth - 1) as nat),
                    decreases r.fields.len() - i,
                {
                    proof {
                        reveal_strlit(", ");
                        reveal_strlit(": ");
                        assert(decreases_to!(r.fields => r.fields[i as int]));
                    }
                    if i > 0 {
                        out.append(", ");
                    }
                    out.append(r.fields[i].name.as_str());
                    out.append(": ");
                    push_described(out, &r.fields[i].value, depth - 1);
                    i += 1;
                    assert(out@ =~= start + describe_fields(r@, i as nat, (depth - 1) as nat));
                }
                out.append("}");
            }
        },
        Value::List(items) => {
            if depth == 0 {
                out.append("[...]");
            } else {
                out.append("[");
                let ghost start = out@;
                let mut i: usize = 0;
                while i < items.len()
                    invariant
                        i <= items.len(),
                        depth > 0,
                        decreases_to!(v => items),
                        out@ == start + describe_items(
                            value_views(*items),
                            i as nat,
                            (depth - 1) as nat,
                        ),
                    decreases items.len() - i,
                {
                    proof {
                        reveal_strlit(", ");
                        assert(decreases_to!(*items => items[i as int]));
                    }
                    if i > 0 {
                        out.append(", ");
                    }
                    push_described(out, &items[i], depth - 1);
                    i += 1;
                    assert(out@ =~= start + describe_items(
                        value_views(*items),
                        i as nat,
                        (depth - 1) as nat,
                    ));
                }
                out.append("]");
            }
        },
    }
    assert(out@ =~= old(out)@ + describe(v@, depth as nat));
}

/// Appends `debug_text(v)` to `out`.
pub fn push_debug(out: &mut String, v: &Value)
    ensures
        final(out)@ == old(out)@ + debug_text(v@),
{
    push_described(out, v, 64);
}

/// The cell that shows a value. A boolean shows as a boolean cell, or as the
/// word `true` or `false` where `literal_bools` is set; an integer or a
/// floating-point number as a numeric cell; the absent value as a blank cell;
/// text and dates as they are; a byte size or a duration by its magnitude; a
/// record or a list by its full description.
pub open spec fn cell_of(v: ValueView, literal_bools: bool) -> CellView {
    match v {
        ValueView::Nothing => CellView::Blank,
        ValueView::Bool(b) => if literal_bools {
            CellView::Text(bool_text(b))
        } else {
            CellView::Boolean(b)
        },
        ValueView::Int(n) => CellView::Int(n),
        ValueView::Float { bits, text } => CellView::Float(bits),
        ValueView::Text(s) => CellView::Text(s),
        ValueView::Date(s) => CellView::Text(s),
        ValueView::Duration(n) => CellView::Text(duration_text(n)),
        ValueView::Filesize(n) => CellView::Text(filesize_text(n)),
        ValueView::Other(s) => CellView::Text(s),
        ValueView::Record(_) => CellView::Text(debug_text(v)),
        ValueView::List(_) => CellView::Text(debug_text(v)),
    }
}

/// Renders a value into the cell that shows it.
pub fn format_cell(v: &Value, literal_bools: bool) -> (cell: Cell)
    ensures
        cell@ == cell_of(v@, literal_bools),
{
    match v {
        Value::Nothing => Cell::Blank,
        Value::Bool(b) => {
            if literal_bools {
                proof {
                    reveal_strlit("true");
                    reveal_strlit("false");
                }
                let word = if *b {
                    String::from_str("true")
                } else {
                    String::from_str("false")
                };
                assert(word@ =~= bool_text(*b));
                Cell::Text(word)
            } else {
                Cell::Boolean(*b)
            }
        },
        Value::Int(n) => Cell::Int(*n),
        Value::Float { bits, text } => Cell::Float(*bits),
        Value::Text(s) => Cell::Text(s.clone()),
        Value::Date(s) => Cell::Text(s.clone()),
        Value::Duration(n) => Cell::Text(format_duration(*n)),
        Value::Filesize(n) => Cell::Text(format_filesize(*n)),
        Value::Other(s) => Cell::Text(s.clone()),
        Value::Record(_) => {
            let mut out = String::new();
            push_debug(&mut out, v);
            assert(out@ =~= debug_text(v@));
            Cell::Text(out)
        },
        Value::List(_) => {
            let mut out = String::new();
            push_debug(&mut out, v);
            assert(out@ =~= debug_text(v@));
            Cell::Text(out)
        },
    }
}

} // verus!
