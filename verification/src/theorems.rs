//! What the layouts of plain values look like, cell by cell.

use crate::grid::{
    content_at, header_at, lemma_content_at_found, lemma_content_at_join,
    lemma_content_at_outside, no_overlap, value_at, within, CellView, ContentView,
};
use crate::layout::{
    column_offset, field_block, field_content, header_cells, key_label, layout_of, least,
    height_under, own_span, record_blocks, record_row, row_block, row_height, table_blocks,
    table_row, top_headers,
    value_label,
};
use crate::region::{
    lemma_field_block, lemma_field_content, lemma_row_block, lemma_top_headers,
    theorem_layout_free_of_overlap,
};
use crate::render::cell_of;
use crate::shape::{col_span_of, row_span_of, shape_of, table_header, Shape};
use crate::value::{find_field, lemma_find_field, lookup, FieldView, ValueView};
use vstd::prelude::*;

verus! {

/// A value that is neither a record nor a list makes one placement: its cell
/// at row 0 of column 0.
pub proof fn theorem_scalar_layout(v: ValueView, literal_bools: bool)
    requires
        shape_of(v) == Shape::Scalar,
    ensures
        layout_of(v, literal_bools) == seq![value_at(0, 0, cell_of(v, literal_bools))],
        no_overlap(layout_of(v, literal_bools)),
{
}

/// No field of the record holds a list of records.
pub open spec fn plain_record(fields: Seq<FieldView>) -> bool {
    forall|i: int| 0 <= i < fields.len() ==> !(#[trigger] fields[i]).value.is_table()
}

proof fn lemma_plain_record_blocks(fields: Seq<FieldView>, n: nat, literal_bools: bool)
    requires
        plain_record(fields),
        n <= fields.len(),
    ensures
        record_row(fields, n) == n + 1,
        record_blocks(fields, n, literal_bools).len() == 2 * n,
        forall|i: int|
            0 <= i < n ==> {
                &&& #[trigger] record_blocks(fields, n, literal_bools)[2 * i] == value_at(
                    (i + 1) as nat,
                    0,
                    CellView::Text(fields[i].name),
                )
                &&& record_blocks(fields, n, literal_bools)[2 * i + 1] == value_at(
                    (i + 1) as nat,
                    1,
                    cell_of(fields[i].value, literal_bools),
                )
            },
    decreases n,
{
    if n > 0 {
        let m = (n - 1) as nat;
        lemma_plain_record_blocks(fields, m, literal_bools);
        let before = record_blocks(fields, m, literal_bools);
        let block = field_block(fields[n - 1], record_row(fields, m), literal_bools);
        assert(!fields[n - 1].value.is_table());
        assert(block.len() == 2);
        let all = record_blocks(fields, n, literal_bools);
        assert(all == before + block);
        assert forall|i: int| 0 <= i < n implies {
            &&& #[trigger] all[2 * i] == value_at(
                (i + 1) as nat,
                0,
                CellView::Text(fields[i].name),
            )
            &&& all[2 * i + 1] == value_at(
                (i + 1) as nat,
                1,
                cell_of(fields[i].value, literal_bools),
            )
        } by {
            if i < m {
                assert(all[2 * i] == before[2 * i]);
                assert(all[2 * i + 1] == before[2 * i + 1]);
            } else {
                assert(all[2 * i] == block[0]);
                assert(all[2 * i + 1] == block[1]);
            }
        }
    }
}

/// A record of `n` fields, none of which holds a list of records, makes the
/// two headers `Key` and `Value` in row 0 and then, for field `i`, its name
/// and its cell side by side in row `i + 1`: `2 + 2 * n` placements, no two
/// of them at one position.
pub proof fn theorem_plain_record_layout(v: ValueView, literal_bools: bool)
    requires
        shape_of(v) == Shape::Record,
        plain_record(v.fields()),
    ensures
        layout_of(v, literal_bools).len() == 2 + 2 * v.fields().len(),
        layout_of(v, literal_bools)[0] == header_at(0, 0, key_label()),
        layout_of(v, literal_bools)[1] == header_at(0, 1, value_label()),
        forall|i: int|
            0 <= i < v.fields().len() ==> {
                &&& #[trigger] layout_of(v, literal_bools)[2 + 2 * i] == value_at(
                    (i + 1) as nat,
                    0,
                    CellView::Text(v.fields()[i].name),
                )
                &&& layout_of(v, literal_bools)[2 + 2 * i + 1] == value_at(
                    (i + 1) as nat,
                    1,
                    cell_of(v.fields()[i].value, literal_bools),
                )
            },
        no_overlap(layout_of(v, literal_bools)),
{
    let fields = v.fields();
    lemma_plain_record_blocks(fields, fields.len(), literal_bools);
    theorem_layout_free_of_overlap(v, literal_bools);
    let blocks = record_blocks(fields, fields.len(), literal_bools);
    let all = layout_of(v, literal_bools);
    assert forall|i: int| 0 <= i < fields.len() implies {
        &&& #[trigger] all[2 + 2 * i] == value_at(
            (i + 1) as nat,
            0,
            CellView::Text(fields[i].name),
        )
        &&& all[2 + 2 * i + 1] == value_at(
            (i + 1) as nat,
            1,
            cell_of(fields[i].value, literal_bools),
        )
    } by {
        assert(all[2 + 2 * i] == blocks[2 * i]);
        assert(all[2 + 2 * i + 1] == blocks[2 * i + 1]);
    }
}

/// No field of any element of the table holds a list of records.
pub open spec fn plain_table(items: Seq<ValueView>) -> bool {
    forall|i: int| 0 <= i < items.len() ==> plain_record((#[trigger] items[i]).fields())
}

/// What is found by name among fields that hold no list of records is no
/// list of records.
proof fn lemma_plain_lookup(fields: Seq<FieldView>, name: Seq<char>)
    requires
        plain_record(fields),
    ensures
        lookup(fields, name) matches Some(v) ==> !v.is_table(),
{
    lemma_find_field(fields, name, fields.len());
}

/// Fields that hold no list of records take no rows of their own.
proof fn lemma_plain_own_span(fields: Seq<FieldView>, n: nat)
    requires
        plain_record(fields),
        n <= fields.len(),
    ensures
        own_span(fields, n) == 0,
    decreases n,
{
    if n > 0 {
        lemma_plain_own_span(fields, (n - 1) as nat);
        assert(!fields[n - 1].value.is_table());
    }
}

/// What a plain table shows in a data row under a header field: the cell of
/// the element's field of that name, or nothing.
pub open spec fn plain_cell(fields: Seq<FieldView>, name: Seq<char>, literal_bools: bool) -> Option<
    ContentView,
> {
    match lookup(fields, name) {
        Some(v) => Some(ContentView::Value(cell_of(v, literal_bools))),
        None => None,
    }
}

/// How many of the leading `n` header fields an element has.
pub open spec fn present_in_row(fields: Seq<FieldView>, header: Seq<FieldView>, n: nat) -> nat
    decreases n,
{
    if n == 0 {
        0
    } else {
        present_in_row(fields, header, (n - 1) as nat) + if lookup(
            fields,
            header[n - 1].name,
        ) is Some {
            1nat
        } else {
            0nat
        }
    }
}

/// How many header fields the leading `n` elements have, all together.
pub open spec fn present_in_rows(items: Seq<ValueView>, header: Seq<FieldView>, n: nat) -> nat
    decreases n,
{
    if n == 0 {
        0
    } else {
        present_in_rows(items, header, (n - 1) as nat) + present_in_row(
            items[n - 1].fields(),
            header,
            header.len(),
        )
    }
}

proof fn lemma_plain_columns(header: Seq<FieldView>, j: nat)
    requires
        j <= header.len(),
        plain_record(header),
    ensures
        column_offset(header, j) == j,
    decreases j,
{
    if j > 0 {
        lemma_plain_columns(header, (j - 1) as nat);
        assert(!header[j - 1].value.is_table());
    }
}

proof fn lemma_plain_row_block(
    fields: Seq<FieldView>,
    header: Seq<FieldView>,
    n: nat,
    row: nat,
    literal_bools: bool,
    r: nat,
    c: nat,
)
    requires
        n <= header.len(),
        plain_record(header),
        plain_record(fields),
    ensures
        height_under(fields, header, n) == 0,
        row_block(fields, header, n, row, literal_bools).len() == present_in_row(
            fields,
            header,
            n,
        ),
        content_at(row_block(fields, header, n, row, literal_bools), r, c) == if r == row && c
            < n {
            plain_cell(fields, header[c as int].name, literal_bools)
        } else {
            None
        },
    decreases n,
{
    if n > 0 {
        let m = (n - 1) as nat;
        lemma_plain_row_block(fields, header, m, row, literal_bools, r, c);
        lemma_plain_columns(header, m);
        let before = row_block(fields, header, m, row, literal_bools);
        lemma_plain_lookup(fields, header[n - 1].name);
        match lookup(fields, header[n - 1].name) {
            Some(v) => {
                assert(!v.is_table());
                let cell = seq![value_at(row, m, cell_of(v, literal_bools))];
                assert(field_content(
                    v,
                    col_span_of(header[n - 1].value),
                    row,
                    column_offset(header, m),
                    literal_bools,
                ) == cell);
                lemma_content_at_join(before, cell, r, c);
                assert(content_at(cell.drop_first(), r, c) is None);
            },
            None => {},
        }
    }
}

proof fn lemma_plain_table_blocks(
    items: Seq<ValueView>,
    header: Seq<FieldView>,
    n: nat,
    literal_bools: bool,
    r: nat,
    c: nat,
)
    requires
        n <= items.len(),
        plain_record(header),
        plain_table(items),
    ensures
        table_row(items, header, n) == n + 1,
        table_blocks(items, header, n, literal_bools).len() == present_in_rows(items, header, n),
        content_at(table_blocks(items, header, n, literal_bools), r, c) == if 1 <= r <= n && c
            < header.len() {
            plain_cell(items[r - 1].fields(), header[c as int].name, literal_bools)
        } else {
            None
        },
    decreases n,
{
    if n > 0 {
        let m = (n - 1) as nat;
        lemma_plain_table_blocks(items, header, m, literal_bools, r, c);
        let fields = items[n - 1].fields();
        assert(plain_record(items[n - 1].fields()));
        lemma_plain_own_span(fields, fields.len());
        lemma_plain_row_block(fields, header, header.len(), n, literal_bools, r, c);
        lemma_content_at_join(
            table_blocks(items, header, m, literal_bools),
            row_block(fields, header, header.len(), n, literal_bools),
            r,
            c,
        );
    }
}

/// Every element has every header field.
pub open spec fn complete_table(items: Seq<ValueView>) -> bool {
    forall|i: int, j: int|
        0 <= i < items.len() && 0 <= j < items[0].fields().len() ==> (#[trigger] lookup(
            items[i].fields(),
            items[0].fields()[j].name,
        )) is Some
}

proof fn lemma_complete_row(fields: Seq<FieldView>, header: Seq<FieldView>, n: nat)
    requires
        n <= header.len(),
        forall|j: int| 0 <= j < header.len() ==> (#[trigger] lookup(fields, header[j].name)) is Some,
    ensures
        present_in_row(fields, header, n) == n,
    decreases n,
{
    if n > 0 {
        lemma_complete_row(fields, header, (n - 1) as nat);
        assert(lookup(fields, header[n - 1].name) is Some);
    }
}

proof fn lemma_complete_rows(items: Seq<ValueView>, n: nat)
    requires
        n <= items.len(),
        complete_table(items),
    ensures
        present_in_rows(items, items[0].fields(), n) == n * items[0].fields().len(),
    decreases n,
{
    if n > 0 {
        let header = items[0].fields();
        lemma_complete_rows(items, (n - 1) as nat);
        assert forall|j: int| 0 <= j < header.len() implies (#[trigger] lookup(
            items[n - 1].fields(),
            header[j].name,
        )) is Some by {
            assert(lookup(items[n - 1].fields(), items[0].fields()[j].name) is Some);
        }
        lemma_complete_row(items[n - 1].fields(), header, header.len());
        let k = header.len();
        let m = (n - 1) as nat;
        assert(m * k + k == n * k) by (nonlinear_arith)
            requires
                m + 1 == n,
        ;
    } else {
        assert(n * items[0].fields().len() == 0) by (nonlinear_arith)
            requires
                n == 0,
        ;
    }
}

/// A table of `n` elements under `k` header fields, with no list of records
/// anywhere in it, shows the header names in row 0, columns `0 .. k`, and in
/// row `i + 1` under header field `j` the cell of element `i`'s field of that
/// name; where the element lacks the field the position stays empty, and so
/// does every other position. It makes one placement for each header field
/// and one for each field that an element has under a header name: `k + n * k`
/// if every element has them all. No two placements share a position.
pub proof fn theorem_plain_table_layout(v: ValueView, literal_bools: bool)
    requires
        shape_of(v) == Shape::HomogeneousRecordList,
        plain_table(v.items()),
    ensures
        forall|r: nat, c: nat|
            #[trigger] content_at(layout_of(v, literal_bools), r, c) == if c
                >= v.items()[0].fields().len() || r > v.items().len() {
                None
            } else if r == 0 {
                Some(ContentView::Header(v.items()[0].fields()[c as int].name))
            } else {
                plain_cell(
                    v.items()[r - 1].fields(),
                    v.items()[0].fields()[c as int].name,
                    literal_bools,
                )
            },
        layout_of(v, literal_bools).len() == v.items()[0].fields().len() + present_in_rows(
            v.items(),
            v.items()[0].fields(),
            v.items().len(),
        ),
        complete_table(v.items()) ==> layout_of(v, literal_bools).len()
            == v.items()[0].fields().len() + v.items().len() * v.items()[0].fields().len(),
        no_overlap(layout_of(v, literal_bools)),
{
    let items = v.items();
    let header = items[0].fields();
    let all = layout_of(v, literal_bools);
    let blocks = table_blocks(items, header, items.len(), literal_bools);
    theorem_layout_free_of_overlap(v, literal_bools);
    lemma_top_headers(header);
    assert(plain_record(items[0].fields()));
    lemma_plain_table_blocks(items, header, items.len(), literal_bools, 0, 0);
    assert(all == top_headers(header) + blocks);
    assert forall|r: nat, c: nat|
        #[trigger] content_at(all, r, c) == if c >= header.len() || r > items.len() {
            None
        } else if r == 0 {
            Some(ContentView::Header(header[c as int].name))
        } else {
            plain_cell(items[r - 1].fields(), header[c as int].name, literal_bools)
        } by {
        lemma_content_at_join(top_headers(header), blocks, r, c);
        lemma_plain_table_blocks(items, header, items.len(), literal_bools, r, c);
        lemma_plain_columns(header, header.len());
        if r == 0 && c < header.len() {
            lemma_plain_columns(header, c);
            lemma_content_at_found(top_headers(header), c as int);
        } else {
            lemma_content_at_outside(top_headers(header), 0, 1, 0, header.len(), r, c);
        }
    }
    if complete_table(items) {
        lemma_complete_rows(items, items.len());
    }
}

/// The rows at which the fields of a record start grow with the fields.
pub proof fn lemma_record_row_grows(fields: Seq<FieldView>, i: nat, k: nat)
    requires
        i <= k,
    ensures
        record_row(fields, i) <= record_row(fields, k),
    decreases k,
{
    if i < k {
        lemma_record_row_grows(fields, i, (k - 1) as nat);
    }
}

/// A field of a record moves every later field down by the rows that it
/// takes: the next field starts one row below it, and below a nested table
/// one row further for each element of that table. Every placement of a
/// later field stands in a row below every placement of the field.
pub proof fn theorem_record_displacement(
    fields: Seq<FieldView>,
    i: nat,
    k: nat,
    literal_bools: bool,
)
    requires
        i < k < fields.len(),
    ensures
        record_row(fields, i + 1) == record_row(fields, i) + row_span_of(fields[i as int].value)
            + 1,
        record_row(fields, k) >= record_row(fields, i + 1),
        forall|a: int, b: int|
            0 <= a < field_block(fields[i as int], record_row(fields, i), literal_bools).len()
                && 0 <= b < field_block(
                fields[k as int],
                record_row(fields, k),
                literal_bools,
            ).len() ==> (#[trigger] field_block(
                fields[i as int],
                record_row(fields, i),
                literal_bools,
            )[a]).row < (#[trigger] field_block(
                fields[k as int],
                record_row(fields, k),
                literal_bools,
            )[b]).row,
{
    lemma_record_row_grows(fields, i + 1, k);
    lemma_field_block(fields[i as int], record_row(fields, i), literal_bools);
    lemma_field_block(fields[k as int], record_row(fields, k), literal_bools);
}

/// At most one of the fields holds a list of records.
pub open spec fn at_most_one_table(fields: Seq<FieldView>) -> bool {
    forall|a: int, b: int|
        0 <= a < b < fields.len() ==> !((#[trigger] fields[a]).value.is_table()
            && (#[trigger] fields[b]).value.is_table())
}

/// Where field `k` holds the one list of records, the rows that the leading
/// `n` fields take for their own are those of that list, once `n` reaches it.
proof fn lemma_own_span_of_one_table(fields: Seq<FieldView>, k: int, n: nat)
    requires
        at_most_one_table(fields),
        0 <= k < fields.len(),
        fields[k].value.is_table(),
        n <= fields.len(),
    ensures
        own_span(fields, n) == if n > k {
            row_span_of(fields[k].value)
        } else {
            0
        },
    decreases n,
{
    if n > 0 {
        lemma_own_span_of_one_table(fields, k, (n - 1) as nat);
        if n - 1 != k {
            assert(!(fields[n - 1].value.is_table() && fields[k].value.is_table()));
        }
    }
}

/// What an element with at most one list of records shows under header
/// fields is no taller than that list.
proof fn lemma_height_under_one_table(fields: Seq<FieldView>, header: Seq<FieldView>, n: nat)
    requires
        at_most_one_table(fields),
    ensures
        height_under(fields, header, n) <= own_span(fields, fields.len()),
    decreases n,
{
    if n > 0 {
        lemma_height_under_one_table(fields, header, (n - 1) as nat);
        let name = header[n - 1].name;
        lemma_find_field(fields, name, fields.len());
        match find_field(fields, name, fields.len()) {
            Some(k) => {
                if fields[k].value.is_table() {
                    lemma_own_span_of_one_table(fields, k, fields.len());
                }
            },
            None => {},
        }
    }
}

/// An element with one nested table takes the rows of that table, whether a
/// header field names it or not; an element without a nested table takes
/// none.
pub proof fn theorem_row_height_of_one_table(fields: Seq<FieldView>, header: Seq<FieldView>)
    requires
        at_most_one_table(fields),
    ensures
        row_height(fields, header) == own_span(fields, fields.len()),
        forall|k: int|
            0 <= k < fields.len() && (#[trigger] fields[k]).value.is_table() ==> row_height(
                fields,
                header,
            ) == row_span_of(fields[k].value),
        plain_record(fields) ==> row_height(fields, header) == 0,
{
    lemma_height_under_one_table(fields, header, header.len());
    assert forall|k: int|
        0 <= k < fields.len() && (#[trigger] fields[k]).value.is_table() implies row_height(
        fields,
        header,
    ) == row_span_of(fields[k].value) by {
        lemma_own_span_of_one_table(fields, k, fields.len());
    }
    if plain_record(fields) {
        lemma_plain_own_span(fields, fields.len());
    }
}

/// The first element of a table starts at row 1, and the element after one
/// with at most one nested table starts below it by the size of that table
/// and one row more: by one row, if it has none.
pub proof fn theorem_table_rows_accumulate(
    items: Seq<ValueView>,
    header: Seq<FieldView>,
    i: nat,
)
    requires
        i < items.len(),
        at_most_one_table(items[i as int].fields()),
    ensures
        table_row(items, header, 0) == 1,
        table_row(items, header, i + 1) == table_row(items, header, i) + own_span(
            items[i as int].fields(),
            items[i as int].fields().len(),
        ) + 1,
        forall|k: int|
            0 <= k < items[i as int].fields().len() && (#[trigger] items[i as int].fields()[k]).value.is_table()
                ==> table_row(items, header, i + 1) == table_row(items, header, i) + row_span_of(
                items[i as int].fields()[k].value,
            ) + 1,
        plain_record(items[i as int].fields()) ==> table_row(items, header, i + 1) == table_row(
            items,
            header,
            i,
        ) + 1,
{
    theorem_row_height_of_one_table(items[i as int].fields(), header);
}

/// The rows at which the elements of a table start grow with the elements.
pub proof fn lemma_table_row_grows(items: Seq<ValueView>, header: Seq<FieldView>, i: nat, k: nat)
    requires
        i <= k,
    ensures
        table_row(items, header, i) <= table_row(items, header, k),
    decreases k,
{
    if i < k {
        lemma_table_row_grows(items, header, i, (k - 1) as nat);
    }
}

/// An element of a table moves every later element down by the rows that it
/// takes: the next element starts one row below it, and one row further for
/// each element of its nested table, whether the header names the field that
/// holds it or not. An element without a nested table takes one row. Every
/// placement of a later element stands in a row below every placement of the
/// element.
pub proof fn theorem_table_displacement(
    items: Seq<ValueView>,
    header: Seq<FieldView>,
    i: nat,
    k: nat,
    literal_bools: bool,
)
    requires
        i < k < items.len(),
    ensures
        table_row(items, header, i + 1) == table_row(items, header, i) + row_height(
            items[i as int].fields(),
            header,
        ) + 1,
        table_row(items, header, k) >= table_row(items, header, i + 1),
        forall|a: int, b: int|
            0 <= a < row_block(
                items[i as int].fields(),
                header,
                header.len(),
                table_row(items, header, i),
                literal_bools,
            ).len() && 0 <= b < row_block(
                items[k as int].fields(),
                header,
                header.len(),
                table_row(items, header, k),
                literal_bools,
            ).len() ==> (#[trigger] row_block(
                items[i as int].fields(),
                header,
                header.len(),
                table_row(items, header, i),
                literal_bools,
            )[a]).row < (#[trigger] row_block(
                items[k as int].fields(),
                header,
                header.len(),
                table_row(items, header, k),
                literal_bools,
            )[b]).row,
{
    lemma_table_row_grows(items, header, i + 1, k);
    lemma_row_block(
        items[i as int].fields(),
        header,
        header.len(),
        table_row(items, header, i),
        literal_bools,
    );
    lemma_row_block(
        items[k as int].fields(),
        header,
        header.len(),
        table_row(items, header, k),
        literal_bools,
    );
}

/// The columns of a table are reserved once, from its header: a header field
/// starts where the one before it ends, and takes one column, or as many as
/// its own header has if it holds a list of records. Whatever an element has
/// under that header field, shorter, longer or of another kind, stays within
/// those columns, and begins at the first of them on the element's first line.
pub proof fn theorem_column_reservation(
    header: Seq<FieldView>,
    fields: Seq<FieldView>,
    j: nat,
    row: nat,
    literal_bools: bool,
)
    requires
        j < header.len(),
    ensures
        column_offset(header, j + 1) == column_offset(header, j) + col_span_of(
            header[j as int].value,
        ),
        col_span_of(header[j as int].value) >= 1,
        lookup(fields, header[j as int].name) matches Some(v) ==> {
            let content = field_content(
                v,
                col_span_of(header[j as int].value),
                row,
                column_offset(header, j),
                literal_bools,
            );
            &&& within(
                content,
                row,
                row + row_span_of(v) + 1,
                column_offset(header, j),
                column_offset(header, j + 1),
            )
            &&& !v.is_table() ==> content == seq![
                value_at(row, column_offset(header, j), cell_of(v, literal_bools)),
            ]
            &&& v.is_table() && table_header(v).len() > 0 ==> content[0] == header_at(
                row,
                column_offset(header, j),
                table_header(v)[0].name,
            )
        },
{
    match lookup(fields, header[j as int].name) {
        Some(v) => {
            let reserved = col_span_of(header[j as int].value);
            let col = column_offset(header, j);
            lemma_field_content(v, reserved, row, col, literal_bools);
            if v.is_table() && table_header(v).len() > 0 {
                let confined = least(reserved, table_header(v).len());
                assert(header_cells(table_header(v), confined, row, col)[0] == header_at(
                    row,
                    col,
                    table_header(v)[0].name,
                ));
            }
        },
        None => {},
    }
}

/// The grid of a list of records begins with its header row: the names of the
/// first element's fields, in their order, each at the column reserved for
/// it.
pub proof fn theorem_table_header_row(v: ValueView, literal_bools: bool)
    requires
        shape_of(v) == Shape::HomogeneousRecordList,
    ensures
        layout_of(v, literal_bools).len() >= v.items()[0].fields().len(),
        forall|j: int|
            0 <= j < v.items()[0].fields().len() ==> #[trigger] layout_of(v, literal_bools)[j]
                == header_at(
                0,
                column_offset(v.items()[0].fields(), j as nat),
                v.items()[0].fields()[j].name,
            ),
{
    let header = v.items()[0].fields();
    let all = layout_of(v, literal_bools);
    assert forall|j: int| 0 <= j < header.len() implies #[trigger] all[j] == header_at(
        0,
        column_offset(header, j as nat),
        header[j].name,
    ) by {
        assert(all[j] == top_headers(header)[j]);
    }
}

} // verus!
