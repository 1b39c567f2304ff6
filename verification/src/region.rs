//! Where the pieces of a layout lie, and why no two of them meet.

use crate::grid::{header_at, no_overlap, value_at, within, CellView, PlacementView};
use crate::layout::{
    column_offset, field_block, field_content, greatest, header_cells, key_label, layout_of,
    least, nested_table, record_blocks, record_layout, record_row, row_block, row_cells,
    height_under, table_blocks, table_layout, table_row, table_rows, top_headers, value_label,
};
use crate::shape::{col_span_of, row_span_of, shape_of, table_header, Shape};
use crate::value::{lookup, FieldView, ValueView};
use vstd::prelude::*;

verus! {

/// Two regions of the grid have no position in common: one ends above the
/// other's first row, or left of its first column.
pub open spec fn apart(
    top1: nat,
    bottom1: nat,
    left1: nat,
    right1: nat,
    top2: nat,
    bottom2: nat,
    left2: nat,
    right2: nat,
) -> bool {
    bottom1 <= top2 || bottom2 <= top1 || right1 <= left2 || right2 <= left1
}

/// Placements that lie in a region lie in every region around it.
pub proof fn lemma_within_wider(
    s: Seq<PlacementView>,
    top: nat,
    bottom: nat,
    left: nat,
    right: nat,
    top2: nat,
    bottom2: nat,
    left2: nat,
    right2: nat,
)
    requires
        within(s, top, bottom, left, right),
        top2 <= top,
        bottom <= bottom2,
        left2 <= left,
        right <= right2,
    ensures
        within(s, top2, bottom2, left2, right2),
{
}

/// Two runs of placements, each free of overlap and each in its own region,
/// make one run free of overlap if the regions are apart.
pub proof fn lemma_join(
    a: Seq<PlacementView>,
    b: Seq<PlacementView>,
    top1: nat,
    bottom1: nat,
    left1: nat,
    right1: nat,
    top2: nat,
    bottom2: nat,
    left2: nat,
    right2: nat,
)
    requires
        no_overlap(a),
        no_overlap(b),
        within(a, top1, bottom1, left1, right1),
        within(b, top2, bottom2, left2, right2),
        apart(top1, bottom1, left1, right1, top2, bottom2, left2, right2),
    ensures
        no_overlap(a + b),
        within(
            a + b,
            least(top1, top2),
            greatest(bottom1, bottom2),
            least(left1, left2),
            greatest(right1, right2),
        ),
{
    let s = a + b;
    assert forall|i: int, j: int| 0 <= i < j < s.len() implies !(#[trigger] s[i].row
        == #[trigger] s[j].row && s[i].col == s[j].col) by {
        if j < a.len() {
            assert(s[i] == a[i] && s[j] == a[j]);
        } else if i >= a.len() {
            assert(s[i] == b[i - a.len()] && s[j] == b[j - a.len()]);
        } else {
            assert(s[i] == a[i] && s[j] == b[j - a.len()]);
        }
    }
    assert forall|i: int| 0 <= i < s.len() implies least(top1, top2) <= (#[trigger] s[i]).row
        < greatest(bottom1, bottom2) && least(left1, left2) <= s[i].col < greatest(
        right1,
        right2,
    ) by {
        if i < a.len() {
            assert(s[i] == a[i]);
        } else {
            assert(s[i] == b[i - a.len()]);
        }
    }
}

/// The header row of a nested table lies in its row, within its columns, and
/// is free of overlap.
pub proof fn lemma_header_cells(header: Seq<FieldView>, width: nat, row: nat, col: nat)
    ensures
        no_overlap(header_cells(header, width, row, col)),
        within(header_cells(header, width, row, col), row, row + 1, col, col + width),
{
}

/// A data row of a nested table lies in its row, within its columns, and is
/// free of overlap.
pub proof fn lemma_row_cells(
    fields: Seq<FieldView>,
    header: Seq<FieldView>,
    width: nat,
    row: nat,
    col: nat,
    literal_bools: bool,
)
    ensures
        no_overlap(row_cells(fields, header, width, row, col, literal_bools)),
        within(row_cells(fields, header, width, row, col, literal_bools), row, row + 1, col, col + width),
    decreases width,
{
    if width > 0 {
        lemma_row_cells(fields, header, (width - 1) as nat, row, col, literal_bools);
    }
}

/// The data rows of a nested table lie in their rows, within its columns, and
/// are free of overlap.
pub proof fn lemma_table_rows(
    items: Seq<ValueView>,
    header: Seq<FieldView>,
    width: nat,
    n: nat,
    row: nat,
    col: nat,
    literal_bools: bool,
)
    ensures
        no_overlap(table_rows(items, header, width, n, row, col, literal_bools)),
        within(
            table_rows(items, header, width, n, row, col, literal_bools),
            row,
            row + n,
            col,
            col + width,
        ),
    decreases n,
{
    if n > 0 {
        let m = (n - 1) as nat;
        lemma_table_rows(items, header, width, m, row, col, literal_bools);
        lemma_row_cells(items[n - 1].fields(), header, width, row + m, col, literal_bools);
        lemma_join(
            table_rows(items, header, width, m, row, col, literal_bools),
            row_cells(items[n - 1].fields(), header, width, row + m, col, literal_bools),
            row,
            row + m,
            col,
            col + width,
            row + m,
            row + m + 1,
            col,
            col + width,
        );
    }
}

/// A nested table lies in the rows of its header and elements, within its
/// columns, and is free of overlap.
pub proof fn lemma_nested_table(v: ValueView, width: nat, row: nat, col: nat, literal_bools: bool)
    ensures
        no_overlap(nested_table(v, width, row, col, literal_bools)),
        within(
            nested_table(v, width, row, col, literal_bools),
            row,
            row + v.items().len() + 1,
            col,
            col + width,
        ),
{
    lemma_header_cells(table_header(v), width, row, col);
    lemma_table_rows(
        v.items(),
        table_header(v),
        width,
        v.items().len(),
        row + 1,
        col,
        literal_bools,
    );
    lemma_join(
        header_cells(table_header(v), width, row, col),
        table_rows(v.items(), table_header(v), width, v.items().len(), row + 1, col, literal_bools),
        row,
        row + 1,
        col,
        col + width,
        row + 1,
        row + 1 + v.items().len(),
        col,
        col + width,
    );
}

/// What a field's value puts on the grid lies in the rows that the value
/// takes, within the columns given to it, and is free of overlap.
pub proof fn lemma_field_content(v: ValueView, width: nat, row: nat, col: nat, literal_bools: bool)
    ensures
        no_overlap(field_content(v, width, row, col, literal_bools)),
        within(
            field_content(v, width, row, col, literal_bools),
            row,
            row + row_span_of(v) + 1,
            col,
            col + greatest(width, 1),
        ),
{
    if v.is_table() {
        let confined = least(width, table_header(v).len());
        lemma_nested_table(v, confined, row, col, literal_bools);
        lemma_within_wider(
            nested_table(v, confined, row, col, literal_bools),
            row,
            row + v.items().len() + 1,
            col,
            col + confined,
            row,
            row + row_span_of(v) + 1,
            col,
            col + greatest(width, 1),
        );
    }
}

/// The widest that a field's value can reach to the right in a record's
/// table: one column for its key, then those of its own header, and one at
/// the least.
pub open spec fn field_reach(f: FieldView) -> nat {
    1 + greatest(table_header(f.value).len(), 1)
}

/// The widest reach among the leading `n` fields of a record.
pub open spec fn record_reach(fields: Seq<FieldView>, n: nat) -> nat
    decreases n,
{
    if n == 0 {
        2
    } else {
        greatest(record_reach(fields, (n - 1) as nat), field_reach(fields[n - 1]))
    }
}

/// One field of a record lies in the rows that it takes from its own row on,
/// and is free of overlap.
pub proof fn lemma_field_block(f: FieldView, row: nat, literal_bools: bool)
    ensures
        no_overlap(field_block(f, row, literal_bools)),
        within(
            field_block(f, row, literal_bools),
            row,
            row + row_span_of(f.value) + 1,
            0,
            field_reach(f),
        ),
{
    let width = table_header(f.value).len();
    lemma_field_content(f.value, width, row, 1, literal_bools);
    let key = seq![value_at(row, 0, CellView::Text(f.name))];
    lemma_within_wider(key, row, row + 1, 0, 1, row, row + row_span_of(f.value) + 1, 0, 1);
    lemma_join(
        key,
        field_content(f.value, width, row, 1, literal_bools),
        row,
        row + row_span_of(f.value) + 1,
        0,
        1,
        row,
        row + row_span_of(f.value) + 1,
        1,
        1 + greatest(width, 1),
    );
}

/// The fields of a record lie one below the other from row 1 on, each in the
/// rows that it takes, and are free of overlap.
pub proof fn lemma_record_blocks(fields: Seq<FieldView>, n: nat, literal_bools: bool)
    ensures
        no_overlap(record_blocks(fields, n, literal_bools)),
        within(
            record_blocks(fields, n, literal_bools),
            1,
            record_row(fields, n),
            0,
            record_reach(fields, n),
        ),
        record_row(fields, n) >= 1,
    decreases n,
{
    if n > 0 {
        let m = (n - 1) as nat;
        lemma_record_blocks(fields, m, literal_bools);
        lemma_field_block(fields[n - 1], record_row(fields, m), literal_bools);
        lemma_join(
            record_blocks(fields, m, literal_bools),
            field_block(fields[n - 1], record_row(fields, m), literal_bools),
            1,
            record_row(fields, m),
            0,
            record_reach(fields, m),
            record_row(fields, m),
            record_row(fields, n),
            0,
            field_reach(fields[n - 1]),
        );
    }
}

/// The grid of a record is free of overlap.
pub proof fn lemma_record_layout(fields: Seq<FieldView>, literal_bools: bool)
    ensures
        no_overlap(record_layout(fields, literal_bools)),
{
    lemma_record_blocks(fields, fields.len(), literal_bools);
    let head = seq![
        header_at(0, 0, key_label()),
        header_at(0, 1, value_label()),
    ];
    lemma_join(
        head,
        record_blocks(fields, fields.len(), literal_bools),
        0,
        1,
        0,
        2,
        1,
        record_row(fields, fields.len()),
        0,
        record_reach(fields, fields.len()),
    );
}

/// The columns of a table's header fields follow one another from left to
/// right: a later field starts where the field before it ends, or further
/// right.
pub proof fn lemma_column_offset_grows(header: Seq<FieldView>, j: nat, k: nat)
    requires
        j <= k,
    ensures
        column_offset(header, j) <= column_offset(header, k),
        j < k ==> column_offset(header, j) + col_span_of(header[j as int].value) <= column_offset(
            header,
            k,
        ),
    decreases k,
{
    if j < k {
        lemma_column_offset_grows(header, j, (k - 1) as nat);
    }
}

/// The header row of a table lies in row 0 and is free of overlap.
pub proof fn lemma_top_headers(header: Seq<FieldView>)
    ensures
        no_overlap(top_headers(header)),
        within(top_headers(header), 0, 1, 0, column_offset(header, header.len())),
{
    let s = top_headers(header);
    assert forall|i: int, j: int| 0 <= i < j < s.len() implies !(#[trigger] s[i].row
        == #[trigger] s[j].row && s[i].col == s[j].col) by {
        lemma_column_offset_grows(header, i as nat, j as nat);
    }
    assert forall|i: int| 0 <= i < s.len() implies 0 <= (#[trigger] s[i]).row < 1 && 0
        <= s[i].col < column_offset(header, header.len()) by {
        lemma_column_offset_grows(header, i as nat, header.len());
    }
}

/// One element of a table lies in the rows that it takes from its first line
/// on, within the columns of the header fields, and is free of overlap.
pub proof fn lemma_row_block(
    fields: Seq<FieldView>,
    header: Seq<FieldView>,
    n: nat,
    row: nat,
    literal_bools: bool,
)
    ensures
        no_overlap(row_block(fields, header, n, row, literal_bools)),
        within(
            row_block(fields, header, n, row, literal_bools),
            row,
            row + height_under(fields, header, n) + 1,
            0,
            column_offset(header, n),
        ),
    decreases n,
{
    if n > 0 {
        let m = (n - 1) as nat;
        lemma_row_block(fields, header, m, row, literal_bools);
        let before = row_block(fields, header, m, row, literal_bools);
        match lookup(fields, header[n - 1].name) {
            Some(v) => {
                let reserved = col_span_of(header[n - 1].value);
                let col = column_offset(header, m);
                lemma_field_content(v, reserved, row, col, literal_bools);
                lemma_join(
                    before,
                    field_content(v, reserved, row, col, literal_bools),
                    row,
                    row + height_under(fields, header, m) + 1,
                    0,
                    col,
                    row,
                    row + row_span_of(v) + 1,
                    col,
                    col + greatest(reserved, 1),
                );
            },
            None => {},
        }
    }
}

/// The elements of a table lie one below the other from row 1 on, each in the
/// rows that it takes, and are free of overlap.
pub proof fn lemma_table_blocks(
    items: Seq<ValueView>,
    header: Seq<FieldView>,
    n: nat,
    literal_bools: bool,
)
    ensures
        no_overlap(table_blocks(items, header, n, literal_bools)),
        within(
            table_blocks(items, header, n, literal_bools),
            1,
            table_row(items, header, n),
            0,
            column_offset(header, header.len()),
        ),
        table_row(items, header, n) >= 1,
    decreases n,
{
    if n > 0 {
        let m = (n - 1) as nat;
        lemma_table_blocks(items, header, m, literal_bools);
        lemma_row_block(
            items[n - 1].fields(),
            header,
            header.len(),
            table_row(items, header, m),
            literal_bools,
        );
        lemma_join(
            table_blocks(items, header, m, literal_bools),
            row_block(
                items[n - 1].fields(),
                header,
                header.len(),
                table_row(items, header, m),
                literal_bools,
            ),
            1,
            table_row(items, header, m),
            0,
            column_offset(header, header.len()),
            table_row(items, header, m),
            table_row(items, header, n),
            0,
            column_offset(header, header.len()),
        );
    }
}

/// The grid of a list of records is free of overlap.
pub proof fn lemma_table_layout(items: Seq<ValueView>, literal_bools: bool)
    ensures
        no_overlap(table_layout(items, literal_bools)),
{
    let header = items[0].fields();
    lemma_top_headers(header);
    lemma_table_blocks(items, header, items.len(), literal_bools);
    lemma_join(
        top_headers(header),
        table_blocks(items, header, items.len(), literal_bools),
        0,
        1,
        0,
        column_offset(header, header.len()),
        1,
        table_row(items, header, items.len()),
        0,
        column_offset(header, header.len()),
    );
}

/// No two placements of a layout share a position, whatever the value: the
/// rows reserved for each field and element, and the columns reserved for
/// each header field, keep the pieces apart.
pub proof fn theorem_layout_free_of_overlap(v: ValueView, literal_bools: bool)
    ensures
        no_overlap(layout_of(v, literal_bools)),
{
    match shape_of(v) {
        Shape::Scalar => {},
        Shape::Record => {
            lemma_record_layout(v.fields(), literal_bools);
        },
        Shape::HomogeneousRecordList => {
            lemma_table_layout(v.items(), literal_bools);
        },
        Shape::OpaqueList => {},
    }
}

} // verus!
