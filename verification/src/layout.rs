//! The layout engine: where each piece of a value lands on the grid.
//!
//! A scalar is one cell. A record is a table of keys and values, one field
//! after the other downwards. A list of records is a table with one header
//! row; any other list is one column of cells. A field that is itself a list
//! of records is laid out in place as a nested table: a row of its own
//! headers, then one row for each of its elements. Whatever follows is moved
//! down by the rows that the nested table takes, and, in a table, to the right
//! by the columns that were reserved for it.

use crate::grid::{
    header_at, no_overlap, value_at, Cell, CellView, Content, Grid, PlacementView,
};
use crate::region::theorem_layout_free_of_overlap;
use crate::render::{cell_of, format_cell};
use crate::shape::{
    classify, col_span_of, first_record, nested_extent, row_span_of, shape_of, table_header, Shape,
};
use crate::value::{
    field_views, lookup, value_views, Field, FieldView, Record, Value, ValueView,
};
use vstd::prelude::*;
use vstd::string::*;

verus! {

/// The label of the first column of a record's table.
pub open spec fn key_label() -> Seq<char> {
    seq!['K', 'e', 'y']
}

/// The label of the second column of a record's table.
pub open spec fn value_label() -> Seq<char> {
    seq!['V', 'a', 'l', 'u', 'e']
}

/// The lesser of two numbers.
pub open spec fn least(a: nat, b: nat) -> nat {
    if a <= b {
        a
    } else {
        b
    }
}

/// The greater of two numbers.
pub open spec fn greatest(a: nat, b: nat) -> nat {
    if a >= b {
        a
    } else {
        b
    }
}

/// The header row of a nested table: the names of the leading `width` header
/// fields, from column `col` rightwards.
pub open spec fn header_cells(header: Seq<FieldView>, width: nat, row: nat, col: nat) -> Seq<
    PlacementView,
> {
    Seq::new(width, |j: int| header_at(row, (col + j) as nat, header[j].name))
}

/// One data row of a nested table: under each of the leading `width` header
/// fields the cell of the element's field of that name. A field that the
/// element lacks leaves its position empty.
pub open spec fn row_cells(
    fields: Seq<FieldView>,
    header: Seq<FieldView>,
    width: nat,
    row: nat,
    col: nat,
    literal_bools: bool,
) -> Seq<PlacementView>
    decreases width,
{
    if width == 0 {
        Seq::empty()
    } else {
        let before = row_cells(fields, header, (width - 1) as nat, row, col, literal_bools);
        match lookup(fields, header[width - 1].name) {
            Some(v) => before.push(
                value_at(row, (col + width - 1) as nat, cell_of(v, literal_bools)),
            ),
            None => before,
        }
    }
}

/// The leading `n` data rows of a nested table, the first of them at `row`.
/// An element that is no record leaves its row empty.
pub open spec fn table_rows(
    items: Seq<ValueView>,
    header: Seq<FieldView>,
    width: nat,
    n: nat,
    row: nat,
    col: nat,
    literal_bools: bool,
) -> Seq<PlacementView>
    decreases n,
{
    if n == 0 {
        Seq::empty()
    } else {
        table_rows(items, header, width, (n - 1) as nat, row, col, literal_bools) + row_cells(
            items[n - 1].fields(),
            header,
            width,
            (row + n - 1) as nat,
            col,
            literal_bools,
        )
    }
}

/// A nested table anchored at `(row, col)`: its header row there, its data
/// rows below, confined to `width` columns.
pub open spec fn nested_table(
    v: ValueView,
    width: nat,
    row: nat,
    col: nat,
    literal_bools: bool,
) -> Seq<PlacementView> {
    header_cells(table_header(v), width, row, col) + table_rows(
        v.items(),
        table_header(v),
        width,
        v.items().len(),
        row + 1,
        col,
        literal_bools,
    )
}

/// What a field's value puts on the grid from `(row, col)`: a nested table of
/// at most `width` columns if it is a list of records, else its one cell.
pub open spec fn field_content(
    v: ValueView,
    width: nat,
    row: nat,
    col: nat,
    literal_bools: bool,
) -> Seq<PlacementView> {
    if v.is_table() {
        nested_table(v, least(width, table_header(v).len()), row, col, literal_bools)
    } else {
        seq![value_at(row, col, cell_of(v, literal_bools))]
    }
}

/// The row at which field `i` of a record starts: the first field starts at
/// row 1, and each later one below the rows that the field before it takes
/// (one row, and for a nested table the rows of its elements besides).
pub open spec fn record_row(fields: Seq<FieldView>, i: nat) -> nat
    decreases i,
{
    if i == 0 {
        1
    } else {
        record_row(fields, (i - 1) as nat) + row_span_of(fields[i - 1].value) + 1
    }
}

/// One field of a record at its row: the name in column 0, the value from
/// column 1.
pub open spec fn field_block(f: FieldView, row: nat, literal_bools: bool) -> Seq<PlacementView> {
    seq![value_at(row, 0, CellView::Text(f.name))] + field_content(
        f.value,
        table_header(f.value).len(),
        row,
        1,
        literal_bools,
    )
}

/// The leading `n` fields of a record, each at its row.
pub open spec fn record_blocks(fields: Seq<FieldView>, n: nat, literal_bools: bool) -> Seq<
    PlacementView,
>
    decreases n,
{
    if n == 0 {
        Seq::empty()
    } else {
        record_blocks(fields, (n - 1) as nat, literal_bools) + field_block(
            fields[n - 1],
            record_row(fields, (n - 1) as nat),
            literal_bools,
        )
    }
}

/// The grid of a record: the headers `Key` and `Value` in row 0, then the
/// fields in their order.
pub open spec fn record_layout(fields: Seq<FieldView>, literal_bools: bool) -> Seq<PlacementView> {
    seq![header_at(0, 0, key_label()), header_at(0, 1, value_label())] + record_blocks(
        fields,
        fields.len(),
        literal_bools,
    )
}

/// The grid of a list that is no table: element `i` as one cell at row `i` of
/// column 0.
pub open spec fn opaque_layout(items: Seq<ValueView>, literal_bools: bool) -> Seq<PlacementView> {
    Seq::new(items.len(), |i: int| value_at(i as nat, 0, cell_of(items[i], literal_bools)))
}

/// The column at which header field `j` of a table starts: the widths
/// reserved for the fields before it, added up.
pub open spec fn column_offset(header: Seq<FieldView>, j: nat) -> nat
    decreases j,
{
    if j == 0 {
        0
    } else {
        column_offset(header, (j - 1) as nat) + col_span_of(header[j - 1].value)
    }
}

/// The header row of a table: each field's name at the field's column.
pub open spec fn top_headers(header: Seq<FieldView>) -> Seq<PlacementView> {
    Seq::new(header.len(), |j: int| header_at(0, column_offset(header, j as nat), header[j].name))
}

/// The rows of the tallest nested table among what an element has under the
/// leading `n` header fields.
pub open spec fn height_under(fields: Seq<FieldView>, header: Seq<FieldView>, n: nat) -> nat
    decreases n,
{
    if n == 0 {
        0
    } else {
        let before = height_under(fields, header, (n - 1) as nat);
        match lookup(fields, header[n - 1].name) {
            Some(v) => greatest(before, row_span_of(v)),
            None => before,
        }
    }
}

/// The rows of an element's own nested table: of the first of its leading `n`
/// fields that holds a list of records, whether the header names that field
/// or not. An element without such a field has none.
pub open spec fn own_span(fields: Seq<FieldView>, n: nat) -> nat
    decreases n,
{
    if n == 0 {
        0
    } else {
        let before = own_span(fields, (n - 1) as nat);
        if before > 0 {
            before
        } else {
            row_span_of(fields[n - 1].value)
        }
    }
}

/// The rows that a table element takes below its first line: those of its
/// own nested table, and no fewer than those of the tallest nested table
/// that it shows under a header field. An element without a nested table
/// takes none.
pub open spec fn row_height(fields: Seq<FieldView>, header: Seq<FieldView>) -> nat {
    greatest(height_under(fields, header, header.len()), own_span(fields, fields.len()))
}

/// The row at which element `i` of a table starts: the first element starts
/// at row 1, and each later one below the rows that the element before it
/// takes.
pub open spec fn table_row(items: Seq<ValueView>, header: Seq<FieldView>, i: nat) -> nat
    decreases i,
{
    if i == 0 {
        1
    } else {
        table_row(items, header, (i - 1) as nat) + row_height(items[i - 1].fields(), header) + 1
    }
}

/// One element of a table from its first line `row`: under each of the
/// leading `n` header fields what the element's field of that name puts
/// there, confined to the columns reserved for that header field.
pub open spec fn row_block(
    fields: Seq<FieldView>,
    header: Seq<FieldView>,
    n: nat,
    row: nat,
    literal_bools: bool,
) -> Seq<PlacementView>
    decreases n,
{
    if n == 0 {
        Seq::empty()
    } else {
        let before = row_block(fields, header, (n - 1) as nat, row, literal_bools);
        match lookup(fields, header[n - 1].name) {
            Some(v) => before + field_content(
                v,
                col_span_of(header[n - 1].value),
                row,
                column_offset(header, (n - 1) as nat),
                literal_bools,
            ),
            None => before,
        }
    }
}

/// The leading `n` elements of a table, each from its first line.
pub open spec fn table_blocks(
    items: Seq<ValueView>,
    header: Seq<FieldView>,
    n: nat,
    literal_bools: bool,
) -> Seq<PlacementView>
    decreases n,
{
    if n == 0 {
        Seq::empty()
    } else {
        table_blocks(items, header, (n - 1) as nat, literal_bools) + row_block(
            items[n - 1].fields(),
            header,
            header.len(),
            table_row(items, header, (n - 1) as nat),
            literal_bools,
        )
    }
}

/// The grid of a list of records: the header row, taken from the first
/// element, then the elements in their order.
pub open spec fn table_layout(items: Seq<ValueView>, literal_bools: bool) -> Seq<PlacementView> {
    top_headers(items[0].fields()) + table_blocks(
        items,
        items[0].fields(),
        items.len(),
        literal_bools,
    )
}

/// The grid of a value.
pub open spec fn layout_of(v: ValueView, literal_bools: bool) -> Seq<PlacementView> {
    match shape_of(v) {
        Shape::Scalar => seq![value_at(0, 0, cell_of(v, literal_bools))],
        Shape::Record => record_layout(v.fields(), literal_bools),
        Shape::HomogeneousRecordList => table_layout(v.items(), literal_bools),
        Shape::OpaqueList => opaque_layout(v.items(), literal_bools),
    }
}

/// An element without fields fills nothing of a data row.
proof fn lemma_row_cells_without_fields(
    header: Seq<FieldView>,
    width: nat,
    row: nat,
    col: nat,
    literal_bools: bool,
)
    ensures
        row_cells(Seq::empty(), header, width, row, col, literal_bools) == Seq::<
            PlacementView,
        >::empty(),
    decreases width,
{
    if width > 0 {
        lemma_row_cells_without_fields(header, (width - 1) as nat, row, col, literal_bools);
    }
}

/// Places the header row of a nested table.
fn place_header_cells(grid: &mut Grid, header: &Vec<Field>, width: usize, row: u128, col: u128)
    requires
        width <= header.len(),
        col + width <= u128::MAX,
    ensures
        final(grid)@ == old(grid)@ + header_cells(field_views(*header), width as nat, row as nat, col as nat),
{
    let mut j: usize = 0;
    assert(grid@ =~= old(grid)@ + header_cells(field_views(*header), 0, row as nat, col as nat));
    while j < width
        invariant
            j <= width <= header.len(),
            col + width <= u128::MAX,
            grid@ == old(grid)@ + header_cells(field_views(*header), j as nat, row as nat, col as nat),
        decreases width - j,
    {
        grid.place(row, col + j as u128, Content::Header(header[j].name.clone()));
        j += 1;
        assert(grid@ =~= old(grid)@ + header_cells(field_views(*header), j as nat, row as nat, col as nat));
    }
}

/// Places one data row of a nested table.
fn place_row_cells(
    grid: &mut Grid,
    record: &Record,
    header: &Vec<Field>,
    width: usize,
    row: u128,
    col: u128,
    literal_bools: bool,
)
    requires
        width <= header.len(),
        col + width <= u128::MAX,
    ensures
        final(grid)@ == old(grid)@ + row_cells(
            record@,
            field_views(*header),
            width as nat,
            row as nat,
            col as nat,
            literal_bools,
        ),
{
    let mut j: usize = 0;
    assert(grid@ =~= old(grid)@ + row_cells(
        record@,
        field_views(*header),
        0,
        row as nat,
        col as nat,
        literal_bools,
    ));
    while j < width
        invariant
            j <= width <= header.len(),
            col + width <= u128::MAX,
            grid@ == old(grid)@ + row_cells(
                record@,
                field_views(*header),
                j as nat,
                row as nat,
                col as nat,
                literal_bools,
            ),
        decreases width - j,
    {
        match record.get(&header[j].name) {
            Some(v) => {
                grid.place(row, col + j as u128, Content::Value(format_cell(v, literal_bools)));
            },
            None => {},
        }
        j += 1;
        assert(grid@ =~= old(grid)@ + row_cells(
            record@,
            field_views(*header),
            j as nat,
            row as nat,
            col as nat,
            literal_bools,
        ));
    }
}

/// Places the data rows of a nested table, the first of them at `row`.
fn place_table_rows(
    grid: &mut Grid,
    items: &Vec<Value>,
    header: &Vec<Field>,
    width: usize,
    row: u128,
    col: u128,
    literal_bools: bool,
)
    requires
        width <= header.len(),
        row + items.len() <= u128::MAX,
        col + width <= u128::MAX,
    ensures
        final(grid)@ == old(grid)@ + table_rows(
            value_views(*items),
            field_views(*header),
            width as nat,
            items.len() as nat,
            row as nat,
            col as nat,
            literal_bools,
        ),
{
    let mut k: usize = 0;
    assert(grid@ =~= old(grid)@ + table_rows(
        value_views(*items),
        field_views(*header),
        width as nat,
        0,
        row as nat,
        col as nat,
        literal_bools,
    ));
    while k < items.len()
        invariant
            k <= items.len(),
            width <= header.len(),
            row + items.len() <= u128::MAX,
            col + width <= u128::MAX,
            grid@ == old(grid)@ + table_rows(
                value_views(*items),
                field_views(*header),
                width as nat,
                k as nat,
                row as nat,
                col as nat,
                literal_bools,
            ),
        decreases items.len() - k,
    {
        match &items[k] {
            Value::Record(record) => {
                place_row_cells(grid, record, header, width, row + k as u128, col, literal_bools);
            },
            _ => {
                proof {
                    lemma_row_cells_without_fields(
                        field_views(*header),
                        width as nat,
                        (row + k) as nat,
                        col as nat,
                        literal_bools,
                    );
                }
            },
        }
        k += 1;
        assert(grid@ =~= old(grid)@ + table_rows(
            value_views(*items),
            field_views(*header),
            width as nat,
            k as nat,
            row as nat,
            col as nat,
            literal_bools,
        ));
    }
}

/// Places what a field's value puts on the grid from `(row, col)`.
fn place_field_content(
    grid: &mut Grid,
    v: &Value,
    width: usize,
    row: u128,
    col: u128,
    literal_bools: bool,
)
    requires
        row + row_span_of(v@) + 1 <= u128::MAX,
        col + width <= u128::MAX,
    ensures
        final(grid)@ == old(grid)@ + field_content(
            v@,
            width as nat,
            row as nat,
            col as nat,
            literal_bools,
        ),
{
    match v {
        Value::List(items) => {
            match first_record(v) {
                Some(header) => {
                    let confined: usize = if width <= header.len() {
                        width
                    } else {
                        header.len()
                    };
                    place_header_cells(grid, header, confined, row, col);
                    place_table_rows(grid, items, header, confined, row + 1, col, literal_bools);
                    assert(grid@ =~= old(grid)@ + field_content(
                        v@,
                        width as nat,
                        row as nat,
                        col as nat,
                        literal_bools,
                    ));
                    return ;
                },
                None => {},
            }
        },
        _ => {},
    }
    grid.place(row, col, Content::Value(format_cell(v, literal_bools)));
    assert(grid@ =~= old(grid)@ + field_content(
        v@,
        width as nat,
        row as nat,
        col as nat,
        literal_bools,
    ));
}

/// Places a record: its two headers, then its fields, each at its row. The
/// row of the next field is kept as a running sum.
fn place_record(grid: &mut Grid, fields: &Vec<Field>, literal_bools: bool)
    ensures
        final(grid)@ == old(grid)@ + record_layout(field_views(*fields), literal_bools),
{
    proof {
        reveal_strlit("Key");
        reveal_strlit("Value");
    }
    let key = String::from_str("Key");
    let value = String::from_str("Value");
    assert(key@ =~= key_label());
    assert(value@ =~= value_label());
    grid.place(0, 0, Content::Header(key));
    grid.place(0, 1, Content::Header(value));
    let ghost start = grid@;
    let mut row: u128 = 1;
    let mut i: usize = 0;
    assert(grid@ =~= start + record_blocks(field_views(*fields), 0, literal_bools));
    while i < fields.len()
        invariant
            i <= fields.len(),
            row == record_row(field_views(*fields), i as nat),
            row <= 1 + i * 0x1_0000_0000_0000_0000,
            grid@ == start + record_blocks(field_views(*fields), i as nat, literal_bools),
        decreases fields.len() - i,
    {
        let field = &fields[i];
        let extent = nested_extent(&field.value);
        grid.place(row, 0, Content::Value(Cell::Text(field.name.clone())));
        let width: usize = match first_record(&field.value) {
            Some(header) => header.len(),
            None => 0,
        };
        place_field_content(grid, &field.value, width, row, 1, literal_bools);
        assert(grid@ =~= start + record_blocks(field_views(*fields), (i + 1) as nat, literal_bools));
        row = row + extent.row_span as u128 + 1;
        i += 1;
    }
    assert(grid@ =~= old(grid)@ + record_layout(field_views(*fields), literal_bools));
}

/// Places a list that is no table, one cell for each element.
fn place_opaque_list(grid: &mut Grid, items: &Vec<Value>, literal_bools: bool)
    ensures
        final(grid)@ == old(grid)@ + opaque_layout(value_views(*items), literal_bools),
{
    let mut i: usize = 0;
    assert(grid@ =~= old(grid)@ + Seq::new(
        0,
        |i: int| value_at(i as nat, 0, cell_of(value_views(*items)[i], literal_bools)),
    ));
    while i < items.len()
        invariant
            i <= items.len(),
            grid@ == old(grid)@ + Seq::new(
                i as nat,
                |i: int| value_at(i as nat, 0, cell_of(value_views(*items)[i], literal_bools)),
            ),
        decreases items.len() - i,
    {
        grid.place(i as u128, 0, Content::Value(format_cell(&items[i], literal_bools)));
        i += 1;
        assert(grid@ =~= old(grid)@ + Seq::new(
            i as nat,
            |i: int| value_at(i as nat, 0, cell_of(value_views(*items)[i], literal_bools)),
        ));
    }
}

/// An element without fields puts nothing on the grid and takes one row.
proof fn lemma_row_block_without_fields(
    header: Seq<FieldView>,
    n: nat,
    row: nat,
    literal_bools: bool,
)
    ensures
        row_block(Seq::empty(), header, n, row, literal_bools) == Seq::<PlacementView>::empty(),
        height_under(Seq::empty(), header, n) == 0,
    decreases n,
{
    if n > 0 {
        lemma_row_block_without_fields(header, (n - 1) as nat, row, literal_bools);
    }
}

/// Measures the header of a table: the column at which each field starts.
fn column_offsets(header: &Vec<Field>) -> (offsets: Vec<u128>)
    ensures
        offsets.len() == header.len(),
        forall|j: int|
            0 <= j < header.len() ==> #[trigger] offsets[j] == column_offset(field_views(*header), j as nat)
                && offsets[j] <= j * 0x1_0000_0000_0000_0000,
{
    let mut offsets: Vec<u128> = Vec::new();
    let mut next: u128 = 0;
    let mut j: usize = 0;
    while j < header.len()
        invariant
            j <= header.len(),
            offsets.len() == j,
            next == column_offset(field_views(*header), j as nat),
            next <= j * 0x1_0000_0000_0000_0000,
            forall|k: int|
                0 <= k < j ==> #[trigger] offsets[k] == column_offset(field_views(*header), k as nat)
                    && offsets[k] <= k * 0x1_0000_0000_0000_0000,
        decreases header.len() - j,
    {
        offsets.push(next);
        next = next + nested_extent(&header[j].value).col_span as u128;
        j += 1;
    }
    offsets
}

/// Places the header row of a table.
fn place_top_headers(grid: &mut Grid, header: &Vec<Field>, offsets: &Vec<u128>)
    requires
        offsets.len() == header.len(),
        forall|j: int|
            0 <= j < header.len() ==> #[trigger] offsets[j] == column_offset(field_views(*header), j as nat),
    ensures
        final(grid)@ == old(grid)@ + top_headers(field_views(*header)),
{
    let mut j: usize = 0;
    assert(grid@ =~= old(grid)@ + Seq::new(
        0,
        |j: int| header_at(0, column_offset(field_views(*header), j as nat), field_views(*header)[j].name),
    ));
    while j < header.len()
        invariant
            j <= header.len(),
            offsets.len() == header.len(),
            forall|j: int|
                0 <= j < header.len() ==> #[trigger] offsets[j] == column_offset(
                    field_views(*header),
                    j as nat,
                ),
            grid@ == old(grid)@ + Seq::new(
                j as nat,
                |j: int| header_at(0, column_offset(field_views(*header), j as nat), field_views(*header)[j].name),
            ),
        decreases header.len() - j,
    {
        grid.place(0, offsets[j], Content::Header(header[j].name.clone()));
        j += 1;
        assert(grid@ =~= old(grid)@ + Seq::new(
            j as nat,
            |j: int| header_at(0, column_offset(field_views(*header), j as nat), field_views(*header)[j].name),
        ));
    }
}

/// Places one element of a table from its first line `row`, and measures
/// what it shows: the rows of the tallest nested table under a header field.
fn place_row_block(
    grid: &mut Grid,
    record: &Record,
    header: &Vec<Field>,
    offsets: &Vec<u128>,
    row: u128,
    literal_bools: bool,
) -> (height: usize)
    requires
        row <= u128::MAX - 0x1_0000_0000_0000_0000,
        offsets.len() == header.len(),
        forall|j: int|
            0 <= j < header.len() ==> #[trigger] offsets[j] == column_offset(field_views(*header), j as nat)
                && offsets[j] <= j * 0x1_0000_0000_0000_0000,
    ensures
        final(grid)@ == old(grid)@ + row_block(
            record@,
            field_views(*header),
            header.len() as nat,
            row as nat,
            literal_bools,
        ),
        height == height_under(record@, field_views(*header), header.len() as nat),
{
    let mut height: usize = 0;
    let mut j: usize = 0;
    assert(grid@ =~= old(grid)@ + row_block(
        record@,
        field_views(*header),
        0,
        row as nat,
        literal_bools,
    ));
    while j < header.len()
        invariant
            j <= header.len(),
            row <= u128::MAX - 0x1_0000_0000_0000_0000,
            offsets.len() == header.len(),
            forall|j: int|
                0 <= j < header.len() ==> #[trigger] offsets[j] == column_offset(
                    field_views(*header),
                    j as nat,
                ) && offsets[j] <= j * 0x1_0000_0000_0000_0000,
            height == height_under(record@, field_views(*header), j as nat),
            grid@ == old(grid)@ + row_block(
                record@,
                field_views(*header),
                j as nat,
                row as nat,
                literal_bools,
            ),
        decreases header.len() - j,
    {
        match record.get(&header[j].name) {
            Some(v) => {
                let reserved = nested_extent(&header[j].value).col_span;
                let span = nested_extent(v).row_span;
                place_field_content(grid, v, reserved, row, offsets[j], literal_bools);
                if span > height {
                    height = span;
                }
            },
            None => {},
        }
        j += 1;
        assert(grid@ =~= old(grid)@ + row_block(
            record@,
            field_views(*header),
            j as nat,
            row as nat,
            literal_bools,
        ));
    }
    height
}

/// Measures an element of a table: the rows of its own nested table.
fn own_table_span(record: &Record) -> (span: usize)
    ensures
        span == own_span(record@, record@.len()),
{
    let mut span: usize = 0;
    let mut f: usize = 0;
    while f < record.fields.len() && span == 0
        invariant
            f <= record.fields.len(),
            record@.len() == record.fields.len(),
            span == own_span(record@, f as nat),
        decreases record.fields.len() - f,
    {
        span = nested_extent(&record.fields[f].value).row_span;
        f += 1;
    }
    proof {
        lemma_own_span_stays(record@, f as nat, record@.len());
    }
    span
}

/// Once a nested table is found among an element's fields, the fields after
/// it do not change the rows that the element takes for its own.
proof fn lemma_own_span_stays(fields: Seq<FieldView>, f: nat, n: nat)
    requires
        f <= n,
        own_span(fields, f) > 0 || f == n,
    ensures
        own_span(fields, n) == own_span(fields, f),
    decreases n,
{
    if f < n {
        lemma_own_span_stays(fields, f, (n - 1) as nat);
    }
}

/// Places a list of records: its header row, then its elements, each from
/// its first line. The columns are measured once, before anything is placed;
/// the line of the next element is kept as a running sum.
fn place_table(grid: &mut Grid, items: &Vec<Value>, header: &Vec<Field>, literal_bools: bool)
    requires
        items.len() > 0,
        field_views(*header) == value_views(*items)[0].fields(),
    ensures
        final(grid)@ == old(grid)@ + table_layout(value_views(*items), literal_bools),
{
    let offsets = column_offsets(header);
    place_top_headers(grid, header, &offsets);
    let ghost start = grid@;
    let mut row: u128 = 1;
    let mut i: usize = 0;
    assert(grid@ =~= start + table_blocks(value_views(*items), field_views(*header), 0, literal_bools));
    while i < items.len()
        invariant
            i <= items.len(),
            offsets.len() == header.len(),
            forall|j: int|
                0 <= j < header.len() ==> #[trigger] offsets[j] == column_offset(
                    field_views(*header),
                    j as nat,
                ) && offsets[j] <= j * 0x1_0000_0000_0000_0000,
            row == table_row(value_views(*items), field_views(*header), i as nat),
            row <= 1 + i * 0x1_0000_0000_0000_0000,
            grid@ == start + table_blocks(value_views(*items), field_views(*header), i as nat, literal_bools),
        decreases items.len() - i,
    {
        let height: usize = match &items[i] {
            Value::Record(record) => {
                let shown = place_row_block(grid, record, header, &offsets, row, literal_bools);
                let own = own_table_span(record);
                if shown >= own {
                    shown
                } else {
                    own
                }
            },
            _ => {
                proof {
                    lemma_row_block_without_fields(
                        field_views(*header),
                        header.len() as nat,
                        row as nat,
                        literal_bools,
                    );
                }
                0
            },
        };
        assert(grid@ =~= start + table_blocks(value_views(*items), field_views(*header), (i + 1) as nat, literal_bools));
        row = row + height as u128 + 1;
        i += 1;
    }
    assert(grid@ =~= old(grid)@ + table_layout(value_views(*items), literal_bools));
}

/// Lays a value out on a fresh grid.
///
/// With `literal_bools` a boolean shows as the word `true` or `false`,
/// without it as a boolean cell.
pub fn layout_with(value: &Value, literal_bools: bool) -> (grid: Grid)
    ensures
        grid@ == layout_of(value@, literal_bools),
        no_overlap(grid@),
{
    let mut grid = Grid::new();
    match classify(value) {
        Shape::Scalar => {
            grid.place(0, 0, Content::Value(format_cell(value, literal_bools)));
        },
        Shape::Record => {
            if let Value::Record(record) = value {
                place_record(&mut grid, &record.fields, literal_bools);
            }
        },
        Shape::HomogeneousRecordList => {
            if let Value::List(items) = value {
                if let Some(header) = first_record(value) {
                    place_table(&mut grid, items, header, literal_bools);
                }
            }
        },
        Shape::OpaqueList => {
            if let Value::List(items) = value {
                place_opaque_list(&mut grid, items, literal_bools);
            }
        },
    }
    assert(grid@ =~= layout_of(value@, literal_bools));
    proof {
        theorem_layout_free_of_overlap(value@, literal_bools);
    }
    grid
}

/// Lays a value out on a fresh grid, booleans as boolean cells.
pub fn layout(value: &Value) -> (grid: Grid)
    ensures
        grid@ == layout_of(value@, false),
        no_overlap(grid@),
{
    layout_with(value, false)
}

} // verus!
