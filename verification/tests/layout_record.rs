use std::collections::HashSet;
use to_xlsx::grid::{Cell, Content, Grid, GridPlacement};
use to_xlsx::layout::{layout, layout_with};
use to_xlsx::value::{Field, Record, Value};

fn field(name: &str, value: Value) -> Field {
    Field { name: name.to_string(), value }
}

fn record(fields: Vec<Field>) -> Value {
    Value::Record(Record::new(fields))
}

fn text(s: &str) -> Value {
    Value::Text(s.to_string())
}

fn h(row: u128, col: u128, label: &str) -> GridPlacement {
    GridPlacement { row, col, content: Content::Header(label.to_string()) }
}

fn t(row: u128, col: u128, s: &str) -> GridPlacement {
    GridPlacement { row, col, content: Content::Value(Cell::Text(s.to_string())) }
}

fn n(row: u128, col: u128, value: i64) -> GridPlacement {
    GridPlacement { row, col, content: Content::Value(Cell::Int(value)) }
}

fn positions_are_distinct(grid: &Grid) -> bool {
    let mut seen = HashSet::new();
    grid.placements.iter().all(|p| seen.insert((p.row, p.col)))
}

fn xy(x: i64, y: i64) -> Value {
    record(vec![field("x", Value::Int(x)), field("y", Value::Int(y))])
}

#[test]
fn scalar_is_one_cell_at_the_origin() {
    assert_eq!(layout(&Value::Int(7)).placements, vec![n(0, 0, 7)]);
    assert_eq!(layout(&text("hi")).placements, vec![t(0, 0, "hi")]);
    assert_eq!(layout(&Value::Filesize(1536)).placements, vec![t(0, 0, "1.5 KB")]);
    assert_eq!(
        layout(&Value::Nothing).placements,
        vec![GridPlacement { row: 0, col: 0, content: Content::Value(Cell::Blank) }]
    );
    assert_eq!(
        layout(&Value::Bool(true)).placements,
        vec![GridPlacement { row: 0, col: 0, content: Content::Value(Cell::Boolean(true)) }]
    );
    assert_eq!(layout_with(&Value::Bool(true), true).placements, vec![t(0, 0, "true")]);
}

#[test]
fn empty_record_is_its_two_headers() {
    assert_eq!(layout(&record(vec![])).placements, vec![h(0, 0, "Key"), h(0, 1, "Value")]);
}

#[test]
fn plain_record_is_one_pair_per_row() {
    let v = record(vec![
        field("user", text("bob")),
        field("age", Value::Int(30)),
        field("size", Value::Filesize(1_048_576)),
    ]);
    let grid = layout(&v);
    assert_eq!(
        grid.placements,
        vec![
            h(0, 0, "Key"),
            h(0, 1, "Value"),
            t(1, 0, "user"),
            t(1, 1, "bob"),
            t(2, 0, "age"),
            n(2, 1, 30),
            t(3, 0, "size"),
            t(3, 1, "1.0 MB"),
        ]
    );
    assert_eq!(grid.len(), 2 + 2 * 3);
    assert!(positions_are_distinct(&grid));
}

#[test]
fn record_field_that_is_a_list_of_scalars_shows_its_description() {
    let v = record(vec![
        field("tags", Value::List(vec![text("a"), text("b")])),
        field("inner", record(vec![field("k", Value::Int(1))])),
        field("none", Value::List(vec![])),
    ]);
    assert_eq!(
        layout(&v).placements,
        vec![
            h(0, 0, "Key"),
            h(0, 1, "Value"),
            t(1, 0, "tags"),
            t(1, 1, "[\"a\", \"b\"]"),
            t(2, 0, "inner"),
            t(2, 1, "{k: 1}"),
            t(3, 0, "none"),
            t(3, 1, "[]"),
        ]
    );
}

#[test]
fn nested_table_moves_the_next_field_down() {
    let b = Value::List(vec![xy(1, 2), xy(3, 4), xy(5, 6)]);
    let v = record(vec![field("A", Value::Int(1)), field("B", b), field("C", Value::Int(3))]);
    let grid = layout(&v);
    assert_eq!(
        grid.placements,
        vec![
            h(0, 0, "Key"),
            h(0, 1, "Value"),
            t(1, 0, "A"),
            n(1, 1, 1),
            t(2, 0, "B"),
            h(2, 1, "x"),
            h(2, 2, "y"),
            n(3, 1, 1),
            n(3, 2, 2),
            n(4, 1, 3),
            n(4, 2, 4),
            n(5, 1, 5),
            n(5, 2, 6),
            t(6, 0, "C"),
            n(6, 1, 3),
        ]
    );
    let row_of = |key: &str| {
        grid.placements
            .iter()
            .find(|p| p.col == 0 && p.content == Content::Value(Cell::Text(key.to_string())))
            .map(|p| p.row)
            .unwrap()
    };
    let b_row = row_of("B");
    let c_row = row_of("C");
    assert_eq!(c_row, b_row + 3 + 1);
    let b_cells: Vec<(u128, u128)> = grid
        .placements
        .iter()
        .filter(|p| p.row >= b_row && p.row < c_row)
        .map(|p| (p.row, p.col))
        .collect();
    assert_eq!(b_cells.len(), 1 + 2 + 3 * 2);
    assert!(!b_cells.contains(&(c_row, 0)));
    assert!(!b_cells.contains(&(c_row, 1)));
    assert!(positions_are_distinct(&grid));
}

#[test]
fn two_nested_tables_in_a_record_follow_one_another() {
    let first = Value::List(vec![xy(1, 2)]);
    let second = Value::List(vec![record(vec![field("z", text("q"))]), Value::Int(5)]);
    let v = record(vec![field("one", first), field("two", second), field("end", Value::Nothing)]);
    let grid = layout(&v);
    assert_eq!(
        grid.placements,
        vec![
            h(0, 0, "Key"),
            h(0, 1, "Value"),
            t(1, 0, "one"),
            h(1, 1, "x"),
            h(1, 2, "y"),
            n(2, 1, 1),
            n(2, 2, 2),
            t(3, 0, "two"),
            h(3, 1, "z"),
            t(4, 1, "q"),
            t(6, 0, "end"),
            GridPlacement { row: 6, col: 1, content: Content::Value(Cell::Blank) },
        ]
    );
    assert!(positions_are_distinct(&grid));
}

#[test]
fn nested_table_row_leaves_missing_fields_empty() {
    let rows = Value::List(vec![
        xy(1, 2),
        record(vec![field("y", Value::Int(4)), field("extra", Value::Int(9))]),
        record(vec![]),
    ]);
    let v = record(vec![field("rows", rows)]);
    let grid = layout(&v);
    assert_eq!(
        grid.placements,
        vec![
            h(0, 0, "Key"),
            h(0, 1, "Value"),
            t(1, 0, "rows"),
            h(1, 1, "x"),
            h(1, 2, "y"),
            n(2, 1, 1),
            n(2, 2, 2),
            n(3, 2, 4),
        ]
    );
    assert_eq!(grid.content_at(3, 1), None);
    assert_eq!(grid.content_at(3, 2), Some(&Content::Value(Cell::Int(4))));
    assert_eq!(grid.content_at(4, 1), None);
}

#[test]
fn cells_inside_a_nested_table_are_not_laid_out_further() {
    let inner = Value::List(vec![xy(1, 2)]);
    let rows = Value::List(vec![record(vec![field("deep", inner)])]);
    let v = record(vec![field("rows", rows)]);
    assert_eq!(
        layout(&v).placements,
        vec![
            h(0, 0, "Key"),
            h(0, 1, "Value"),
            t(1, 0, "rows"),
            h(1, 1, "deep"),
            t(2, 1, "[{x: 1, y: 2}]"),
        ]
    );
}

#[test]
fn opaque_list_is_one_column() {
    let v = Value::List(vec![
        Value::Int(1),
        text("two"),
        Value::List(vec![Value::Int(3)]),
        record(vec![field("k", Value::Int(4))]),
        Value::Duration(2_500_000_000),
    ]);
    let grid = layout(&v);
    assert_eq!(
        grid.placements,
        vec![n(0, 0, 1), t(1, 0, "two"), t(2, 0, "[3]"), t(3, 0, "{k: 4}"), t(4, 0, "2.5 s")]
    );
    assert!(positions_are_distinct(&grid));
}

#[test]
fn empty_list_is_an_empty_grid() {
    let grid = layout(&Value::List(vec![]));
    assert_eq!(grid.len(), 0);
    assert_eq!(grid.placements, vec![]);
}

#[test]
fn content_lookup_finds_what_was_placed() {
    let mut grid = Grid::new();
    grid.place(2, 3, Content::Header("a".to_string()));
    grid.place(4, 5, Content::Value(Cell::Int(1)));
    grid.place(2, 3, Content::Header("later".to_string()));
    assert_eq!(grid.len(), 3);
    assert_eq!(grid.content_at(2, 3), Some(&Content::Header("a".to_string())));
    assert_eq!(grid.content_at(4, 5), Some(&Content::Value(Cell::Int(1))));
    assert_eq!(grid.content_at(3, 2), None);
}
