use std::collections::HashSet;
use to_xlsx::grid::{Cell, Content, Grid, GridPlacement};
use to_xlsx::layout::{layout, layout_with};
use to_xlsx::value::{Field, Record, Value};

fn field(name: &str, value: Value) -> Field {
    Field { name: name.to_string(), value }
}

fn record(fields: Vec<Field>) -> Value {
    Value::Record(Record::new(fields))
}

fn text(s: &str) -> Value {
    Value::Text(s.to_string())
}

fn h(row: u128, col: u128, label: &str) -> GridPlacement {
    GridPlacement { row, col, content: Content::Header(label.to_string()) }
}

fn t(row: u128, col: u128, s: &str) -> GridPlacement {
    GridPlacement { row, col, content: Content::Value(Cell::Text(s.to_string())) }
}

fn n(row: u128, col: u128, value: i64) -> GridPlacement {
    GridPlacement { row, col, content: Content::Value(Cell::Int(value)) }
}

fn distinct_positions(grid: &Grid) -> bool {
    let mut seen = HashSet::new();
    grid.placements.iter().all(|p| seen.insert((p.row, p.col)))
}

fn ab(a: i64, b: i64) -> Value {
    record(vec![field("a", Value::Int(a)), field("b", Value::Int(b))])
}

fn user(name: &str, age: i64) -> Value {
    record(vec![field("user", text(name)), field("age", Value::Int(age))])
}

#[test]
fn plain_table_is_a_header_row_and_one_row_per_element() {
    let v = Value::List(vec![user("bob", 30), user("john", 40), user("ann", 50)]);
    let grid = layout(&v);
    assert_eq!(
        grid.placements,
        vec![
            h(0, 0, "user"),
            h(0, 1, "age"),
            t(1, 0, "bob"),
            n(1, 1, 30),
            t(2, 0, "john"),
            n(2, 1, 40),
            t(3, 0, "ann"),
            n(3, 1, 50),
        ]
    );
    assert_eq!(grid.len(), 2 + 3 * 2);
    assert!(distinct_positions(&grid));
}

#[test]
fn table_header_row_gives_the_field_names_in_order() {
    let v = Value::List(vec![
        record(vec![
            field("zeta", Value::Int(1)),
            field("alpha", Value::Int(2)),
            field("mid", Value::Int(3)),
        ]),
        record(vec![field("alpha", Value::Int(4))]),
    ]);
    let grid = layout(&v);
    let mut header: Vec<(u128, String)> = grid
        .placements
        .iter()
        .filter(|p| p.row == 0)
        .map(|p| match &p.content {
            Content::Header(label) => (p.col, label.clone()),
            other => panic!("row 0 holds {:?}", other),
        })
        .collect();
    header.sort();
    let names: Vec<String> = header.into_iter().map(|(_, name)| name).collect();
    assert_eq!(names, vec!["zeta", "alpha", "mid"]);
}

#[test]
fn table_row_that_lacks_a_field_leaves_the_position_empty() {
    let v = Value::List(vec![
        user("bob", 30),
        record(vec![field("age", Value::Int(40))]),
        record(vec![field("user", text("ann")), field("city", text("Oslo"))]),
    ]);
    let grid = layout(&v);
    assert_eq!(
        grid.placements,
        vec![h(0, 0, "user"), h(0, 1, "age"), t(1, 0, "bob"), n(1, 1, 30), n(2, 1, 40), t(3, 0, "ann")]
    );
    assert_eq!(grid.content_at(2, 0), None);
    assert_eq!(grid.content_at(3, 1), None);
    assert_eq!(grid.content_at(3, 2), None);
}

#[test]
fn table_field_added_by_a_later_row_is_not_shown() {
    let v = Value::List(vec![
        record(vec![field("a", Value::Int(1))]),
        record(vec![field("a", Value::Int(2)), field("late", Value::Int(3))]),
    ]);
    assert_eq!(layout(&v).placements, vec![h(0, 0, "a"), n(1, 0, 1), n(2, 0, 2)]);
}

#[test]
fn table_element_that_is_no_record_takes_an_empty_row() {
    let v = Value::List(vec![user("bob", 30), Value::Int(5), user("ann", 50)]);
    assert_eq!(
        layout(&v).placements,
        vec![h(0, 0, "user"), h(0, 1, "age"), t(1, 0, "bob"), n(1, 1, 30), t(3, 0, "ann"), n(3, 1, 50)]
    );
}

#[test]
fn table_of_booleans_by_configuration() {
    let v = Value::List(vec![record(vec![field("ok", Value::Bool(false))])]);
    assert_eq!(
        layout(&v).placements,
        vec![
            h(0, 0, "ok"),
            GridPlacement { row: 1, col: 0, content: Content::Value(Cell::Boolean(false)) },
        ]
    );
    assert_eq!(layout_with(&v, true).placements, vec![h(0, 0, "ok"), t(1, 0, "false")]);
}

#[test]
fn columns_are_reserved_from_the_first_record() {
    let row = |x: i64, y: Option<Value>, z: i64| {
        let mut fields = vec![field("X", Value::Int(x))];
        if let Some(y) = y {
            fields.push(field("Y", y));
        }
        fields.push(field("Z", Value::Int(z)));
        record(fields)
    };
    let v = Value::List(vec![
        row(1, Some(Value::List(vec![ab(10, 11), ab(12, 13)])), 2),
        row(3, Some(Value::List(vec![ab(14, 15)])), 4),
        row(5, None, 6),
        row(7, Some(text("plain")), 8),
    ]);
    let grid = layout(&v);
    assert_eq!(
        grid.placements,
        vec![
            h(0, 0, "X"),
            h(0, 1, "Y"),
            h(0, 3, "Z"),
            n(1, 0, 1),
            h(1, 1, "a"),
            h(1, 2, "b"),
            n(2, 1, 10),
            n(2, 2, 11),
            n(3, 1, 12),
            n(3, 2, 13),
            n(1, 3, 2),
            n(4, 0, 3),
            h(4, 1, "a"),
            h(4, 2, "b"),
            n(5, 1, 14),
            n(5, 2, 15),
            n(4, 3, 4),
            n(6, 0, 5),
            n(6, 3, 6),
            n(7, 0, 7),
            t(7, 1, "plain"),
            n(7, 3, 8),
        ]
    );
    for z in [2i64, 4, 6, 8] {
        let p = grid
            .placements
            .iter()
            .find(|p| p.content == Content::Value(Cell::Int(z)))
            .unwrap();
        assert_eq!(p.col, 1 + 2);
    }
    assert!(distinct_positions(&grid));
}

#[test]
fn nested_table_wider_than_its_reservation_is_confined() {
    let wide = record(vec![
        field("p", Value::Int(1)),
        field("q", Value::Int(2)),
        field("r", Value::Int(3)),
    ]);
    let v = Value::List(vec![
        record(vec![field("X", Value::List(vec![ab(1, 2)])), field("Z", Value::Int(9))]),
        record(vec![field("X", Value::List(vec![wide])), field("Z", Value::Int(8))]),
        record(vec![field("X", Value::Int(0)), field("Z", Value::List(vec![ab(5, 6)]))]),
    ]);
    let grid = layout(&v);
    assert_eq!(
        grid.placements,
        vec![
            h(0, 0, "X"),
            h(0, 2, "Z"),
            h(1, 0, "a"),
            h(1, 1, "b"),
            n(2, 0, 1),
            n(2, 1, 2),
            n(1, 2, 9),
            h(3, 0, "p"),
            h(3, 1, "q"),
            n(4, 0, 1),
            n(4, 1, 2),
            n(3, 2, 8),
            n(5, 0, 0),
            h(5, 2, "a"),
            n(6, 2, 5),
        ]
    );
    assert!(distinct_positions(&grid));
}

#[test]
fn rows_are_reserved_for_the_tallest_nested_table_of_an_element() {
    let short = Value::List(vec![ab(1, 2)]);
    let tall = Value::List(vec![
        record(vec![field("c", Value::Int(3))]),
        record(vec![field("c", Value::Int(4))]),
        record(vec![field("c", Value::Int(5))]),
    ]);
    let v = Value::List(vec![
        record(vec![field("S", short), field("T", tall)]),
        record(vec![field("S", Value::Int(7)), field("T", Value::Int(8))]),
    ]);
    let grid = layout(&v);
    assert_eq!(
        grid.placements,
        vec![
            h(0, 0, "S"),
            h(0, 2, "T"),
            h(1, 0, "a"),
            h(1, 1, "b"),
            n(2, 0, 1),
            n(2, 1, 2),
            h(1, 2, "c"),
            n(2, 2, 3),
            n(3, 2, 4),
            n(4, 2, 5),
            n(5, 0, 7),
            n(5, 2, 8),
        ]
    );
    assert!(distinct_positions(&grid));
}

#[test]
fn table_of_empty_records_is_empty() {
    let v = Value::List(vec![record(vec![]), record(vec![field("a", Value::Int(1))])]);
    assert_eq!(layout(&v).placements, vec![]);
}

#[test]
fn irregular_values_never_overlap() {
    let mut state: u64 = 0x2545_F491_4F6C_DD1D;
    let mut next = move |bound: u64| {
        state ^= state << 13;
        state ^= state >> 7;
        state ^= state << 17;
        state % bound
    };
    let names = ["a", "b", "c", "d"];
    for _ in 0..300 {
        let mut make_leaf = |next: &mut dyn FnMut(u64) -> u64| match next(4) {
            0 => Value::Int(1),
            1 => Value::Nothing,
            2 => Value::List(vec![Value::Int(2)]),
            _ => {
                let rows = next(4) as usize;
                let width = next(4) as usize;
                let mut items = Vec::new();
                for r in 0..rows {
                    let mut fields = Vec::new();
                    for c in 0..width + (r % 2) {
                        fields.push(field(names[c % 4], Value::Int(c as i64)));
                    }
                    items.push(record(fields));
                }
                Value::List(items)
            }
        };
        let mut rows = Vec::new();
        for _ in 0..1 + next(4) {
            let mut fields = Vec::new();
            for c in 0..next(5) as usize {
                fields.push(field(names[c % 4], make_leaf(&mut next)));
            }
            rows.push(record(fields));
        }
        let table = layout(&Value::List(rows));
        assert!(distinct_positions(&table));
        let mut fields = Vec::new();
        for c in 0..next(6) as usize {
            fields.push(field(names[c % 4], make_leaf(&mut next)));
        }
        let keyed = layout(&record(fields));
        assert!(distinct_positions(&keyed));
    }
}

#[test]
fn nested_table_that_the_header_does_not_name_moves_the_next_element_down() {
    let hidden = Value::List(vec![ab(1, 2), ab(3, 4)]);
    let v = Value::List(vec![
        record(vec![field("a", Value::Int(1))]),
        record(vec![field("a", Value::Int(2)), field("b", hidden)]),
        record(vec![field("a", Value::Int(3))]),
    ]);
    let grid = layout(&v);
    assert_eq!(grid.placements, vec![h(0, 0, "a"), n(1, 0, 1), n(2, 0, 2), n(5, 0, 3)]);
    assert!(distinct_positions(&grid));
}

#[test]
fn rows_follow_one_another_by_the_size_of_each_nested_table() {
    let table = |size: usize| Value::List((0..size).map(|k| ab(k as i64, 0)).collect());
    let sizes = [2usize, 0, 3, 0, 1];
    let mut rows = Vec::new();
    for (i, size) in sizes.iter().enumerate() {
        let mut fields = vec![field("id", Value::Int(100 + i as i64))];
        if *size > 0 {
            fields.push(field("t", table(*size)));
        }
        rows.push(record(fields));
    }
    let with_header = {
        let mut rows = rows;
        rows.insert(0, record(vec![field("id", Value::Int(99)), field("t", table(1))]));
        layout(&Value::List(rows))
    };
    let row_of = |id: i64| {
        with_header
            .placements
            .iter()
            .find(|p| p.col == 0 && p.content == Content::Value(Cell::Int(id)))
            .map(|p| p.row)
            .unwrap()
    };
    let mut expected: u128 = 1;
    assert_eq!(row_of(99), expected);
    expected += 1 + 1;
    for (i, size) in sizes.iter().enumerate() {
        assert_eq!(row_of(100 + i as i64), expected);
        expected += *size as u128 + 1;
    }
    assert!(distinct_positions(&with_header));
}

#[test]
fn own_nested_table_counts_even_if_a_shorter_one_is_shown() {
    let v = Value::List(vec![
        record(vec![field("s", Value::List(vec![ab(1, 2)]))]),
        record(vec![
            field("big", Value::List(vec![ab(1, 1), ab(2, 2), ab(3, 3)])),
            field("s", Value::List(vec![ab(5, 6)])),
        ]),
        record(vec![field("s", Value::Int(7))]),
    ]);
    let grid = layout(&v);
    assert_eq!(
        grid.placements,
        vec![
            h(0, 0, "s"),
            h(1, 0, "a"),
            h(1, 1, "b"),
            n(2, 0, 1),
            n(2, 1, 2),
            h(3, 0, "a"),
            h(3, 1, "b"),
            n(4, 0, 5),
            n(4, 1, 6),
            n(7, 0, 7),
        ]
    );
}
