use to_xlsx::grid::Cell;
use to_xlsx::render::{format_cell, push_debug};
use to_xlsx::value::{Field, Record, Value};

fn field(name: &str, value: Value) -> Field {
    Field { name: name.to_string(), value }
}

fn record(fields: Vec<Field>) -> Value {
    Value::Record(Record::new(fields))
}

fn text(s: &str) -> Cell {
    Cell::Text(s.to_string())
}

fn debug(v: &Value) -> String {
    let mut out = String::new();
    push_debug(&mut out, v);
    out
}

#[test]
fn text_shows_as_it_is() {
    assert_eq!(format_cell(&Value::Text("hello".to_string()), false), text("hello"));
    assert_eq!(format_cell(&Value::Text(String::new()), false), text(""));
}

#[test]
fn integer_shows_as_number() {
    assert_eq!(format_cell(&Value::Int(-42), false), Cell::Int(-42));
    assert_eq!(format_cell(&Value::Int(i64::MIN), true), Cell::Int(i64::MIN));
}

#[test]
fn float_shows_as_number_of_the_same_bits() {
    let v = Value::Float { bits: 1.5f64.to_bits(), text: "1.5".to_string() };
    match format_cell(&v, false) {
        Cell::Float(bits) => assert_eq!(f64::from_bits(bits), 1.5),
        other => panic!("not a float cell: {:?}", other),
    }
}

#[test]
fn boolean_shows_as_boolean_cell_or_as_word() {
    assert_eq!(format_cell(&Value::Bool(true), false), Cell::Boolean(true));
    assert_eq!(format_cell(&Value::Bool(false), false), Cell::Boolean(false));
    assert_eq!(format_cell(&Value::Bool(true), true), text("true"));
    assert_eq!(format_cell(&Value::Bool(false), true), text("false"));
}

#[test]
fn absent_value_shows_as_blank_not_as_empty_text() {
    assert_eq!(format_cell(&Value::Nothing, false), Cell::Blank);
    assert_eq!(format_cell(&Value::Nothing, true), Cell::Blank);
    assert_ne!(format_cell(&Value::Nothing, false), text(""));
}

#[test]
fn date_shows_as_its_text() {
    let v = Value::Date("2024-01-02 03:04:05 +00:00".to_string());
    assert_eq!(format_cell(&v, false), text("2024-01-02 03:04:05 +00:00"));
}

#[test]
fn filesize_and_duration_show_by_magnitude() {
    assert_eq!(format_cell(&Value::Filesize(1536), false), text("1.5 KB"));
    assert_eq!(format_cell(&Value::Filesize(1_048_576), false), text("1.0 MB"));
    assert_eq!(format_cell(&Value::Filesize(17), false), text("17 B"));
    assert_eq!(format_cell(&Value::Duration(2_500), false), text("2.5 \u{b5}s"));
    assert_eq!(format_cell(&Value::Duration(500), false), text("500 ns"));
}

#[test]
fn other_value_shows_as_its_description() {
    assert_eq!(format_cell(&Value::Other("<closure 7>".to_string()), false), text("<closure 7>"));
}

#[test]
fn list_shows_as_its_full_description() {
    let v = Value::List(vec![Value::Int(1), Value::Text("a".to_string()), Value::Nothing]);
    assert_eq!(format_cell(&v, false), text("[1, \"a\", null]"));
    assert_eq!(format_cell(&Value::List(vec![]), false), text("[]"));
}

#[test]
fn record_shows_as_its_full_description() {
    let v = record(vec![
        field("name", Value::Text("bob".to_string())),
        field("age", Value::Int(30)),
        field("tags", Value::List(vec![Value::Bool(true), Value::Filesize(2048)])),
    ]);
    assert_eq!(format_cell(&v, false), text("{name: \"bob\", age: 30, tags: [true, 2.0 KB]}"));
    assert_eq!(format_cell(&record(vec![]), true), text("{}"));
}

#[test]
fn description_of_each_scalar() {
    assert_eq!(debug(&Value::Nothing), "null");
    assert_eq!(debug(&Value::Bool(false)), "false");
    assert_eq!(debug(&Value::Int(-7)), "-7");
    assert_eq!(debug(&Value::Float { bits: 0, text: "0.0".to_string() }), "0.0");
    assert_eq!(debug(&Value::Text("x y".to_string())), "\"x y\"");
    assert_eq!(debug(&Value::Date("today".to_string())), "today");
    assert_eq!(debug(&Value::Duration(2_500_000)), "2.5 ms");
    assert_eq!(debug(&Value::Filesize(0)), "0 B");
    assert_eq!(debug(&Value::Other("?".to_string())), "?");
}

#[test]
fn description_is_appended_to_what_is_there() {
    let mut out = "x = ".to_string();
    push_debug(&mut out, &Value::List(vec![Value::List(vec![]), record(vec![])]));
    assert_eq!(out, "x = [[], {}]");
}

#[test]
fn description_of_deep_nesting() {
    let mut v = Value::Int(0);
    for _ in 0..50 {
        v = Value::List(vec![v]);
    }
    let expected = format!("{}0{}", "[".repeat(50), "]".repeat(50));
    assert_eq!(debug(&v), expected);
}

#[test]
fn description_cuts_short_below_the_depth_limit() {
    let mut v = Value::Int(0);
    for _ in 0..100 {
        v = Value::List(vec![v]);
    }
    let expected = format!("{}[...]{}", "[".repeat(64), "]".repeat(64));
    assert_eq!(debug(&v), expected);
    let mut r = Value::Int(0);
    for _ in 0..65 {
        r = record(vec![field("k", r)]);
    }
    let expected = format!("{}{{...}}{}", "{k: ".repeat(64), "}".repeat(64));
    assert_eq!(debug(&r), expected);
}
