use to_xlsx::shape::{classify, first_record, nested_extent, NestedExtent, Shape};
use to_xlsx::value::{Field, Record, Value};

fn field(name: &str, value: Value) -> Field {
    Field { name: name.to_string(), value }
}

fn record(fields: Vec<Field>) -> Value {
    Value::Record(Record::new(fields))
}

#[test]
fn scalars_classify_as_scalar() {
    let scalars = vec![
        Value::Nothing,
        Value::Bool(true),
        Value::Int(-3),
        Value::Float { bits: 0x3ff8_0000_0000_0000, text: "1.5".to_string() },
        Value::Text("abc".to_string()),
        Value::Date("2024-01-02 03:04:05 +00:00".to_string()),
        Value::Duration(5),
        Value::Filesize(5),
        Value::Other("<closure>".to_string()),
    ];
    for v in &scalars {
        assert_eq!(classify(v), Shape::Scalar);
    }
}

#[test]
fn record_classifies_as_record() {
    assert_eq!(classify(&record(vec![])), Shape::Record);
    assert_eq!(classify(&record(vec![field("a", Value::Int(1))])), Shape::Record);
}

#[test]
fn list_beginning_with_record_is_a_table() {
    let v = Value::List(vec![record(vec![field("a", Value::Int(1))]), Value::Int(2)]);
    assert_eq!(classify(&v), Shape::HomogeneousRecordList);
}

#[test]
fn empty_list_is_opaque() {
    assert_eq!(classify(&Value::List(vec![])), Shape::OpaqueList);
}

#[test]
fn list_beginning_with_scalar_is_opaque() {
    let v = Value::List(vec![Value::Int(2), record(vec![field("a", Value::Int(1))])]);
    assert_eq!(classify(&v), Shape::OpaqueList);
}

#[test]
fn list_beginning_with_list_is_opaque() {
    let v = Value::List(vec![Value::List(vec![record(vec![])])]);
    assert_eq!(classify(&v), Shape::OpaqueList);
}

#[test]
fn nested_field_is_classified_on_its_own() {
    let inner = Value::List(vec![record(vec![field("x", Value::Int(1))])]);
    let outer = record(vec![field("inner", inner)]);
    assert_eq!(classify(&outer), Shape::Record);
    match &outer {
        Value::Record(r) => {
            assert_eq!(classify(&r.fields[0].value), Shape::HomogeneousRecordList)
        }
        _ => unreachable!(),
    }
}

#[test]
fn extent_of_a_nested_table() {
    let table = Value::List(vec![
        record(vec![field("x", Value::Int(1)), field("y", Value::Int(2))]),
        record(vec![field("x", Value::Int(3))]),
        Value::Int(9),
    ]);
    assert_eq!(nested_extent(&table), NestedExtent { row_span: 3, col_span: 2 });
}

#[test]
fn extent_of_anything_else_is_one_column_and_no_rows() {
    assert_eq!(nested_extent(&Value::Int(1)), NestedExtent { row_span: 0, col_span: 1 });
    assert_eq!(nested_extent(&Value::List(vec![])), NestedExtent { row_span: 0, col_span: 1 });
    assert_eq!(
        nested_extent(&Value::List(vec![Value::Int(1), Value::Int(2)])),
        NestedExtent { row_span: 0, col_span: 1 }
    );
    assert_eq!(nested_extent(&record(vec![])), NestedExtent { row_span: 0, col_span: 1 });
}

#[test]
fn extent_of_a_table_without_header_fields_is_one_column_wide() {
    let table = Value::List(vec![record(vec![]), record(vec![])]);
    assert_eq!(nested_extent(&table), NestedExtent { row_span: 2, col_span: 1 });
}

#[test]
fn first_record_gives_the_header() {
    let table = Value::List(vec![
        record(vec![field("x", Value::Int(1)), field("y", Value::Int(2))]),
        record(vec![field("z", Value::Int(3))]),
    ]);
    let header = first_record(&table).expect("a table has a header");
    let names: Vec<&str> = header.iter().map(|f| f.name.as_str()).collect();
    assert_eq!(names, vec!["x", "y"]);
    assert!(first_record(&Value::Int(1)).is_none());
    assert!(first_record(&Value::List(vec![])).is_none());
}

#[test]
fn record_lookup_finds_the_first_field_of_a_name() {
    let r = Record::new(vec![
        field("a", Value::Int(1)),
        field("b", Value::Int(2)),
        field("a", Value::Int(3)),
    ]);
    assert_eq!(r.len(), 3);
    assert_eq!(r.get(&"a".to_string()), Some(&Value::Int(1)));
    assert_eq!(r.get(&"b".to_string()), Some(&Value::Int(2)));
    assert_eq!(r.get(&"c".to_string()), None);
}
