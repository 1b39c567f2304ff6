//! The classifier: the shape of a value, and what a table measures.

use crate::value::{field_views, value_view, Field, FieldView, Value, ValueView};
use vstd::prelude::*;

verus! {

/// The structural classification of a value.
#[derive(Clone, Copy, Debug, PartialEq, Eq, Structural)]
pub enum Shape {
    /// Anything that is neither a record nor a list.
    Scalar,
    /// A record: laid out as a table of keys and values.
    Record,
    /// A list whose first element is a record: laid out as a table with that
    /// record's fields as the header.
    HomogeneousRecordList,
    /// Any other list, the empty one included.
    OpaqueList,
}

/// The shape of a value. A list is looked at first: it is a table if it begins
/// with a record, and opaque otherwise.
pub open spec fn shape_of(v: ValueView) -> Shape {
    match v {
        ValueView::List(items) => if items.len() > 0 && items[0] is Record {
            Shape::HomogeneousRecordList
        } else {
            Shape::OpaqueList
        },
        ValueView::Record(_) => Shape::Record,
        _ => Shape::Scalar,
    }
}

/// The header of a table: the fields of its first element. Of a value that is
/// no table, the empty header.
pub open spec fn table_header(v: ValueView) -> Seq<FieldView> {
    if v.is_table() {
        v.items()[0].fields()
    } else {
        Seq::empty()
    }
}

/// The rows that a nested table takes below its header row: the number of its
/// elements. A value that is no table takes none.
pub open spec fn row_span_of(v: ValueView) -> nat {
    if v.is_table() {
        v.items().len()
    } else {
        0
    }
}

/// The columns that a value takes as a field of a table row: the number of
/// header fields if it is itself a table with a header, else one.
pub open spec fn col_span_of(v: ValueView) -> nat {
    if table_header(v).len() > 0 {
        table_header(v).len()
    } else {
        1
    }
}

/// The footprint of a value that stands as a field of a record or of a table
/// row.
#[derive(Clone, Copy, Debug, PartialEq, Eq, Structural)]
pub struct NestedExtent {
    pub row_span: usize,
    pub col_span: usize,
}

/// Classifies a value.
pub fn classify(v: &Value) -> (shape: Shape)
    ensures
        shape == shape_of(v@),
{
    proof {
        reveal_with_fuel(value_view, 2);
    }
    match v {
        Value::List(items) => {
            if items.len() > 0 {
                match &items[0] {
                    Value::Record(_) => Shape::HomogeneousRecordList,
                    _ => Shape::OpaqueList,
                }
            } else {
                Shape::OpaqueList
            }
        },
        Value::Record(_) => Shape::Record,
        _ => Shape::Scalar,
    }
}

/// The first element of a table, which gives it its header.
pub fn first_record(v: &Value) -> (first: Option<&Vec<Field>>)
    ensures
        match first {
            Some(fields) => v@.is_table() && field_views(*fields) == table_header(v@),
            None => !v@.is_table(),
        },
{
    proof {
        reveal_with_fuel(value_view, 2);
    }
    match v {
        Value::List(items) => {
            if items.len() > 0 {
                match &items[0] {
                    Value::Record(r) => Some(&r.fields),
                    _ => None,
                }
            } else {
                None
            }
        },
        _ => None,
    }
}

/// Measures a value that stands as a field.
pub fn nested_extent(v: &Value) -> (extent: NestedExtent)
    ensures
        extent.row_span == row_span_of(v@),
        extent.col_span == col_span_of(v@),
        extent.col_span >= 1,
{
    match v {
        Value::List(items) => {
            match first_record(v) {
                Some(fields) => NestedExtent {
                    row_span: items.len(),
                    col_span: if fields.len() > 0 {
                        fields.len()
                    } else {
                        1
                    },
                },
                None => NestedExtent { row_span: 0, col_span: 1 },
            }
        },
        _ => NestedExtent { row_span: 0, col_span: 1 },
    }
}

} // verus!
