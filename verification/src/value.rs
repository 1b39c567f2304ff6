//! The input datum: scalars, records and lists, nested to any depth.

use vstd::prelude::*;

verus! {

/// A dynamically typed value.
///
/// A floating-point number is carried as its IEEE 754 binary64 bit pattern
/// together with its display text; a date as its display text; a value of any
/// other kind as the text that describes it.
#[derive(Debug, PartialEq, Eq)]
pub enum Value {
    Nothing,
    Bool(bool),
    Int(i64),
    Float { bits: u64, text: String },
    Text(String),
    Date(String),
    /// A duration in nanoseconds.
    Duration(i64),
    /// A size in bytes.
    Filesize(i64),
    Other(String),
    Record(Record),
    List(Vec<Value>),
}

/// One named field of a record.
#[derive(Debug, PartialEq, Eq)]
pub struct Field {
    pub name: String,
    pub value: Value,
}

/// An ordered mapping from field names to values.
#[derive(Debug, PartialEq, Eq)]
pub struct Record {
    pub fields: Vec<Field>,
}

/// The mathematical value of a `Value`.
pub enum ValueView {
    Nothing,
    Bool(bool),
    Int(int),
    Float { bits: u64, text: Seq<char> },
    Text(Seq<char>),
    Date(Seq<char>),
    Duration(int),
    Filesize(int),
    Other(Seq<char>),
    Record(Seq<FieldView>),
    List(Seq<ValueView>),
}

/// The mathematical value of a `Field`.
pub struct FieldView {
    pub name: Seq<char>,
    pub value: ValueView,
}

/// The mathematical value of a value.
pub open spec fn value_view(v: Value) -> ValueView
    decreases v,
{
    match v {
        Value::Nothing => ValueView::Nothing,
        Value::Bool(b) => ValueView::Bool(b),
        Value::Int(n) => ValueView::Int(n as int),
        Value::Float { bits, text } => ValueView::Float { bits, text: text@ },
        Value::Text(s) => ValueView::Text(s@),
        Value::Date(s) => ValueView::Date(s@),
        Value::Duration(n) => ValueView::Duration(n as int),
        Value::Filesize(n) => ValueView::Filesize(n as int),
        Value::Other(s) => ValueView::Other(s@),
        Value::Record(r) => ValueView::Record(field_views(r.fields)),
        Value::List(items) => ValueView::List(value_views(items)),
    }
}

/// The mathematical values of the fields of a record, in their order.
pub open spec fn field_views(fields: Vec<Field>) -> Seq<FieldView>
    decreases fields,
{
    Seq::new(
        fields.len() as nat,
        |i: int|
            if 0 <= i < fields.len() {
                FieldView { name: fields[i].name@, value: value_view(fields[i].value) }
            } else {
                FieldView { name: Seq::empty(), value: ValueView::Nothing }
            },
    )
}

/// The mathematical values of the elements of a list, in their order.
pub open spec fn value_views(items: Vec<Value>) -> Seq<ValueView>
    decreases items,
{
    Seq::new(
        items.len() as nat,
        |i: int|
            if 0 <= i < items.len() {
                value_view(items[i])
            } else {
                ValueView::Nothing
            },
    )
}

impl View for Value {
    type V = ValueView;

    open spec fn view(&self) -> ValueView {
        value_view(*self)
    }
}

impl View for Field {
    type V = FieldView;

    open spec fn view(&self) -> FieldView {
        FieldView { name: self.name@, value: self.value@ }
    }
}

impl View for Record {
    type V = Seq<FieldView>;

    open spec fn view(&self) -> Seq<FieldView> {
        field_views(self.fields)
    }
}

/// The index of the first of the leading `n` fields that is named `name`.
pub open spec fn find_field(fields: Seq<FieldView>, name: Seq<char>, n: nat) -> Option<int>
    decreases n,
{
    if n == 0 || n > fields.len() {
        None
    } else {
        match find_field(fields, name, (n - 1) as nat) {
            Some(i) => Some(i),
            None => if fields[n - 1].name == name {
                Some(n - 1)
            } else {
                None
            },
        }
    }
}

/// What `find_field` finds is the first field of that name.
pub proof fn lemma_find_field(fields: Seq<FieldView>, name: Seq<char>, n: nat)
    requires
        n <= fields.len(),
    ensures
        match find_field(fields, name, n) {
            Some(i) => 0 <= i < n && fields[i].name == name && forall|j: int|
                0 <= j < i ==> fields[j].name != name,
            None => forall|j: int| 0 <= j < n ==> fields[j].name != name,
        },
    decreases n,
{
    if n > 0 {
        lemma_find_field(fields, name, (n - 1) as nat);
    }
}

/// The first field of a name is the one that `find_field` finds.
pub proof fn lemma_find_field_first(fields: Seq<FieldView>, name: Seq<char>, n: nat, i: int)
    requires
        0 <= i < n <= fields.len(),
        fields[i].name == name,
        forall|j: int| 0 <= j < i ==> fields[j].name != name,
    ensures
        find_field(fields, name, n) == Some(i),
    decreases n,
{
    lemma_find_field(fields, name, (n - 1) as nat);
    if i < n - 1 {
        lemma_find_field_first(fields, name, (n - 1) as nat, i);
    }
}

/// The value of the first field named `name`, if there is one.
pub open spec fn lookup(fields: Seq<FieldView>, name: Seq<char>) -> Option<ValueView> {
    match find_field(fields, name, fields.len()) {
        Some(i) => Some(fields[i].value),
        None => None,
    }
}

/// No two fields share a name.
pub open spec fn names_unique(fields: Seq<FieldView>) -> bool {
    forall|i: int, j: int| 0 <= i < j < fields.len() ==> fields[i].name != fields[j].name
}

/// Where no two fields share a name, every field is found under its own
/// name.
pub proof fn lemma_lookup_own_field(fields: Seq<FieldView>, i: int)
    requires
        0 <= i < fields.len(),
        names_unique(fields),
    ensures
        lookup(fields, fields[i].name) == Some(fields[i].value),
{
    lemma_find_field_first(fields, fields[i].name, fields.len(), i);
}

impl Record {
    /// A record of the given fields, in their order.
    pub fn new(fields: Vec<Field>) -> (r: Record)
        ensures
            r.fields == fields,
            r@ == field_views(fields),
    {
        Record { fields }
    }

    /// The number of fields.
    pub fn len(&self) -> (n: usize)
        ensures
            n == self@.len(),
    {
        self.fields.len()
    }

    /// Looks a field up by name.
    pub fn get(&self, name: &String) -> (found: Option<&Value>)
        ensures
            match found {
                Some(v) => lookup(self@, name@) == Some(v@),
                None => lookup(self@, name@) is None,
            },
    {
        let mut i: usize = 0;
        while i < self.fields.len()
            invariant
                i <= self.fields.len(),
                find_field(self@, name@, i as nat) is None,
            decreases self.fields.len() - i,
        {
            if self.fields[i].name == *name {
                proof {
                    lemma_find_field(self@, name@, i as nat);
                    lemma_find_field_first(self@, name@, self@.len(), i as int);
                }
                return Some(&self.fields[i].value);
            }
            i += 1;
        }
        None
    }
}

impl ValueView {
    /// Whether the value is a list whose first element is a record: a table.
    pub open spec fn is_table(&self) -> bool {
        self matches ValueView::List(items) && items.len() > 0 && items[0] is Record
    }

    /// The elements of a list; of anything else, none.
    pub open spec fn items(&self) -> Seq<ValueView> {
        match self {
            ValueView::List(items) => *items,
            _ => Seq::empty(),
        }
    }

    /// The fields of a record; of anything else, none.
    pub open spec fn fields(&self) -> Seq<FieldView> {
        match self {
            ValueView::Record(fields) => *fields,
            _ => Seq::empty(),
        }
    }
}

} // verus!
