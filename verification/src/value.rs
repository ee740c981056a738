//! The values that rows are made of.
use vstd::prelude::*;

verus! {

/// A SQLite value: one cell of a row, or the value of a pragma.
#[derive(Debug, PartialEq, Eq)]
pub enum Value {
    Null,
    Integer(i64),
    Text(String),
}

/// What a [`Value`] holds.
pub enum ValueView {
    Null,
    Integer(int),
    Text(Seq<char>),
}

impl View for Value {
    type V = ValueView;

    open spec fn view(&self) -> ValueView {
        match self {
            Value::Null => ValueView::Null,
            Value::Integer(n) => ValueView::Integer(*n as int),
            Value::Text(s) => ValueView::Text(s@),
        }
    }
}

/// What the values of a list hold.
pub open spec fn values_view(values: Seq<Value>) -> Seq<ValueView> {
    values.map_values(|v: Value| v@)
}

/// Lists of values are seen as they are, in order.
pub proof fn law_values_are_seen_as_they_are(values: Seq<Value>, i: int)
    ensures
        values_view(values).len() == values.len(),
        0 <= i < values.len() ==> values_view(values)[i] == values[i]@,
{
}

} // verus!
