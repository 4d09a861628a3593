//! Decoded values: what a token tree becomes once every field has been read
//! by its hint.

use vstd::prelude::*;
use crate::date::Date;
use crate::error::{errors_view, FieldError, FieldErrorView};
use crate::number::Decimal;

verus! {

/// A decoded value.
#[derive(Debug, PartialEq, Eq)]
pub enum Value {
    Number(Decimal),
    Text(String),
    Bool(bool),
    Date(Date),
    /// An optional field without a matching key.
    Absent,
    /// An optional field with its value.
    Present(Box<Value>),
    /// The items of an array, or the occurrences of a repeated key, in the
    /// order written.
    List(Vec<Value>),
    /// A record: one value for each field of its descriptor, in the
    /// descriptor's order.
    Record(Vec<Value>),
    /// A collection keyed by number, in the order written.
    Keyed(Vec<KeyedValue>),
}

/// One member of a keyed collection: the number it is written under and
/// either its value or the failures of its fields.
#[derive(Debug, PartialEq, Eq)]
pub struct KeyedValue {
    pub key: u64,
    pub outcome: Result<Value, Vec<FieldError>>,
}

/// The mathematical value of a [`Value`].
pub enum ValueView {
    Number(Decimal),
    Text(Seq<char>),
    Bool(bool),
    Date(Date),
    Absent,
    Present(Box<ValueView>),
    List(Seq<ValueView>),
    Record(Seq<ValueView>),
    Keyed(Seq<KeyedValueView>),
}

/// The mathematical value of a [`KeyedValue`].
pub struct KeyedValueView {
    pub key: u64,
    pub outcome: Result<ValueView, Seq<FieldErrorView>>,
}

/// The mathematical value of a decoded value.
pub open spec fn value_view(value: Value) -> ValueView
    decreases value,
{
    match value {
        Value::Number(number) => ValueView::Number(number),
        Value::Text(text) => ValueView::Text(text@),
        Value::Bool(flag) => ValueView::Bool(flag),
        Value::Date(date) => ValueView::Date(date),
        Value::Absent => ValueView::Absent,
        Value::Present(inner) => ValueView::Present(Box::new(value_view(*inner))),
        Value::List(items) => ValueView::List(
            Seq::new(
                items@.len(),
                |i: int|
                    if 0 <= i < items@.len() {
                        value_view(items@[i])
                    } else {
                        arbitrary()
                    },
            ),
        ),
        Value::Record(fields) => ValueView::Record(
            Seq::new(
                fields@.len(),
                |i: int|
                    if 0 <= i < fields@.len() {
                        value_view(fields@[i])
                    } else {
                        arbitrary()
                    },
            ),
        ),
        Value::Keyed(members) => ValueView::Keyed(
            Seq::new(
                members@.len(),
                |i: int|
                    if 0 <= i < members@.len() {
                        keyed_view(members@[i])
                    } else {
                        arbitrary()
                    },
            ),
        ),
    }
}

/// The mathematical value of a member of a keyed collection.
pub open spec fn keyed_view(member: KeyedValue) -> KeyedValueView
    decreases member,
{
    KeyedValueView {
        key: member.key,
        outcome: match member.outcome {
            Ok(value) => Ok(value_view(value)),
            Err(errors) => Err(errors_view(errors@)),
        },
    }
}

impl View for Value {
    type V = ValueView;

    open spec fn view(&self) -> ValueView {
        value_view(*self)
    }
}

impl View for KeyedValue {
    type V = KeyedValueView;

    open spec fn view(&self) -> KeyedValueView {
        keyed_view(*self)
    }
}

/// The mathematical values of a run of values.
pub open spec fn values_view(values: Seq<Value>) -> Seq<ValueView> {
    Seq::new(values.len(), |i: int| values[i]@)
}

/// The mathematical values of the members of a keyed collection.
pub open spec fn members_view(members: Seq<KeyedValue>) -> Seq<KeyedValueView> {
    Seq::new(members.len(), |i: int| members[i]@)
}

/// A list's view is the views of its items.
pub proof fn lemma_list_view(items: Vec<Value>)
    ensures
        Value::List(items)@ == ValueView::List(values_view(items@)),
        Value::Record(items)@ == ValueView::Record(values_view(items@)),
{
    assert(Value::List(items)@->List_0 =~= values_view(items@));
    assert(Value::Record(items)@->Record_0 =~= values_view(items@));
}

/// A keyed collection's view is the views of its members.
pub proof fn lemma_keyed_view(members: Vec<KeyedValue>)
    ensures
        Value::Keyed(members)@ == ValueView::Keyed(members_view(members@)),
{
    assert(Value::Keyed(members)@->Keyed_0 =~= members_view(members@));
}

} // verus!
