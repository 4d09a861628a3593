//! Typed records: how a bound record is read into a struct with one typed
//! field for each field of its descriptor.

use vstd::prelude::*;
use crate::date::Date;
use crate::error::names_view;
use crate::number::{Decimal, Transform};
use crate::schema::{RecordDescriptor, RecordDescriptorView};
use crate::value::{lemma_list_view, values_view, Value, ValueView};

verus! {

/// The scale conventions of the fields that are reencoded.
#[derive(Clone, Copy, Debug, PartialEq, Eq, Structural)]
pub struct Reencodings {
    /// The convention for a character's gold.
    pub gold: Transform,
}

/// A struct that a bound record can be read into.
pub trait Record: View + Sized {
    /// The descriptor of the record type.
    spec fn schema(reencodings: Reencodings) -> RecordDescriptorView;

    /// The struct read from a value: each field holds what the record has
    /// in its place, and is absent or empty where the record has nothing
    /// that fits.
    spec fn of(value: ValueView) -> Self::V;

    /// Builds the descriptor of the record type.
    fn descriptor(reencodings: &Reencodings) -> (descriptor: RecordDescriptor)
        ensures
            descriptor@ == Self::schema(*reencodings),
    ;

    /// Reads the struct from a value.
    fn from_value(value: &Value) -> (record: Self)
        ensures
            record@ == Self::of(value@),
    ;
}

/// The mathematical value of an optional value.
pub open spec fn option_view<T: View>(o: Option<T>) -> Option<T::V> {
    match o {
        Some(value) => Some(value@),
        None => None,
    }
}

/// The mathematical values of a run of values.
pub open spec fn seq_view<T: View>(s: Seq<T>) -> Seq<T::V> {
    Seq::new(s.len(), |i: int| s[i]@)
}

/// The mathematical value of an optional list of numbers.
pub open spec fn numbers_view(o: Option<Vec<Decimal>>) -> Option<Seq<Decimal>> {
    match o {
        Some(numbers) => Some(numbers@),
        None => None,
    }
}

/// The mathematical value of an optional list of texts.
pub open spec fn texts_view(o: Option<Vec<String>>) -> Option<Seq<Seq<char>>> {
    match o {
        Some(texts) => Some(names_view(texts@)),
        None => None,
    }
}

/// The mathematical value of an optional list of records.
pub open spec fn list_view<T: View>(o: Option<Vec<T>>) -> Option<Seq<T::V>> {
    match o {
        Some(items) => Some(seq_view(items@)),
        None => None,
    }
}

/// What a record holds for the field at `index`: nothing where the value is
/// no record, has no such field or has it absent; otherwise the field's
/// value, taken out of its wrapper where the field is optional.
pub open spec fn slot_of(value: ValueView, index: int) -> Option<ValueView> {
    match value {
        ValueView::Record(fields) => if 0 <= index < fields.len() {
            match fields[index] {
                ValueView::Absent => None,
                ValueView::Present(inner) => Some(*inner),
                other => Some(other),
            }
        } else {
            None
        },
        _ => None,
    }
}

/// The number in a slot.
pub open spec fn number_in(slot: Option<ValueView>) -> Option<Decimal> {
    match slot {
        Some(ValueView::Number(number)) => Some(number),
        _ => None,
    }
}

/// The text in a slot.
pub open spec fn text_in(slot: Option<ValueView>) -> Option<Seq<char>> {
    match slot {
        Some(ValueView::Text(text)) => Some(text),
        _ => None,
    }
}

/// The truth value in a slot.
pub open spec fn bool_in(slot: Option<ValueView>) -> Option<bool> {
    match slot {
        Some(ValueView::Bool(flag)) => Some(flag),
        _ => None,
    }
}

/// The date in a slot.
pub open spec fn date_in(slot: Option<ValueView>) -> Option<Date> {
    match slot {
        Some(ValueView::Date(date)) => Some(date),
        _ => None,
    }
}

/// The items of the list in a slot.
pub open spec fn items_in(slot: Option<ValueView>) -> Option<Seq<ValueView>> {
    match slot {
        Some(ValueView::List(items)) => Some(items),
        _ => None,
    }
}

/// The numbers that a run of values holds, if all of them are numbers.
pub open spec fn numbers_of(items: Seq<ValueView>) -> Option<Seq<Decimal>> {
    if forall|i: int| 0 <= i < items.len() ==> (#[trigger] items[i]) is Number {
        Some(Seq::new(items.len(), |i: int| items[i]->Number_0))
    } else {
        None
    }
}

/// The texts that a run of values holds, if all of them are texts.
pub open spec fn texts_of(items: Seq<ValueView>) -> Option<Seq<Seq<char>>> {
    if forall|i: int| 0 <= i < items.len() ==> (#[trigger] items[i]) is Text {
        Some(Seq::new(items.len(), |i: int| items[i]->Text_0))
    } else {
        None
    }
}

/// The list of numbers in a slot.
pub open spec fn numbers_in(slot: Option<ValueView>) -> Option<Seq<Decimal>> {
    match items_in(slot) {
        Some(items) => numbers_of(items),
        None => None,
    }
}

/// The list of texts in a slot.
pub open spec fn texts_in(slot: Option<ValueView>) -> Option<Seq<Seq<char>>> {
    match items_in(slot) {
        Some(items) => texts_of(items),
        None => None,
    }
}

/// The numbers of a repeated field: those in the slot, or none.
pub open spec fn every_number_in(slot: Option<ValueView>) -> Seq<Decimal> {
    match numbers_in(slot) {
        Some(numbers) => numbers,
        None => Seq::empty(),
    }
}

/// The record in a slot.
pub open spec fn record_in<R: Record>(slot: Option<ValueView>) -> Option<R::V> {
    match slot {
        Some(ValueView::Record(fields)) => Some(R::of(ValueView::Record(fields))),
        _ => None,
    }
}

/// The records read from a run of values.
pub open spec fn records_of<R: Record>(items: Seq<ValueView>) -> Seq<R::V> {
    Seq::new(items.len(), |i: int| R::of(items[i]))
}

/// The list of records in a slot.
pub open spec fn records_in<R: Record>(slot: Option<ValueView>) -> Option<Seq<R::V>> {
    match items_in(slot) {
        Some(items) => Some(records_of::<R>(items)),
        None => None,
    }
}

/// The records of a repeated field: those in the slot, or none.
pub open spec fn every_record_in<R: Record>(slot: Option<ValueView>) -> Seq<R::V> {
    match items_in(slot) {
        Some(items) => records_of::<R>(items),
        None => Seq::empty(),
    }
}

/// The view of an optional borrowed value.
pub open spec fn borrowed_view(o: Option<&Value>) -> Option<ValueView> {
    match o {
        Some(value) => Some(value@),
        None => None,
    }
}

/// What a record holds for the field at `index`.
pub fn slot(value: &Value, index: usize) -> (r: Option<&Value>)
    ensures
        borrowed_view(r) == slot_of(value@, index as int),
{
    match value {
        Value::Record(fields) => {
            if index < fields.len() {
                match &fields[index] {
                    Value::Absent => None,
                    Value::Present(inner) => Some(&**inner),
                    other => Some(other),
                }
            } else {
                None
            }
        },
        _ => None,
    }
}

/// The number that a record holds for the field at `index`.
pub fn number_at(value: &Value, index: usize) -> (r: Option<Decimal>)
    ensures
        r == number_in(slot_of(value@, index as int)),
{
    match slot(value, index) {
        Some(Value::Number(number)) => Some(*number),
        _ => None,
    }
}

/// The text that a record holds for the field at `index`.
pub fn text_at(value: &Value, index: usize) -> (r: Option<String>)
    ensures
        option_view(r) == text_in(slot_of(value@, index as int)),
{
    match slot(value, index) {
        Some(Value::Text(text)) => Some(text.clone()),
        _ => None,
    }
}

/// The truth value that a record holds for the field at `index`.
pub fn bool_at(value: &Value, index: usize) -> (r: Option<bool>)
    ensures
        r == bool_in(slot_of(value@, index as int)),
{
    match slot(value, index) {
        Some(Value::Bool(flag)) => Some(*flag),
        _ => None,
    }
}

/// The date that a record holds for the field at `index`.
pub fn date_at(value: &Value, index: usize) -> (r: Option<Date>)
    ensures
        r == date_in(slot_of(value@, index as int)),
{
    match slot(value, index) {
        Some(Value::Date(date)) => Some(*date),
        _ => None,
    }
}

/// The view of an optional borrowed list.
pub open spec fn borrowed_items_view(o: Option<&Vec<Value>>) -> Option<Seq<ValueView>> {
    match o {
        Some(items) => Some(values_view(items@)),
        None => None,
    }
}

/// The items of the list that a record holds for the field at `index`.
pub fn items_at(value: &Value, index: usize) -> (r: Option<&Vec<Value>>)
    ensures
        borrowed_items_view(r) == items_in(slot_of(value@, index as int)),
{
    match slot(value, index) {
        Some(Value::List(items)) => {
            proof {
                lemma_list_view(*items);
            }
            Some(items)
        },
        _ => None,
    }
}

/// The list of numbers that a record holds for the field at `index`.
pub fn numbers_at(value: &Value, index: usize) -> (r: Option<Vec<Decimal>>)
    ensures
        numbers_view(r) == numbers_in(slot_of(value@, index as int)),
{
    match items_at(value, index) {
        Some(items) => {
            let mut numbers: Vec<Decimal> = Vec::new();
            let mut i: usize = 0;
            while i < items.len()
                invariant
                    i <= items.len(),
                    numbers.len() == i,
                    items_in(slot_of(value@, index as int)) == Some(values_view(items@)),
                    forall|k: int|
                        0 <= k < i ==> (#[trigger] items[k]@) == ValueView::Number(numbers[k]),
                decreases items.len() - i,
            {
                match &items[i] {
                    Value::Number(number) => {
                        numbers.push(*number);
                    },
                    _ => {
                        assert(!(values_view(items@)[i as int] is Number));
                        return None;
                    },
                }
                i += 1;
            }
            let ghost views = values_view(items@);
            assert forall|k: int| 0 <= k < views.len() implies (#[trigger] views[k]) is Number by {
                assert(items[k]@ == ValueView::Number(numbers[k]));
            }
            assert(numbers@ =~= numbers_of(views)->0) by {
                assert forall|k: int| 0 <= k < numbers.len() implies numbers@[k]
                    == views[k]->Number_0 by {
                    assert(items[k]@ == ValueView::Number(numbers[k]));
                }
            }
            Some(numbers)
        },
        None => None,
    }
}

/// The numbers of a repeated field at `index`.
pub fn every_number_at(value: &Value, index: usize) -> (r: Vec<Decimal>)
    ensures
        r@ == every_number_in(slot_of(value@, index as int)),
{
    match numbers_at(value, index) {
        Some(numbers) => numbers,
        None => Vec::new(),
    }
}

/// The list of texts that a record holds for the field at `index`.
pub fn texts_at(value: &Value, index: usize) -> (r: Option<Vec<String>>)
    ensures
        texts_view(r) == texts_in(slot_of(value@, index as int)),
{
    match items_at(value, index) {
        Some(items) => {
            let mut texts: Vec<String> = Vec::new();
            let mut i: usize = 0;
            while i < items.len()
                invariant
                    i <= items.len(),
                    texts.len() == i,
                    items_in(slot_of(value@, index as int)) == Some(values_view(items@)),
                    forall|k: int|
                        0 <= k < i ==> (#[trigger] items[k]@) == ValueView::Text(texts[k]@),
                decreases items.len() - i,
            {
                match &items[i] {
                    Value::Text(text) => {
                        texts.push(text.clone());
                    },
                    _ => {
                        assert(!(values_view(items@)[i as int] is Text));
                        return None;
                    },
                }
                i += 1;
            }
            let ghost views = values_view(items@);
            assert forall|k: int| 0 <= k < views.len() implies (#[trigger] views[k]) is Text by {
                assert(items[k]@ == ValueView::Text(texts[k]@));
            }
            assert(names_view(texts@) =~= texts_of(views)->0) by {
                assert forall|k: int| 0 <= k < texts.len() implies names_view(texts@)[k]
                    == views[k]->Text_0 by {
                    assert(items[k]@ == ValueView::Text(texts[k]@));
                }
            }
            Some(texts)
        },
        None => None,
    }
}

/// The record that a record holds for the field at `index`.
pub fn record_at<R: Record>(value: &Value, index: usize) -> (r: Option<R>)
    ensures
        option_view(r) == record_in::<R>(slot_of(value@, index as int)),
{
    match slot(value, index) {
        Some(inner) => match inner {
            Value::Record(_) => Some(R::from_value(inner)),
            _ => None,
        },
        None => None,
    }
}

/// The records read from a run of values.
pub fn records_from<R: Record>(items: &Vec<Value>) -> (r: Vec<R>)
    ensures
        seq_view(r@) == records_of::<R>(values_view(items@)),
{
    let mut records: Vec<R> = Vec::new();
    let mut i: usize = 0;
    while i < items.len()
        invariant
            i <= items.len(),
            records.len() == i,
            forall|k: int| 0 <= k < i ==> (#[trigger] records[k])@ == R::of(items[k]@),
        decreases items.len() - i,
    {
        records.push(R::from_value(&items[i]));
        i += 1;
    }
    assert(seq_view(records@) =~= records_of::<R>(values_view(items@)));
    records
}

/// The list of records that a record holds for the field at `index`.
pub fn records_at<R: Record>(value: &Value, index: usize) -> (r: Option<Vec<R>>)
    ensures
        list_view(r) == records_in::<R>(slot_of(value@, index as int)),
{
    match items_at(value, index) {
        Some(items) => Some(records_from::<R>(items)),
        None => None,
    }
}

/// The records of a repeated field at `index`.
pub fn every_record_at<R: Record>(value: &Value, index: usize) -> (r: Vec<R>)
    ensures
        seq_view(r@) == every_record_in::<R>(slot_of(value@, index as int)),
{
    match items_at(value, index) {
        Some(items) => records_from::<R>(items),
        None => {
            let none: Vec<R> = Vec::new();
            assert(seq_view(none@) =~= Seq::<R::V>::empty());
            none
        },
    }
}

} // verus!
