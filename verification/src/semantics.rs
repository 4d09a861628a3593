//! What a token tree decodes to under a schema, stated as mathematical
//! functions. The executable binder is proved to compute them.

use vstd::prelude::*;
use vstd::utf8::encode_utf8;
use crate::date::Era;
use crate::decoders::{id_of, scalar_of};
use crate::error::{failure, named, DecodeErrorView, FieldErrorKind};
use crate::schema::{Cardinality, FieldDescriptorView, HintView, RecordDescriptorView};
use crate::token::{EntryView, NodeView};
use crate::value::{KeyedValueView, ValueView};

verus! {

/// Whether `key` is one of the keys under which a field is written.
pub open spec fn key_matches(key: Seq<u8>, aliases: Seq<Seq<char>>) -> bool {
    exists|i: int| 0 <= i < aliases.len() && #[trigger] encode_utf8(aliases[i]) == key
}

/// Whether a field reads an entry written under `key`: a keyed collection
/// reads the keys that are whole numbers, any other field the keys that it
/// is written under.
pub open spec fn field_reads(field: FieldDescriptorView, key: Seq<u8>) -> bool {
    match field.cardinality {
        Cardinality::Keyed => id_of(key) is Some,
        _ => key_matches(key, field.aliases),
    }
}

/// The index of the last of the first `upto` entries whose key matches, or
/// -1 if none of them does.
pub open spec fn last_match(entries: Seq<EntryView>, aliases: Seq<Seq<char>>, upto: int) -> int
    decreases upto,
{
    if upto <= 0 {
        -1
    } else if upto <= entries.len() && key_matches(entries[upto - 1].key, aliases) {
        upto - 1
    } else {
        last_match(entries, aliases, upto - 1)
    }
}

/// The state of a run of values after one more outcome: values gather while
/// all is well; once a field has failed only failures gather; depth and
/// shape errors replace whatever was gathered and stay.
pub open spec fn absorb(
    state: Result<Seq<ValueView>, DecodeErrorView>,
    outcome: Result<ValueView, DecodeErrorView>,
) -> Result<Seq<ValueView>, DecodeErrorView> {
    match state {
        Ok(values) => match outcome {
            Ok(value) => Ok(values.push(value)),
            Err(error) => Err(error),
        },
        Err(DecodeErrorView::Fields(errors)) => match outcome {
            Ok(_) => state,
            Err(DecodeErrorView::Fields(more)) => Err(DecodeErrorView::Fields(errors + more)),
            Err(error) => Err(error),
        },
        Err(_) => state,
    }
}

/// The state of a keyed collection after one more member: a member whose
/// fields failed is kept with its failures; depth and shape errors end the
/// collection.
pub open spec fn take_member(
    state: Result<Seq<KeyedValueView>, DecodeErrorView>,
    key: u64,
    outcome: Result<ValueView, DecodeErrorView>,
) -> Result<Seq<KeyedValueView>, DecodeErrorView> {
    match state {
        Ok(members) => match outcome {
            Ok(value) => Ok(members.push(KeyedValueView { key, outcome: Ok(value) })),
            Err(DecodeErrorView::Fields(errors)) => Ok(
                members.push(KeyedValueView { key, outcome: Err(errors) }),
            ),
            Err(error) => Err(error),
        },
        Err(_) => state,
    }
}

/// What a node decodes to under a hint, with `budget` levels of nesting
/// left.
pub open spec fn decode_spec(node: NodeView, hint: HintView, era: Era, budget: nat) -> Result<
    ValueView,
    DecodeErrorView,
>
    decreases node, 1nat, 0nat,
{
    match hint {
        HintView::Nested(record) => bind_spec(node, record, era, budget),
        HintView::List(item) => match node {
            NodeView::Array(items) => if budget == 0 {
                Err(DecodeErrorView::DepthExceeded)
            } else {
                match items_spec(items, *item, items.len() as int, era, (budget - 1) as nat) {
                    Ok(values) => Ok(ValueView::List(values)),
                    Err(error) => Err(error),
                }
            },
            _ => Err(failure(FieldErrorKind::TypeMismatch)),
        },
        _ => match node {
            NodeView::Scalar(raw) => match scalar_of(raw, hint, era) {
                Ok(value) => Ok(value),
                Err(kind) => Err(failure(kind)),
            },
            _ => Err(failure(FieldErrorKind::TypeMismatch)),
        },
    }
}

/// The state after decoding the first `upto` items of an array.
pub open spec fn items_spec(
    items: Seq<NodeView>,
    hint: HintView,
    upto: int,
    era: Era,
    budget: nat,
) -> Result<Seq<ValueView>, DecodeErrorView>
    decreases items, 0nat, upto,
{
    if upto <= 0 || upto > items.len() {
        Ok(Seq::empty())
    } else {
        absorb(
            items_spec(items, hint, upto - 1, era, budget),
            decode_spec(items[upto - 1], hint, era, budget),
        )
    }
}

/// What a node binds to as a record, with `budget` levels of nesting left:
/// one value for each field of the descriptor, in the descriptor's order.
pub open spec fn bind_spec(
    node: NodeView,
    record: RecordDescriptorView,
    era: Era,
    budget: nat,
) -> Result<ValueView, DecodeErrorView>
    decreases node, 0nat, 0nat,
{
    match node {
        NodeView::Object(entries) => if budget == 0 {
            Err(DecodeErrorView::DepthExceeded)
        } else {
            match fields_spec(
                entries,
                record,
                record.fields.len() as int,
                era,
                (budget - 1) as nat,
            ) {
                Ok(values) => Ok(ValueView::Record(values)),
                Err(error) => Err(error),
            }
        },
        _ => Err(DecodeErrorView::UnknownTopLevelShape),
    }
}

/// The state after binding the first `upto` fields of a descriptor against
/// the entries of an object.
pub open spec fn fields_spec(
    entries: Seq<EntryView>,
    record: RecordDescriptorView,
    upto: int,
    era: Era,
    budget: nat,
) -> Result<Seq<ValueView>, DecodeErrorView>
    decreases entries, 3nat, upto,
{
    if upto <= 0 || upto > record.fields.len() {
        Ok(Seq::empty())
    } else {
        absorb(
            fields_spec(entries, record, upto - 1, era, budget),
            field_spec(entries, record.fields[upto - 1], era, budget),
        )
    }
}

/// What one field is bound to, given the entries of the object.
pub open spec fn field_spec(
    entries: Seq<EntryView>,
    field: FieldDescriptorView,
    era: Era,
    budget: nat,
) -> Result<ValueView, DecodeErrorView>
    decreases entries, 2nat, 0nat,
{
    match field.cardinality {
        Cardinality::Optional => {
            let hit = last_match(entries, field.aliases, entries.len() as int);
            if 0 <= hit < entries.len() {
                match decode_spec(entries[hit].node, field.hint, era, budget) {
                    Ok(value) => Ok(ValueView::Present(Box::new(value))),
                    Err(error) => Err(named(field.name, error)),
                }
            } else {
                Ok(ValueView::Absent)
            }
        },
        Cardinality::Required => {
            let hit = last_match(entries, field.aliases, entries.len() as int);
            if 0 <= hit < entries.len() {
                match decode_spec(entries[hit].node, field.hint, era, budget) {
                    Ok(value) => Ok(value),
                    Err(error) => Err(named(field.name, error)),
                }
            } else {
                Err(named(field.name, failure(FieldErrorKind::MissingField)))
            }
        },
        Cardinality::Duplicated => match occurrences_spec(
            entries,
            field,
            entries.len() as int,
            era,
            budget,
        ) {
            Ok(values) => Ok(ValueView::List(values)),
            Err(error) => Err(named(field.name, error)),
        },
        Cardinality::Keyed => match members_spec(
            entries,
            field,
            entries.len() as int,
            era,
            budget,
        ) {
            Ok(members) => Ok(ValueView::Keyed(members)),
            Err(error) => Err(error),
        },
    }
}

/// The state after decoding every occurrence of a repeated field among the
/// first `upto` entries.
pub open spec fn occurrences_spec(
    entries: Seq<EntryView>,
    field: FieldDescriptorView,
    upto: int,
    era: Era,
    budget: nat,
) -> Result<Seq<ValueView>, DecodeErrorView>
    decreases entries, 1nat, upto,
{
    if upto <= 0 || upto > entries.len() {
        Ok(Seq::empty())
    } else if key_matches(entries[upto - 1].key, field.aliases) {
        absorb(
            occurrences_spec(entries, field, upto - 1, era, budget),
            decode_spec(entries[upto - 1].node, field.hint, era, budget),
        )
    } else {
        occurrences_spec(entries, field, upto - 1, era, budget)
    }
}

/// The state after decoding every member of a keyed collection among the
/// first `upto` entries: the entries whose key is a whole number.
pub open spec fn members_spec(
    entries: Seq<EntryView>,
    field: FieldDescriptorView,
    upto: int,
    era: Era,
    budget: nat,
) -> Result<Seq<KeyedValueView>, DecodeErrorView>
    decreases entries, 1nat, upto,
{
    if upto <= 0 || upto > entries.len() {
        Ok(Seq::empty())
    } else {
        match id_of(entries[upto - 1].key) {
            Some(key) => take_member(
                members_spec(entries, field, upto - 1, era, budget),
                key,
                decode_spec(entries[upto - 1].node, field.hint, era, budget),
            ),
            None => members_spec(entries, field, upto - 1, era, budget),
        }
    }
}

} // verus!
