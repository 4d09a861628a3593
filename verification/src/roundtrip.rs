//! The round trip: a bound value that is written back binds to the same
//! value again.

use vstd::prelude::*;
use vstd::utf8::encode_utf8;
use crate::date::Era;
use crate::decoders::id_of;
use crate::encoder::{
    written,
    written_field,
    written_fields,
    written_items,
    written_key,
    written_members,
    written_occurrences,
    written_record,
};
use crate::error::DecodeErrorView;
use crate::laws::{
    law_field_sees_only_what_it_reads,
    law_members_decode_independently,
    law_repeated_field_keeps_count_and_order,
    member_is,
    read_by,
};
use crate::number::{lemma_unscaled_rescales, unscaled};
use crate::schema::{Cardinality, FieldDescriptorView, HintView, RecordDescriptorView};
use crate::semantics::{
    bind_spec,
    decode_spec,
    field_reads,
    field_spec,
    fields_spec,
    items_spec,
    key_matches,
    last_match,
    members_spec,
    occurrences_spec,
};
use crate::token::{EntryView, NodeView};
use crate::value::{KeyedValueView, ValueView};
use crate::writers::{
    digits_of,
    law_bool_round_trip,
    law_date_decodes_again,
    law_decimal_decodes_again,
    law_decimal_round_trip,
    law_id_round_trip,
};

verus! {

/// Whether writing a field may use `key`: a keyed collection writes whole
/// numbers, any other field its first key.
pub open spec fn field_writes(field: FieldDescriptorView, key: Seq<u8>) -> bool {
    match field.cardinality {
        Cardinality::Keyed => id_of(key) is Some,
        _ => field.aliases.len() > 0 && key == written_key(field),
    }
}

/// Whether the fields of a record keep their keys apart: no field reads a
/// key that another field writes.
pub open spec fn keys_apart(record: RecordDescriptorView) -> bool {
    forall|i: int, j: int, key: Seq<u8>|
        0 <= i < record.fields.len() && 0 <= j < record.fields.len() && i != j
            && #[trigger] field_writes(record.fields[i], key) ==> !#[trigger] field_reads(
            record.fields[j],
            key,
        )
}

/// Whether every record that a hint leads to keeps its keys apart.
pub open spec fn hint_settled(hint: HintView) -> bool
    decreases hint,
{
    match hint {
        HintView::Nested(record) => settled(record),
        HintView::List(item) => hint_settled(*item),
        _ => true,
    }
}

/// Whether a record descriptor, and every descriptor inside it, keeps its
/// keys apart.
pub open spec fn settled(record: RecordDescriptorView) -> bool
    decreases record,
{
    &&& keys_apart(record)
    &&& forall|i: int|
        0 <= i < record.fields.len() ==> hint_settled((#[trigger] record.fields[i]).hint)
}

/// Where the items of an array all decode, each value is that of its item.
proof fn lemma_items_pointwise(
    items: Seq<NodeView>,
    hint: HintView,
    upto: int,
    era: Era,
    budget: nat,
)
    requires
        0 <= upto <= items.len(),
    ensures
        items_spec(items, hint, upto, era, budget) matches Ok(values) ==> {
            &&& values.len() == upto
            &&& forall|k: int|
                0 <= k < upto ==> decode_spec(items[k], hint, era, budget) == Ok::<
                    ValueView,
                    DecodeErrorView,
                >(#[trigger] values[k])
        },
    decreases upto,
{
    if upto > 0 {
        lemma_items_pointwise(items, hint, upto - 1, era, budget);
        let earlier = items_spec(items, hint, upto - 1, era, budget);
        match items_spec(items, hint, upto, era, budget) {
            Ok(values) => {
                assert forall|k: int| 0 <= k < upto implies decode_spec(
                    items[k],
                    hint,
                    era,
                    budget,
                ) == Ok::<ValueView, DecodeErrorView>(#[trigger] values[k]) by {
                    if k < upto - 1 {
                        assert(values[k] == earlier->Ok_0[k]);
                    }
                }
            },
            _ => {},
        }
    }
}

/// Items that each decode to a value decode together to those values.
proof fn lemma_items_from_pointwise(
    items: Seq<NodeView>,
    hint: HintView,
    values: Seq<ValueView>,
    upto: int,
    era: Era,
    budget: nat,
)
    requires
        0 <= upto <= items.len(),
        upto <= values.len(),
        forall|k: int|
            0 <= k < upto ==> decode_spec(#[trigger] items[k], hint, era, budget) == Ok::<
                ValueView,
                DecodeErrorView,
            >(values[k]),
    ensures
        items_spec(items, hint, upto, era, budget) == Ok::<Seq<ValueView>, DecodeErrorView>(
            values.take(upto),
        ),
    decreases upto,
{
    if upto > 0 {
        lemma_items_from_pointwise(items, hint, values, upto - 1, era, budget);
        assert(decode_spec(items[upto - 1], hint, era, budget) == Ok::<ValueView, DecodeErrorView>(
            values[upto - 1],
        ));
        assert(values.take(upto) =~= values.take(upto - 1).push(values[upto - 1]));
    } else {
        assert(values.take(0) =~= Seq::<ValueView>::empty());
    }
}

/// Where the fields of a record are all bound, each value is that of its
/// field.
proof fn lemma_fields_pointwise(
    entries: Seq<EntryView>,
    record: RecordDescriptorView,
    upto: int,
    era: Era,
    budget: nat,
)
    requires
        0 <= upto <= record.fields.len(),
    ensures
        fields_spec(entries, record, upto, era, budget) matches Ok(values) ==> {
            &&& values.len() == upto
            &&& forall|i: int|
                0 <= i < upto ==> field_spec(entries, record.fields[i], era, budget) == Ok::<
                    ValueView,
                    DecodeErrorView,
                >(#[trigger] values[i])
        },
    decreases upto,
{
    if upto > 0 {
        lemma_fields_pointwise(entries, record, upto - 1, era, budget);
        let earlier = fields_spec(entries, record, upto - 1, era, budget);
        match fields_spec(entries, record, upto, era, budget) {
            Ok(values) => {
                assert forall|i: int| 0 <= i < upto implies field_spec(
                    entries,
                    record.fields[i],
                    era,
                    budget,
                ) == Ok::<ValueView, DecodeErrorView>(#[trigger] values[i]) by {
                    if i < upto - 1 {
                        assert(values[i] == earlier->Ok_0[i]);
                    }
                }
            },
            _ => {},
        }
    }
}

/// Fields that are each bound to a value are bound together to those
/// values.
proof fn lemma_fields_from_pointwise(
    entries: Seq<EntryView>,
    record: RecordDescriptorView,
    values: Seq<ValueView>,
    upto: int,
    era: Era,
    budget: nat,
)
    requires
        0 <= upto <= record.fields.len(),
        upto <= values.len(),
        forall|i: int|
            0 <= i < upto ==> field_spec(entries, #[trigger] record.fields[i], era, budget)
                == Ok::<ValueView, DecodeErrorView>(values[i]),
    ensures
        fields_spec(entries, record, upto, era, budget) == Ok::<Seq<ValueView>, DecodeErrorView>(
            values.take(upto),
        ),
    decreases upto,
{
    if upto > 0 {
        lemma_fields_from_pointwise(entries, record, values, upto - 1, era, budget);
        assert(field_spec(entries, record.fields[upto - 1], era, budget) == Ok::<
            ValueView,
            DecodeErrorView,
        >(values[upto - 1]));
        assert(values.take(upto) =~= values.take(upto - 1).push(values[upto - 1]));
    } else {
        assert(values.take(0) =~= Seq::<ValueView>::empty());
    }
}

/// Occurrences that all match and each decode to a value decode together
/// to those values.
proof fn lemma_occurrences_from_pointwise(
    entries: Seq<EntryView>,
    field: FieldDescriptorView,
    values: Seq<ValueView>,
    upto: int,
    era: Era,
    budget: nat,
)
    requires
        0 <= upto <= entries.len(),
        upto <= values.len(),
        forall|k: int|
            0 <= k < upto ==> key_matches((#[trigger] entries[k]).key, field.aliases)
                && decode_spec(entries[k].node, field.hint, era, budget) == Ok::<
                ValueView,
                DecodeErrorView,
            >(values[k]),
    ensures
        occurrences_spec(entries, field, upto, era, budget) == Ok::<
            Seq<ValueView>,
            DecodeErrorView,
        >(values.take(upto)),
    decreases upto,
{
    if upto > 0 {
        lemma_occurrences_from_pointwise(entries, field, values, upto - 1, era, budget);
        assert(key_matches(entries[upto - 1].key, field.aliases));
        assert(values.take(upto) =~= values.take(upto - 1).push(values[upto - 1]));
    } else {
        assert(values.take(0) =~= Seq::<ValueView>::empty());
    }
}

/// Members that stand under whole numbers and each decode to a value make
/// up the collection of those values under those numbers.
proof fn lemma_members_from_pointwise(
    entries: Seq<EntryView>,
    field: FieldDescriptorView,
    members: Seq<KeyedValueView>,
    upto: int,
    era: Era,
    budget: nat,
)
    requires
        0 <= upto <= entries.len(),
        upto <= members.len(),
        forall|k: int|
            0 <= k < upto ==> id_of((#[trigger] entries[k]).key) == Some(members[k].key)
                && members[k].outcome is Ok && decode_spec(entries[k].node, field.hint, era, budget)
                == Ok::<ValueView, DecodeErrorView>(members[k].outcome->Ok_0),
    ensures
        members_spec(entries, field, upto, era, budget) == Ok::<
            Seq<KeyedValueView>,
            DecodeErrorView,
        >(members.take(upto)),
    decreases upto,
{
    if upto > 0 {
        lemma_members_from_pointwise(entries, field, members, upto - 1, era, budget);
        assert(id_of(entries[upto - 1].key) == Some(members[upto - 1].key));
        assert(members.take(upto) =~= members.take(upto - 1).push(members[upto - 1]));
    } else {
        assert(members.take(0) =~= Seq::<KeyedValueView>::empty());
    }
}

/// Where a list is written, each node is that of its item.
proof fn lemma_written_items_pointwise(items: Seq<ValueView>, hint: HintView, upto: int, era: Era)
    requires
        0 <= upto <= items.len(),
    ensures
        written_items(items, hint, upto, era) matches Some(nodes) ==> {
            &&& nodes.len() == upto
            &&& forall|k: int|
                0 <= k < upto ==> written(items[k], hint, era) == Some(#[trigger] nodes[k])
        },
    decreases upto,
{
    if upto > 0 {
        lemma_written_items_pointwise(items, hint, upto - 1, era);
        let earlier = written_items(items, hint, upto - 1, era);
        match written_items(items, hint, upto, era) {
            Some(nodes) => {
                assert forall|k: int| 0 <= k < upto implies written(items[k], hint, era) == Some(
                    #[trigger] nodes[k],
                ) by {
                    if k < upto - 1 {
                        assert(nodes[k] == earlier->0[k]);
                    }
                }
            },
            None => {},
        }
    }
}

/// Where the occurrences of a repeated field are written, each entry
/// stands under the field's first key and holds the node of its
/// occurrence.
proof fn lemma_written_occurrences_pointwise(
    items: Seq<ValueView>,
    field: FieldDescriptorView,
    upto: int,
    era: Era,
)
    requires
        0 <= upto <= items.len(),
    ensures
        written_occurrences(items, field, upto, era) matches Some(entries) ==> {
            &&& entries.len() == upto
            &&& forall|k: int|
                0 <= k < upto ==> (#[trigger] entries[k]).key == written_key(field) && written(
                    items[k],
                    field.hint,
                    era,
                ) == Some(entries[k].node)
        },
    decreases upto,
{
    if upto > 0 {
        lemma_written_occurrences_pointwise(items, field, upto - 1, era);
        let earlier = written_occurrences(items, field, upto - 1, era);
        match written_occurrences(items, field, upto, era) {
            Some(entries) => {
                assert forall|k: int| 0 <= k < upto implies (#[trigger] entries[k]).key
                    == written_key(field) && written(items[k], field.hint, era) == Some(
                    entries[k].node,
                ) by {
                    if k < upto - 1 {
                        assert(entries[k] == earlier->0[k]);
                    }
                }
            },
            None => {},
        }
    }
}

/// Where the members of a keyed collection are written, each member holds
/// a value, and its entry stands under the member's number and holds the
/// node of the value.
proof fn lemma_written_members_pointwise(
    members: Seq<KeyedValueView>,
    field: FieldDescriptorView,
    upto: int,
    era: Era,
)
    requires
        0 <= upto <= members.len(),
    ensures
        written_members(members, field, upto, era) matches Some(entries) ==> {
            &&& entries.len() == upto
            &&& forall|k: int|
                0 <= k < upto ==> (#[trigger] entries[k]).key == digits_of(members[k].key as nat)
                    && members[k].outcome is Ok && written(
                    members[k].outcome->Ok_0,
                    field.hint,
                    era,
                ) == Some(entries[k].node)
        },
    decreases upto,
{
    if upto > 0 {
        lemma_written_members_pointwise(members, field, upto - 1, era);
        let earlier = written_members(members, field, upto - 1, era);
        match written_members(members, field, upto, era) {
            Some(entries) => {
                assert forall|k: int| 0 <= k < upto implies (#[trigger] entries[k]).key
                    == digits_of(members[k].key as nat) && members[k].outcome is Ok && written(
                    members[k].outcome->Ok_0,
                    field.hint,
                    era,
                ) == Some(entries[k].node) by {
                    if k < upto - 1 {
                        assert(entries[k] == earlier->0[k]);
                    }
                }
            },
            None => {},
        }
    }
}

/// Every entry that spells a field stands under a key that the field
/// writes.
proof fn lemma_written_keys(value: ValueView, field: FieldDescriptorView, era: Era)
    ensures
        written_field(value, field, era) matches Some(entries) ==> forall|k: int|
            0 <= k < entries.len() ==> field_writes(field, (#[trigger] entries[k]).key),
{
    match written_field(value, field, era) {
        Some(entries) => {
            match field.cardinality {
                Cardinality::Keyed => {
                    let members = value->Keyed_0;
                    lemma_written_members_pointwise(members, field, members.len() as int, era);
                    assert forall|k: int| 0 <= k < entries.len() implies field_writes(
                        field,
                        (#[trigger] entries[k]).key,
                    ) by {
                        law_id_round_trip(members[k].key);
                    }
                },
                Cardinality::Duplicated => {
                    let items = value->List_0;
                    lemma_written_occurrences_pointwise(items, field, items.len() as int, era);
                },
                _ => {},
            }
        },
        None => {},
    }
}

/// Filtering keeps a run whose every element passes.
proof fn lemma_filter_keeps_all(entries: Seq<EntryView>, pred: spec_fn(EntryView) -> bool)
    requires
        forall|k: int| 0 <= k < entries.len() ==> pred(#[trigger] entries[k]),
    ensures
        entries.filter(pred) == entries,
    decreases entries.len(),
{
    reveal(Seq::filter);
    if entries.len() > 0 {
        assert forall|k: int| 0 <= k < entries.drop_last().len() implies pred(
            #[trigger] entries.drop_last()[k],
        ) by {
            assert(entries.drop_last()[k] == entries[k]);
        }
        lemma_filter_keeps_all(entries.drop_last(), pred);
        assert(pred(entries[entries.len() - 1]));
        assert(entries.drop_last().push(entries.last()) =~= entries);
    }
}

/// Filtering empties a run none of whose elements passes.
proof fn lemma_filter_keeps_none(entries: Seq<EntryView>, pred: spec_fn(EntryView) -> bool)
    requires
        forall|k: int| 0 <= k < entries.len() ==> !pred(#[trigger] entries[k]),
    ensures
        entries.filter(pred) == Seq::<EntryView>::empty(),
    decreases entries.len(),
{
    reveal(Seq::filter);
    if entries.len() > 0 {
        assert forall|k: int| 0 <= k < entries.drop_last().len() implies !pred(
            #[trigger] entries.drop_last()[k],
        ) by {
            assert(entries.drop_last()[k] == entries[k]);
        }
        lemma_filter_keeps_none(entries.drop_last(), pred);
        assert(!pred(entries[entries.len() - 1]));
    }
}

/// Where the fields of a record are written, each of the fields is.
proof fn lemma_written_fields_parts(
    values: Seq<ValueView>,
    record: RecordDescriptorView,
    upto: int,
    era: Era,
)
    requires
        0 <= upto <= values.len(),
        upto <= record.fields.len(),
        written_fields(values, record, upto, era) is Some,
    ensures
        forall|i: int|
            0 <= i < upto ==> (#[trigger] written_field(values[i], record.fields[i], era)) is Some,
    decreases upto,
{
    if upto > 0 {
        lemma_written_fields_parts(values, record, upto - 1, era);
    }
}

/// Of the entries that spell the first fields of a record whose keys are
/// apart, a field reads exactly its own.
proof fn lemma_reads_its_own(
    values: Seq<ValueView>,
    record: RecordDescriptorView,
    upto: int,
    i: int,
    era: Era,
)
    requires
        0 <= upto <= values.len(),
        upto <= record.fields.len(),
        0 <= i < record.fields.len(),
        keys_apart(record),
        written_fields(values, record, upto, era) is Some,
    ensures
        read_by(written_fields(values, record, upto, era)->0, record.fields[i]) == (if i < upto {
            written_field(values[i], record.fields[i], era)->0
        } else {
            Seq::<EntryView>::empty()
        }),
    decreases upto,
{
    let field = record.fields[i];
    let pred = |entry: EntryView| field_reads(field, entry.key);
    if upto > 0 {
        lemma_reads_its_own(values, record, upto - 1, i, era);
        let before = written_fields(values, record, upto - 1, era)->0;
        let other = record.fields[upto - 1];
        let more = written_field(values[upto - 1], other, era)->0;
        lemma_written_keys(values[upto - 1], other, era);
        Seq::filter_distributes_over_add(before, more, pred);
        if i == upto - 1 {
            assert forall|k: int| 0 <= k < more.len() implies pred(#[trigger] more[k]) by {
                assert(field_writes(field, more[k].key));
                if field.cardinality != Cardinality::Keyed {
                    assert(encode_utf8(field.aliases[0]) == more[k].key);
                }
            }
            lemma_filter_keeps_all(more, pred);
            assert(Seq::<EntryView>::empty() + more =~= more);
        } else {
            assert forall|k: int| 0 <= k < more.len() implies !pred(#[trigger] more[k]) by {
                assert(field_writes(other, more[k].key));
            }
            lemma_filter_keeps_none(more, pred);
            assert(read_by(before, field) + Seq::<EntryView>::empty() =~= read_by(before, field));
        }
    } else {
        reveal(Seq::filter);
    }
}

/// A node that decodes to a value that is written: the written node
/// decodes to the same value.
proof fn lemma_decodes_again(node: NodeView, hint: HintView, era: Era, budget: nat)
    requires
        hint_settled(hint),
        decode_spec(node, hint, era, budget) is Ok,
        written(decode_spec(node, hint, era, budget)->Ok_0, hint, era) is Some,
    ensures
        decode_spec(
            written(decode_spec(node, hint, era, budget)->Ok_0, hint, era)->0,
            hint,
            era,
            budget,
        ) == decode_spec(node, hint, era, budget),
    decreases node, 2nat,
{
    let value = decode_spec(node, hint, era, budget)->Ok_0;
    match hint {
        HintView::Nested(record) => {
            lemma_binds_again(node, record, era, budget);
        },
        HintView::List(item) => {
            let items = node->Array_0;
            let count = items.len() as int;
            let rest = (budget - 1) as nat;
            lemma_items_pointwise(items, *item, count, era, rest);
            let values = items_spec(items, *item, count, era, rest)->Ok_0;
            lemma_written_items_pointwise(values, *item, count, era);
            let nodes = written_items(values, *item, count, era)->0;
            assert forall|k: int| 0 <= k < count implies decode_spec(
                #[trigger] nodes[k],
                *item,
                era,
                rest,
            ) == Ok::<ValueView, DecodeErrorView>(values[k]) by {
                assert(decode_spec(items[k], *item, era, rest) == Ok::<ValueView, DecodeErrorView>(
                    values[k],
                ));
                assert(written(values[k], *item, era) == Some(nodes[k]));
                lemma_decodes_again(items[k], *item, era, rest);
            }
            lemma_items_from_pointwise(nodes, *item, values, count, era, rest);
            assert(values.take(count) =~= values);
        },
        HintView::Number => {
            law_decimal_decodes_again(node->Scalar_0);
        },
        HintView::Reencoded(transform) => {
            let number = value->Number_0;
            lemma_unscaled_rescales(number, transform);
            law_decimal_round_trip(unscaled(number, transform)->0);
        },
        HintView::Text => {},
        HintView::Boolean => {
            law_bool_round_trip(value->Bool_0);
        },
        HintView::Date => {
            law_date_decodes_again(node->Scalar_0, era);
        },
    }
}

/// An object that binds to a record that is written: the written object
/// binds to the same record.
proof fn lemma_binds_again(node: NodeView, record: RecordDescriptorView, era: Era, budget: nat)
    requires
        settled(record),
        bind_spec(node, record, era, budget) is Ok,
        written_record(bind_spec(node, record, era, budget)->Ok_0, record, era) is Some,
    ensures
        bind_spec(
            written_record(bind_spec(node, record, era, budget)->Ok_0, record, era)->0,
            record,
            era,
            budget,
        ) == bind_spec(node, record, era, budget),
    decreases node, 1nat,
{
    let entries = node->Object_0;
    let count = record.fields.len() as int;
    let rest = (budget - 1) as nat;
    lemma_fields_pointwise(entries, record, count, era, rest);
    let values = fields_spec(entries, record, count, era, rest)->Ok_0;
    let spelled = written_fields(values, record, count, era)->0;
    lemma_written_fields_parts(values, record, count, era);
    assert forall|i: int| 0 <= i < count implies field_spec(
        spelled,
        #[trigger] record.fields[i],
        era,
        rest,
    ) == Ok::<ValueView, DecodeErrorView>(values[i]) by {
        let field = record.fields[i];
        assert(field_spec(entries, field, era, rest) == Ok::<ValueView, DecodeErrorView>(
            values[i],
        ));
        assert(written_field(values[i], field, era) is Some);
        law_field_sees_only_what_it_reads(spelled, field, era, rest);
        lemma_reads_its_own(values, record, count, i, era);
        lemma_field_binds_again(entries, field, era, rest);
    }
    lemma_fields_from_pointwise(spelled, record, values, count, era, rest);
    assert(values.take(count) =~= values);
}

/// A field that is bound to a value that is written: from the written
/// entries the field is bound to the same value.
proof fn lemma_field_binds_again(
    entries: Seq<EntryView>,
    field: FieldDescriptorView,
    era: Era,
    budget: nat,
)
    requires
        hint_settled(field.hint),
        field_spec(entries, field, era, budget) is Ok,
        written_field(field_spec(entries, field, era, budget)->Ok_0, field, era) is Some,
    ensures
        field_spec(
            written_field(field_spec(entries, field, era, budget)->Ok_0, field, era)->0,
            field,
            era,
            budget,
        ) == field_spec(entries, field, era, budget),
    decreases entries, 0nat,
{
    let value = field_spec(entries, field, era, budget)->Ok_0;
    let spelled = written_field(value, field, era)->0;
    match field.cardinality {
        Cardinality::Duplicated => {
            law_repeated_field_keeps_count_and_order(entries, field, era, budget);
            let read = read_by(entries, field);
            let items = value->List_0;
            let count = items.len() as int;
            lemma_written_occurrences_pointwise(items, field, count, era);
            assert forall|k: int| 0 <= k < count implies key_matches(
                (#[trigger] spelled[k]).key,
                field.aliases,
            ) && decode_spec(spelled[k].node, field.hint, era, budget) == Ok::<
                ValueView,
                DecodeErrorView,
            >(items[k]) by {
                assert(encode_utf8(field.aliases[0]) == spelled[k].key);
                assert(read.contains(read[k]));
                entries.lemma_filter_contains_rev(
                    |entry: EntryView| field_reads(field, entry.key),
                    read[k],
                );
                let j = choose|j: int| 0 <= j < entries.len() && entries[j] == read[k];
                assert(decode_spec(entries[j].node, field.hint, era, budget) == Ok::<
                    ValueView,
                    DecodeErrorView,
                >(items[k]));
                assert(written(items[k], field.hint, era) == Some(spelled[k].node));
                lemma_decodes_again(entries[j].node, field.hint, era, budget);
            }
            lemma_occurrences_from_pointwise(spelled, field, items, count, era, budget);
            assert(items.take(count) =~= items);
        },
        Cardinality::Keyed => {
            law_members_decode_independently(entries, field, era, budget);
            let read = read_by(entries, field);
            let members = value->Keyed_0;
            let count = members.len() as int;
            lemma_written_members_pointwise(members, field, count, era);
            assert forall|k: int| 0 <= k < count implies id_of((#[trigger] spelled[k]).key) == Some(
                members[k].key,
            ) && members[k].outcome is Ok && decode_spec(spelled[k].node, field.hint, era, budget)
                == Ok::<ValueView, DecodeErrorView>(members[k].outcome->Ok_0) by {
                law_id_round_trip(members[k].key);
                assert(member_is(members[k], read[k], field, era, budget));
                assert(read.contains(read[k]));
                entries.lemma_filter_contains_rev(
                    |entry: EntryView| field_reads(field, entry.key),
                    read[k],
                );
                let j = choose|j: int| 0 <= j < entries.len() && entries[j] == read[k];
                assert(decode_spec(entries[j].node, field.hint, era, budget) == Ok::<
                    ValueView,
                    DecodeErrorView,
                >(members[k].outcome->Ok_0));
                lemma_decodes_again(entries[j].node, field.hint, era, budget);
            }
            lemma_members_from_pointwise(spelled, field, members, count, era, budget);
            assert(members.take(count) =~= members);
        },
        _ => {
            let hit = last_match(entries, field.aliases, entries.len() as int);
            if 0 <= hit < entries.len() {
                lemma_decodes_again(entries[hit].node, field.hint, era, budget);
                assert(encode_utf8(field.aliases[0]) == spelled[0].key);
                assert(key_matches(spelled[0].key, field.aliases));
                assert(last_match(spelled, field.aliases, 1) == 0);
            } else {
                assert(last_match(spelled, field.aliases, 0) == -1);
            }
        },
    }
}

/// Decoding, writing and decoding again gives the value of the first
/// decoding: where a node decodes to a value under a hint whose records
/// keep their keys apart, and the value is written, the written node
/// decodes to the same value, under the same era and within the same
/// depth.
pub proof fn law_decoding_again_gives_the_same(
    node: NodeView,
    hint: HintView,
    era: Era,
    budget: nat,
)
    requires
        hint_settled(hint),
    ensures
        decode_spec(node, hint, era, budget) matches Ok(value) ==> (written(value, hint, era)
            matches Some(again) ==> decode_spec(again, hint, era, budget) == Ok::<
            ValueView,
            DecodeErrorView,
        >(value)),
{
    if decode_spec(node, hint, era, budget) is Ok && written(
        decode_spec(node, hint, era, budget)->Ok_0,
        hint,
        era,
    ) is Some {
        lemma_decodes_again(node, hint, era, budget);
    }
}

/// Binding, writing and binding again gives the record of the first
/// binding: where an object binds to a record under a descriptor that
/// keeps its keys apart, and the record is written, the written object
/// binds to the same record.
pub proof fn law_binding_again_gives_the_same(
    node: NodeView,
    record: RecordDescriptorView,
    era: Era,
    budget: nat,
)
    requires
        settled(record),
    ensures
        bind_spec(node, record, era, budget) matches Ok(value) ==> (written_record(
            value,
            record,
            era,
        ) matches Some(again) ==> bind_spec(again, record, era, budget) == Ok::<
            ValueView,
            DecodeErrorView,
        >(value)),
{
    if bind_spec(node, record, era, budget) is Ok && written_record(
        bind_spec(node, record, era, budget)->Ok_0,
        record,
        era,
    ) is Some {
        lemma_binds_again(node, record, era, budget);
    }
}

} // verus!
