//! Laws of the binder: what holds of every token tree and every schema.

use vstd::prelude::*;
use crate::date::Era;
use crate::decoders::id_of;
use crate::error::{failure, named, DecodeErrorView, FieldErrorKind, FieldErrorView};
use crate::number::{decimal_of, rescaled, Transform};
use crate::schema::{Cardinality, FieldDescriptorView, HintView, RecordDescriptorView};
use crate::semantics::{
    bind_spec,
    decode_spec,
    field_reads,
    field_spec,
    fields_spec,
    key_matches,
    last_match,
    members_spec,
    occurrences_spec,
};
use crate::token::{EntryView, NodeView};
use crate::value::{KeyedValueView, ValueView};

verus! {

/// Whether some field of the record reads an entry written under `key`.
pub open spec fn record_reads(record: RecordDescriptorView, key: Seq<u8>) -> bool {
    exists|i: int| 0 <= i < record.fields.len() && field_reads(#[trigger] record.fields[i], key)
}

/// The entries of an object that a field reads, in the order written.
pub open spec fn read_by(entries: Seq<EntryView>, field: FieldDescriptorView) -> Seq<EntryView> {
    entries.filter(|entry: EntryView| field_reads(field, entry.key))
}

/// The entries of an object that some field of the record reads, in the
/// order written.
pub open spec fn kept_by(entries: Seq<EntryView>, record: RecordDescriptorView) -> Seq<EntryView> {
    entries.filter(|entry: EntryView| record_reads(record, entry.key))
}

/// Where no key among the first `upto` entries matches, there is no last
/// match.
proof fn lemma_no_match(entries: Seq<EntryView>, aliases: Seq<Seq<char>>, upto: int)
    requires
        0 <= upto <= entries.len(),
        forall|i: int| 0 <= i < upto ==> !key_matches(#[trigger] entries[i].key, aliases),
    ensures
        last_match(entries, aliases, upto) == -1,
    decreases upto,
{
    if upto > 0 {
        lemma_no_match(entries, aliases, upto - 1);
    }
}

/// An optional field whose keys do not occur in the object is bound to
/// absent, and so is never a failure.
pub proof fn law_optional_without_key_is_absent(
    entries: Seq<EntryView>,
    field: FieldDescriptorView,
    era: Era,
    budget: nat,
)
    requires
        field.cardinality == Cardinality::Optional,
        forall|i: int|
            0 <= i < entries.len() ==> !key_matches(#[trigger] entries[i].key, field.aliases),
    ensures
        field_spec(entries, field, era, budget) == Ok::<ValueView, DecodeErrorView>(
            ValueView::Absent,
        ),
{
    lemma_no_match(entries, field.aliases, entries.len() as int);
}

/// The occurrences among the first entries and the state reached on them:
/// while all is well there is one value for each occurrence, in order, and
/// an error means that some occurrence did not decode.
proof fn lemma_occurrences_upto(
    entries: Seq<EntryView>,
    field: FieldDescriptorView,
    upto: int,
    era: Era,
    budget: nat,
)
    requires
        0 <= upto <= entries.len(),
        field.cardinality == Cardinality::Duplicated,
    ensures
        ({
            let hits = read_by(entries.take(upto), field);
            let state = occurrences_spec(entries, field, upto, era, budget);
            &&& state matches Ok(values) ==> {
                &&& values.len() == hits.len()
                &&& forall|k: int|
                    0 <= k < hits.len() ==> decode_spec(hits[k].node, field.hint, era, budget)
                        == Ok::<ValueView, DecodeErrorView>(#[trigger] values[k])
            }
            &&& state is Err ==> exists|k: int|
                0 <= k < hits.len() && (#[trigger] decode_spec(
                    hits[k].node,
                    field.hint,
                    era,
                    budget,
                )) is Err
        }),
    decreases upto,
{
    reveal(Seq::filter);
    if upto > 0 {
        lemma_occurrences_upto(entries, field, upto - 1, era, budget);
        let before = read_by(entries.take(upto - 1), field);
        let hits = read_by(entries.take(upto), field);
        let last = entries[upto - 1];
        assert(entries.take(upto).drop_last() =~= entries.take(upto - 1));
        assert(entries.take(upto).last() == last);
        let earlier = occurrences_spec(entries, field, upto - 1, era, budget);
        let state = occurrences_spec(entries, field, upto, era, budget);
        if key_matches(last.key, field.aliases) {
            assert(hits == before.push(last));
            let outcome = decode_spec(last.node, field.hint, era, budget);
            if earlier is Err {
                let k = choose|k: int|
                    0 <= k < before.len() && (#[trigger] decode_spec(
                        before[k].node,
                        field.hint,
                        era,
                        budget,
                    )) is Err;
                assert(hits[k] == before[k]);
                assert(decode_spec(hits[k].node, field.hint, era, budget) is Err);
            } else if outcome is Err {
                assert(hits[before.len() as int] == last);
                assert(decode_spec(hits[before.len() as int].node, field.hint, era, budget) is Err);
            } else {
                let values = state->Ok_0;
                assert forall|k: int| 0 <= k < hits.len() implies decode_spec(
                    hits[k].node,
                    field.hint,
                    era,
                    budget,
                ) == Ok::<ValueView, DecodeErrorView>(#[trigger] values[k]) by {
                    if k < before.len() {
                        assert(hits[k] == before[k]);
                        assert(values[k] == earlier->Ok_0[k]);
                    }
                }
            }
        } else {
            assert(hits == before);
        }
    } else {
        assert(entries.take(0) =~= Seq::<EntryView>::empty());
    }
}

/// A repeated field whose key occurs N times is bound to a list of N
/// values, the k-th of them decoded from the k-th occurrence; and it is
/// bound to such a list whenever every occurrence decodes.
pub proof fn law_repeated_field_keeps_count_and_order(
    entries: Seq<EntryView>,
    field: FieldDescriptorView,
    era: Era,
    budget: nat,
)
    requires
        field.cardinality == Cardinality::Duplicated,
    ensures
        ({
            let hits = read_by(entries, field);
            let bound = field_spec(entries, field, era, budget);
            &&& bound matches Ok(value) ==> {
                &&& value matches ValueView::List(items)
                &&& items.len() == hits.len()
                &&& forall|k: int|
                    0 <= k < hits.len() ==> decode_spec(hits[k].node, field.hint, era, budget)
                        == Ok::<ValueView, DecodeErrorView>(
                        #[trigger] value->List_0[k],
                    )
            }
            &&& (forall|k: int|
                0 <= k < hits.len() ==> (#[trigger] decode_spec(
                    hits[k].node,
                    field.hint,
                    era,
                    budget,
                )) is Ok) ==> bound is Ok
        }),
{
    lemma_occurrences_upto(entries, field, entries.len() as int, era, budget);
    assert(entries.take(entries.len() as int) =~= entries);
}

/// The last match among the first entries is the last of the entries that
/// the field reads among them.
proof fn lemma_last_match_is_last_read(
    entries: Seq<EntryView>,
    field: FieldDescriptorView,
    upto: int,
)
    requires
        0 <= upto <= entries.len(),
        field.cardinality != Cardinality::Keyed,
    ensures
        ({
            let read = read_by(entries.take(upto), field);
            let hit = last_match(entries, field.aliases, upto);
            &&& -1 <= hit < upto
            &&& hit == -1 <==> read.len() == 0
            &&& hit >= 0 ==> entries[hit] == read.last()
        }),
    decreases upto,
{
    reveal(Seq::filter);
    if upto > 0 {
        lemma_last_match_is_last_read(entries, field, upto - 1);
        assert(entries.take(upto).drop_last() =~= entries.take(upto - 1));
        assert(entries.take(upto).last() == entries[upto - 1]);
    } else {
        assert(entries.take(0) =~= Seq::<EntryView>::empty());
    }
}

/// Among entries that all match, the last match is the last entry.
proof fn lemma_last_match_of_matching(entries: Seq<EntryView>, aliases: Seq<Seq<char>>)
    requires
        forall|i: int| 0 <= i < entries.len() ==> key_matches(#[trigger] entries[i].key, aliases),
    ensures
        last_match(entries, aliases, entries.len() as int) == entries.len() - 1,
{
}

/// The state reached on the first entries depends on those entries alone.
proof fn lemma_occurrences_prefix(
    a: Seq<EntryView>,
    b: Seq<EntryView>,
    field: FieldDescriptorView,
    upto: int,
    era: Era,
    budget: nat,
)
    requires
        0 <= upto <= a.len(),
        upto <= b.len(),
        a.take(upto) == b.take(upto),
    ensures
        occurrences_spec(a, field, upto, era, budget) == occurrences_spec(
            b,
            field,
            upto,
            era,
            budget,
        ),
    decreases upto,
{
    if upto > 0 {
        assert(a.take(upto - 1) =~= a.take(upto).take(upto - 1));
        assert(b.take(upto - 1) =~= b.take(upto).take(upto - 1));
        assert(a[upto - 1] == a.take(upto)[upto - 1]);
        assert(b[upto - 1] == b.take(upto)[upto - 1]);
        lemma_occurrences_prefix(a, b, field, upto - 1, era, budget);
    }
}

/// The members gathered from the first entries depend on those entries
/// alone.
proof fn lemma_members_prefix(
    a: Seq<EntryView>,
    b: Seq<EntryView>,
    field: FieldDescriptorView,
    upto: int,
    era: Era,
    budget: nat,
)
    requires
        0 <= upto <= a.len(),
        upto <= b.len(),
        a.take(upto) == b.take(upto),
    ensures
        members_spec(a, field, upto, era, budget) == members_spec(b, field, upto, era, budget),
    decreases upto,
{
    if upto > 0 {
        assert(a.take(upto - 1) =~= a.take(upto).take(upto - 1));
        assert(b.take(upto - 1) =~= b.take(upto).take(upto - 1));
        assert(a[upto - 1] == a.take(upto)[upto - 1]);
        assert(b[upto - 1] == b.take(upto)[upto - 1]);
        lemma_members_prefix(a, b, field, upto - 1, era, budget);
    }
}

/// The occurrences of a repeated field decode as they do when every other
/// entry is left out.
proof fn lemma_occurrences_of_read(
    entries: Seq<EntryView>,
    field: FieldDescriptorView,
    upto: int,
    era: Era,
    budget: nat,
)
    requires
        0 <= upto <= entries.len(),
        field.cardinality == Cardinality::Duplicated,
    ensures
        ({
            let read = read_by(entries.take(upto), field);
            occurrences_spec(entries, field, upto, era, budget) == occurrences_spec(
                read,
                field,
                read.len() as int,
                era,
                budget,
            )
        }),
    decreases upto,
{
    reveal(Seq::filter);
    if upto > 0 {
        lemma_occurrences_of_read(entries, field, upto - 1, era, budget);
        let before = read_by(entries.take(upto - 1), field);
        let read = read_by(entries.take(upto), field);
        assert(entries.take(upto).drop_last() =~= entries.take(upto - 1));
        assert(entries.take(upto).last() == entries[upto - 1]);
        if key_matches(entries[upto - 1].key, field.aliases) {
            assert(read == before.push(entries[upto - 1]));
            assert(read.take(before.len() as int) =~= before);
            assert(before.take(before.len() as int) =~= before);
            lemma_occurrences_prefix(read, before, field, before.len() as int, era, budget);
        }
    } else {
        assert(entries.take(0) =~= Seq::<EntryView>::empty());
    }
}

/// The members of a keyed collection decode as they do when every other
/// entry is left out.
proof fn lemma_members_of_read(
    entries: Seq<EntryView>,
    field: FieldDescriptorView,
    upto: int,
    era: Era,
    budget: nat,
)
    requires
        0 <= upto <= entries.len(),
        field.cardinality == Cardinality::Keyed,
    ensures
        ({
            let read = read_by(entries.take(upto), field);
            members_spec(entries, field, upto, era, budget) == members_spec(
                read,
                field,
                read.len() as int,
                era,
                budget,
            )
        }),
    decreases upto,
{
    reveal(Seq::filter);
    if upto > 0 {
        lemma_members_of_read(entries, field, upto - 1, era, budget);
        let before = read_by(entries.take(upto - 1), field);
        let read = read_by(entries.take(upto), field);
        assert(entries.take(upto).drop_last() =~= entries.take(upto - 1));
        assert(entries.take(upto).last() == entries[upto - 1]);
        if id_of(entries[upto - 1].key) is Some {
            assert(read == before.push(entries[upto - 1]));
            assert(read.take(before.len() as int) =~= before);
            assert(before.take(before.len() as int) =~= before);
            lemma_members_prefix(read, before, field, before.len() as int, era, budget);
        }
    } else {
        assert(entries.take(0) =~= Seq::<EntryView>::empty());
    }
}

/// A field is bound as it is when the object holds only the entries that
/// the field reads.
pub proof fn law_field_sees_only_what_it_reads(
    entries: Seq<EntryView>,
    field: FieldDescriptorView,
    era: Era,
    budget: nat,
)
    ensures
        field_spec(entries, field, era, budget) == field_spec(
            read_by(entries, field),
            field,
            era,
            budget,
        ),
{
    let read = read_by(entries, field);
    assert(entries.take(entries.len() as int) =~= entries);
    match field.cardinality {
        Cardinality::Duplicated => {
            lemma_occurrences_of_read(entries, field, entries.len() as int, era, budget);
        },
        Cardinality::Keyed => {
            lemma_members_of_read(entries, field, entries.len() as int, era, budget);
        },
        _ => {
            lemma_last_match_is_last_read(entries, field, entries.len() as int);
            assert forall|i: int| 0 <= i < read.len() implies key_matches(
                #[trigger] read[i].key,
                field.aliases,
            ) by {
                entries.lemma_filter_pred(|entry: EntryView| field_reads(field, entry.key), i);
            }
            lemma_last_match_of_matching(read, field.aliases);
        },
    }
}

/// Filtering by a condition and then by a stronger one is filtering by the
/// stronger one.
proof fn lemma_filter_twice(
    entries: Seq<EntryView>,
    wide: spec_fn(EntryView) -> bool,
    narrow: spec_fn(EntryView) -> bool,
)
    requires
        forall|entry: EntryView| #[trigger] narrow(entry) ==> wide(entry),
    ensures
        entries.filter(wide).filter(narrow) == entries.filter(narrow),
    decreases entries.len(),
{
    reveal(Seq::filter);
    if entries.len() > 0 {
        lemma_filter_twice(entries.drop_last(), wide, narrow);
        let kept = entries.drop_last().filter(wide);
        if wide(entries.last()) {
            assert(kept.push(entries.last()).drop_last() =~= kept);
        }
    }
}

/// The fields of a record are bound as they are when the object holds only
/// the entries that some field reads.
proof fn lemma_fields_see_only_kept(
    entries: Seq<EntryView>,
    record: RecordDescriptorView,
    upto: int,
    era: Era,
    budget: nat,
)
    requires
        0 <= upto <= record.fields.len(),
    ensures
        fields_spec(entries, record, upto, era, budget) == fields_spec(
            kept_by(entries, record),
            record,
            upto,
            era,
            budget,
        ),
    decreases upto,
{
    if upto > 0 {
        lemma_fields_see_only_kept(entries, record, upto - 1, era, budget);
        let field = record.fields[upto - 1];
        let kept = kept_by(entries, record);
        law_field_sees_only_what_it_reads(entries, field, era, budget);
        law_field_sees_only_what_it_reads(kept, field, era, budget);
        lemma_filter_twice(
            entries,
            |entry: EntryView| record_reads(record, entry.key),
            |entry: EntryView| field_reads(field, entry.key),
        );
    }
}

/// Entries under keys that no field of the descriptor reads are ignored: an
/// object binds exactly as it does without them, so they cause no failure
/// and leave no trace in the record.
pub proof fn law_unread_keys_are_ignored(
    entries: Seq<EntryView>,
    record: RecordDescriptorView,
    era: Era,
    budget: nat,
)
    ensures
        bind_spec(NodeView::Object(entries), record, era, budget) == bind_spec(
            NodeView::Object(kept_by(entries, record)),
            record,
            era,
            budget,
        ),
{
    if budget > 0 {
        lemma_fields_see_only_kept(
            entries,
            record,
            record.fields.len() as int,
            era,
            (budget - 1) as nat,
        );
    }
}

/// Of a field that is bound to one value, the last occurrence is the one
/// that counts: earlier ones are not even decoded. Without an occurrence an
/// optional field is absent and a required field is missing.
pub proof fn law_last_occurrence_wins(
    entries: Seq<EntryView>,
    field: FieldDescriptorView,
    era: Era,
    budget: nat,
)
    requires
        field.cardinality == Cardinality::Optional || field.cardinality == Cardinality::Required,
    ensures
        ({
            let read = read_by(entries, field);
            let bound = field_spec(entries, field, era, budget);
            &&& read.len() > 0 ==> bound == (match decode_spec(
                read.last().node,
                field.hint,
                era,
                budget,
            ) {
                Ok(value) => Ok(
                    if field.cardinality == Cardinality::Optional {
                        ValueView::Present(Box::new(value))
                    } else {
                        value
                    },
                ),
                Err(error) => Err(named(field.name, error)),
            })
            &&& read.len() == 0 ==> bound == (if field.cardinality == Cardinality::Optional {
                Ok(ValueView::Absent)
            } else {
                Err(named(field.name, failure(FieldErrorKind::MissingField)))
            })
        }),
{
    lemma_last_match_is_last_read(entries, field, entries.len() as int);
    assert(entries.take(entries.len() as int) =~= entries);
}

/// The depth or shape error of the first among the first `upto` fields that
/// ends in one.
pub open spec fn first_abort(
    entries: Seq<EntryView>,
    record: RecordDescriptorView,
    upto: int,
    era: Era,
    budget: nat,
) -> Option<DecodeErrorView>
    decreases upto,
{
    if upto <= 0 || upto > record.fields.len() {
        None
    } else {
        match first_abort(entries, record, upto - 1, era, budget) {
            Some(error) => Some(error),
            None => match field_spec(entries, record.fields[upto - 1], era, budget) {
                Err(DecodeErrorView::Fields(_)) => None,
                Err(error) => Some(error),
                Ok(_) => None,
            },
        }
    }
}

/// Whether each of the first `upto` fields is bound to a value.
pub open spec fn all_bound(
    entries: Seq<EntryView>,
    record: RecordDescriptorView,
    upto: int,
    era: Era,
    budget: nat,
) -> bool
    decreases upto,
{
    if upto <= 0 || upto > record.fields.len() {
        true
    } else {
        all_bound(entries, record, upto - 1, era, budget) && field_spec(
            entries,
            record.fields[upto - 1],
            era,
            budget,
        ) is Ok
    }
}

/// The values that the first `upto` fields are bound to, field after field.
pub open spec fn values_of(
    entries: Seq<EntryView>,
    record: RecordDescriptorView,
    upto: int,
    era: Era,
    budget: nat,
) -> Seq<ValueView>
    decreases upto,
{
    if upto <= 0 || upto > record.fields.len() {
        Seq::empty()
    } else {
        values_of(entries, record, upto - 1, era, budget).push(
            field_spec(entries, record.fields[upto - 1], era, budget)->Ok_0,
        )
    }
}

/// The failures that the first `upto` fields report, field after field.
pub open spec fn failures_of(
    entries: Seq<EntryView>,
    record: RecordDescriptorView,
    upto: int,
    era: Era,
    budget: nat,
) -> Seq<FieldErrorView>
    decreases upto,
{
    if upto <= 0 || upto > record.fields.len() {
        Seq::empty()
    } else {
        failures_of(entries, record, upto - 1, era, budget) + (match field_spec(
            entries,
            record.fields[upto - 1],
            era,
            budget,
        ) {
            Err(DecodeErrorView::Fields(errors)) => errors,
            _ => Seq::empty(),
        })
    }
}

/// The fields of a record are bound independently and nothing is lost.
/// Where no field ends in a depth or shape error, the record holds the
/// value of every field, in order, if every field is bound; otherwise the
/// report holds the failures of every field that failed, field after field,
/// whatever the other fields did. A depth or shape error is that of the
/// first field that ends in one.
pub proof fn law_record_gathers_every_field(
    entries: Seq<EntryView>,
    record: RecordDescriptorView,
    upto: int,
    era: Era,
    budget: nat,
)
    requires
        0 <= upto <= record.fields.len(),
    ensures
        fields_spec(entries, record, upto, era, budget) == (match first_abort(
            entries,
            record,
            upto,
            era,
            budget,
        ) {
            Some(error) => Err(error),
            None => if all_bound(entries, record, upto, era, budget) {
                Ok(values_of(entries, record, upto, era, budget))
            } else {
                Err(DecodeErrorView::Fields(failures_of(entries, record, upto, era, budget)))
            },
        }),
        first_abort(entries, record, upto, era, budget) matches Some(error)
            ==> error.is_structural(),
        all_bound(entries, record, upto, era, budget) ==> failures_of(
            entries,
            record,
            upto,
            era,
            budget,
        ) == Seq::<FieldErrorView>::empty(),
    decreases upto,
{
    if upto > 0 {
        law_record_gathers_every_field(entries, record, upto - 1, era, budget);
        let before = failures_of(entries, record, upto - 1, era, budget);
        assert(Seq::<FieldErrorView>::empty() + before =~= before);
        assert(before + Seq::<FieldErrorView>::empty() =~= before);
        match field_spec(entries, record.fields[upto - 1], era, budget) {
            Err(DecodeErrorView::Fields(errors)) => {
                assert(Seq::<FieldErrorView>::empty() + errors =~= errors);
            },
            _ => {},
        }
    }
}

/// The members among the first entries, told member by member.
proof fn lemma_members_upto(
    entries: Seq<EntryView>,
    field: FieldDescriptorView,
    upto: int,
    era: Era,
    budget: nat,
)
    requires
        0 <= upto <= entries.len(),
        field.cardinality == Cardinality::Keyed,
    ensures
        ({
            let read = read_by(entries.take(upto), field);
            let state = members_spec(entries, field, upto, era, budget);
            &&& state matches Ok(members) ==> {
                &&& members.len() == read.len()
                &&& forall|k: int|
                    0 <= k < read.len() ==> member_is(
                        #[trigger] members[k],
                        read[k],
                        field,
                        era,
                        budget,
                    )
            }
            &&& state matches Err(error) ==> error.is_structural() && exists|k: int|
                0 <= k < read.len() && #[trigger] decode_spec(read[k].node, field.hint, era, budget)
                    == Err::<ValueView, DecodeErrorView>(error)
        }),
    decreases upto,
{
    reveal(Seq::filter);
    if upto > 0 {
        lemma_members_upto(entries, field, upto - 1, era, budget);
        let before = read_by(entries.take(upto - 1), field);
        let read = read_by(entries.take(upto), field);
        let last = entries[upto - 1];
        assert(entries.take(upto).drop_last() =~= entries.take(upto - 1));
        assert(entries.take(upto).last() == last);
        let earlier = members_spec(entries, field, upto - 1, era, budget);
        let state = members_spec(entries, field, upto, era, budget);
        if id_of(last.key) is Some {
            assert(read == before.push(last));
            match earlier {
                Ok(members) => {
                    match state {
                        Ok(now) => {
                            assert forall|k: int| 0 <= k < read.len() implies member_is(
                                #[trigger] now[k],
                                read[k],
                                field,
                                era,
                                budget,
                            ) by {
                                if k < before.len() {
                                    assert(now[k] == members[k]);
                                    assert(read[k] == before[k]);
                                }
                            }
                        },
                        Err(error) => {
                            assert(read[before.len() as int] == last);
                            assert(decode_spec(
                                read[before.len() as int].node,
                                field.hint,
                                era,
                                budget,
                            ) == Err::<ValueView, DecodeErrorView>(error));
                        },
                    }
                },
                Err(error) => {
                    let k = choose|k: int|
                        0 <= k < before.len() && #[trigger] decode_spec(
                            before[k].node,
                            field.hint,
                            era,
                            budget,
                        ) == Err::<ValueView, DecodeErrorView>(error);
                    assert(read[k] == before[k]);
                    assert(decode_spec(read[k].node, field.hint, era, budget) == Err::<
                        ValueView,
                        DecodeErrorView,
                    >(error));
                },
            }
        } else {
            assert(read == before);
        }
    } else {
        assert(entries.take(0) =~= Seq::<EntryView>::empty());
    }
}

/// Whether `member` is what the entry `entry` of a keyed collection decodes
/// to: it stands under the number that the key spells and holds the
/// entry's value or the failures of its fields.
pub open spec fn member_is(
    member: KeyedValueView,
    entry: EntryView,
    field: FieldDescriptorView,
    era: Era,
    budget: nat,
) -> bool {
    &&& id_of(entry.key) == Some(member.key)
    &&& match decode_spec(entry.node, field.hint, era, budget) {
        Ok(value) => member.outcome == Ok::<ValueView, Seq<FieldErrorView>>(value),
        Err(DecodeErrorView::Fields(errors)) => member.outcome == Err::<
            ValueView,
            Seq<FieldErrorView>,
        >(errors),
        Err(_) => false,
    }
}

/// The members of a keyed collection decode independently: the collection
/// has one member for each entry under a whole number, in the order
/// written, and a member whose fields fail holds its failures and keeps no
/// other member from decoding. Only a depth or shape error inside a member
/// ends the collection.
pub proof fn law_members_decode_independently(
    entries: Seq<EntryView>,
    field: FieldDescriptorView,
    era: Era,
    budget: nat,
)
    requires
        field.cardinality == Cardinality::Keyed,
    ensures
        ({
            let read = read_by(entries, field);
            let bound = field_spec(entries, field, era, budget);
            &&& bound matches Ok(value) ==> {
                &&& value matches ValueView::Keyed(members)
                &&& value->Keyed_0.len() == read.len()
                &&& forall|k: int|
                    0 <= k < read.len() ==> member_is(
                        #[trigger] value->Keyed_0[k],
                        read[k],
                        field,
                        era,
                        budget,
                    )
            }
            &&& bound matches Err(error) ==> error.is_structural() && exists|k: int|
                0 <= k < read.len() && #[trigger] decode_spec(read[k].node, field.hint, era, budget)
                    == Err::<ValueView, DecodeErrorView>(error)
        }),
{
    lemma_members_upto(entries, field, entries.len() as int, era, budget);
    assert(entries.take(entries.len() as int) =~= entries);
}

/// A number is changed by a transform only under a hint that names the
/// transform: a plain number is the number written, whatever transforms
/// other fields carry.
pub proof fn law_only_a_reencoded_field_is_transformed(
    raw: Seq<u8>,
    transform: Transform,
    era: Era,
    budget: nat,
)
    ensures
        decode_spec(NodeView::Scalar(raw), HintView::Number, era, budget) == (match decimal_of(
            raw,
        ) {
            Some(number) => Ok(ValueView::Number(number)),
            None => Err(failure(FieldErrorKind::TypeMismatch)),
        }),
        decode_spec(NodeView::Scalar(raw), HintView::Reencoded(transform), era, budget) == (
        match decimal_of(raw) {
            Some(number) => match rescaled(number, transform) {
                Some(scaled) => Ok(ValueView::Number(scaled)),
                None => Err(failure(FieldErrorKind::TransformError)),
            },
            None => Err(failure(FieldErrorKind::TypeMismatch)),
        }),
{
}

} // verus!
