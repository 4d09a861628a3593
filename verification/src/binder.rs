//! The binder: walks a token tree and binds it into typed values as a
//! schema directs.

use vstd::prelude::*;
use vstd::utf8::encode_utf8;
use crate::date::Era;
use crate::decoders::{decode_scalar, parse_id};
use crate::error::{
    errors_view,
    names_view,
    DecodeError,
    DecodeErrorView,
    FieldError,
    FieldErrorKind,
};
use crate::schema::{
    fields_view,
    lemma_record_view,
    Cardinality,
    Config,
    FieldDescriptor,
    FieldDescriptorView,
    Hint,
    HintView,
    RecordDescriptor,
    RecordDescriptorView,
};
use crate::semantics::{
    absorb,
    bind_spec,
    decode_spec,
    field_spec,
    fields_spec,
    items_spec,
    key_matches,
    last_match,
    members_spec,
    occurrences_spec,
};
use crate::token::{entries_view, lemma_node_view, nodes_view, Entry, EntryView, Node, NodeView};
use crate::value::{
    lemma_keyed_view,
    lemma_list_view,
    members_view,
    values_view,
    KeyedValue,
    KeyedValueView,
    Value,
    ValueView,
};

verus! {

/// The mathematical value of what decoding returns.
pub open spec fn outcome_view(r: Result<Value, DecodeError>) -> Result<ValueView, DecodeErrorView> {
    match r {
        Ok(value) => Ok(value@),
        Err(error) => Err(error@),
    }
}

/// The values and the field failures gathered so far while a run of nodes
/// is decoded.
pub struct Tally {
    pub values: Vec<Value>,
    pub errors: Vec<FieldError>,
    pub failed: bool,
}

impl View for Tally {
    type V = Result<Seq<ValueView>, DecodeErrorView>;

    open spec fn view(&self) -> Result<Seq<ValueView>, DecodeErrorView> {
        if self.failed {
            Err(DecodeErrorView::Fields(errors_view(self.errors@)))
        } else {
            Ok(values_view(self.values@))
        }
    }
}

impl Tally {
    /// Nothing gathered yet.
    pub fn new() -> (tally: Tally)
        ensures
            tally@ == Ok::<Seq<ValueView>, DecodeErrorView>(Seq::empty()),
    {
        let tally = Tally { values: Vec::new(), errors: Vec::new(), failed: false };
        assert(values_view(tally.values@) =~= Seq::empty());
        tally
    }

    /// Takes in one more outcome. A depth or shape error ends the run and is
    /// handed back as `Err`.
    pub fn absorb(self, outcome: Result<Value, DecodeError>) -> (r: Result<Tally, DecodeError>)
        ensures
            match r {
                Ok(tally) => tally@ == absorb(self@, outcome_view(outcome)),
                Err(error) => {
                    &&& error@.is_structural()
                    &&& absorb(self@, outcome_view(outcome)) == Err::<
                        Seq<ValueView>,
                        DecodeErrorView,
                    >(error@)
                },
            },
    {
        let mut tally = self;
        match outcome {
            Ok(value) => {
                if !tally.failed {
                    tally.values.push(value);
                    assert(values_view(tally.values@) =~= values_view(self.values@).push(value@));
                }
                Ok(tally)
            },
            Err(DecodeError::Fields(mut more)) => {
                if tally.failed {
                    let ghost before = tally.errors@;
                    let ghost added = more@;
                    tally.errors.append(&mut more);
                    assert(errors_view(tally.errors@) =~= errors_view(before) + errors_view(added));
                    Ok(tally)
                } else {
                    Ok(Tally { values: tally.values, errors: more, failed: true })
                }
            },
            Err(DecodeError::DepthExceeded) => Err(DecodeError::DepthExceeded),
            Err(DecodeError::UnknownTopLevelShape) => Err(DecodeError::UnknownTopLevelShape),
        }
    }

    /// The values, if no field failed, or the failures.
    pub fn finish(self) -> (r: Result<Vec<Value>, DecodeError>)
        ensures
            match r {
                Ok(values) => self@ == Ok::<Seq<ValueView>, DecodeErrorView>(values_view(values@)),
                Err(error) => self@ == Err::<Seq<ValueView>, DecodeErrorView>(error@),
            },
    {
        if self.failed {
            Err(DecodeError::Fields(self.errors))
        } else {
            Ok(self.values)
        }
    }
}

/// Once a depth or shape error has come up among the items of an array it
/// stays.
pub proof fn lemma_items_abort(
    items: Seq<NodeView>,
    hint: HintView,
    from: int,
    upto: int,
    era: Era,
    budget: nat,
)
    requires
        0 <= from <= upto <= items.len(),
        items_spec(items, hint, from, era, budget) is Err,
        items_spec(items, hint, from, era, budget)->Err_0.is_structural(),
    ensures
        items_spec(items, hint, upto, era, budget) == items_spec(items, hint, from, era, budget),
    decreases upto - from,
{
    if from < upto {
        lemma_items_abort(items, hint, from, upto - 1, era, budget);
    }
}

/// Once a depth or shape error has come up among the fields of a record it
/// stays.
pub proof fn lemma_fields_abort(
    entries: Seq<EntryView>,
    record: RecordDescriptorView,
    from: int,
    upto: int,
    era: Era,
    budget: nat,
)
    requires
        0 <= from <= upto <= record.fields.len(),
        fields_spec(entries, record, from, era, budget) is Err,
        fields_spec(entries, record, from, era, budget)->Err_0.is_structural(),
    ensures
        fields_spec(entries, record, upto, era, budget) == fields_spec(
            entries,
            record,
            from,
            era,
            budget,
        ),
    decreases upto - from,
{
    if from < upto {
        lemma_fields_abort(entries, record, from, upto - 1, era, budget);
    }
}

/// Once a depth or shape error has come up among the occurrences of a
/// repeated field it stays.
pub proof fn lemma_occurrences_abort(
    entries: Seq<EntryView>,
    field: FieldDescriptorView,
    from: int,
    upto: int,
    era: Era,
    budget: nat,
)
    requires
        0 <= from <= upto <= entries.len(),
        occurrences_spec(entries, field, from, era, budget) is Err,
        occurrences_spec(entries, field, from, era, budget)->Err_0.is_structural(),
    ensures
        occurrences_spec(entries, field, upto, era, budget) == occurrences_spec(
            entries,
            field,
            from,
            era,
            budget,
        ),
    decreases upto - from,
{
    if from < upto {
        lemma_occurrences_abort(entries, field, from, upto - 1, era, budget);
    }
}

/// Once a depth or shape error has come up among the members of a keyed
/// collection it stays.
pub proof fn lemma_members_abort(
    entries: Seq<EntryView>,
    field: FieldDescriptorView,
    from: int,
    upto: int,
    era: Era,
    budget: nat,
)
    requires
        0 <= from <= upto <= entries.len(),
        members_spec(entries, field, from, era, budget) is Err,
    ensures
        members_spec(entries, field, upto, era, budget) == members_spec(
            entries,
            field,
            from,
            era,
            budget,
        ),
    decreases upto - from,
{
    if from < upto {
        lemma_members_abort(entries, field, from, upto - 1, era, budget);
    }
}

/// Whether two runs of bytes are the same.
pub fn same_bytes(a: &[u8], b: &[u8]) -> (r: bool)
    ensures
        r == (a@ == b@),
{
    if a.len() != b.len() {
        return false;
    }
    let mut i: usize = 0;
    while i < a.len()
        invariant
            i <= a.len(),
            a.len() == b.len(),
            forall|k: int| 0 <= k < i ==> a@[k] == b@[k],
        decreases a.len() - i,
    {
        if a[i] != b[i] {
            return false;
        }
        i += 1;
    }
    assert(a@ =~= b@);
    true
}

/// Whether `key` is one of the keys under which a field is written.
pub fn key_among(key: &[u8], aliases: &Vec<String>) -> (r: bool)
    ensures
        r == key_matches(key@, names_view(aliases@)),
{
    let mut i: usize = 0;
    while i < aliases.len()
        invariant
            i <= aliases.len(),
            forall|k: int| 0 <= k < i ==> encode_utf8(#[trigger] names_view(aliases@)[k]) != key@,
        decreases aliases.len() - i,
    {
        if same_bytes(aliases[i].as_str().as_bytes(), key) {
            assert(encode_utf8(names_view(aliases@)[i as int]) == key@);
            return true;
        }
        i += 1;
    }
    false
}

/// The index of the last entry whose key is one of `aliases`.
pub fn find_last(entries: &Vec<Entry>, aliases: &Vec<String>) -> (r: Option<usize>)
    ensures
        match r {
            Some(i) => i < entries.len() && i == last_match(
                entries_view(entries@),
                names_view(aliases@),
                entries.len() as int,
            ),
            None => last_match(entries_view(entries@), names_view(aliases@), entries.len() as int)
                == -1,
        },
{
    let mut hit: Option<usize> = None;
    let mut i: usize = 0;
    while i < entries.len()
        invariant
            i <= entries.len(),
            match hit {
                Some(k) => k < i && k == last_match(
                    entries_view(entries@),
                    names_view(aliases@),
                    i as int,
                ),
                None => last_match(entries_view(entries@), names_view(aliases@), i as int) == -1,
            },
        decreases entries.len() - i,
    {
        if key_among(entries[i].key.as_slice(), aliases) {
            hit = Some(i);
        }
        i += 1;
    }
    hit
}

/// Decodes a node by a hint, with `budget` levels of nesting left.
pub fn decode_node(node: &Node, hint: &Hint, era: Era, budget: usize) -> (r: Result<
    Value,
    DecodeError,
>)
    ensures
        outcome_view(r) == decode_spec(node@, hint@, era, budget as nat),
    decreases node, 1nat,
{
    match hint {
        Hint::Nested(record) => bind_record(node, record, era, budget),
        Hint::List(item) => match node {
            Node::Array(items) => {
                proof {
                    lemma_node_view(*node);
                }
                if budget == 0 {
                    return Err(DecodeError::DepthExceeded);
                }
                let ghost views = nodes_view(items@);
                let mut tally = Tally::new();
                let mut i: usize = 0;
                while i < items.len()
                    invariant
                        i <= items.len(),
                        budget > 0,
                        views == nodes_view(items@),
                        node@ == NodeView::Array(views),
                        hint@ == HintView::List(Box::new((**item)@)),
                        decreases_to!(node => items),
                        tally@ == items_spec(views, (**item)@, i as int, era, (budget - 1) as nat),
                    decreases items.len() - i,
                {
                    let outcome = decode_node(&items[i], item, era, budget - 1);
                    match tally.absorb(outcome) {
                        Ok(next) => {
                            tally = next;
                        },
                        Err(error) => {
                            proof {
                                lemma_items_abort(
                                    views,
                                    (**item)@,
                                    i as int + 1,
                                    items.len() as int,
                                    era,
                                    (budget - 1) as nat,
                                );
                            }
                            return Err(error);
                        },
                    }
                    i += 1;
                }
                match tally.finish() {
                    Ok(values) => {
                        proof {
                            lemma_list_view(values);
                        }
                        Ok(Value::List(values))
                    },
                    Err(error) => Err(error),
                }
            },
            _ => Err(DecodeError::single(FieldErrorKind::TypeMismatch)),
        },
        _ => match node {
            Node::Scalar(raw) => match decode_scalar(raw.as_slice(), hint, era) {
                Ok(value) => Ok(value),
                Err(kind) => Err(DecodeError::single(kind)),
            },
            _ => Err(DecodeError::single(FieldErrorKind::TypeMismatch)),
        },
    }
}

/// Binds a node as a record, with `budget` levels of nesting left.
pub fn bind_record(node: &Node, record: &RecordDescriptor, era: Era, budget: usize) -> (r: Result<
    Value,
    DecodeError,
>)
    ensures
        outcome_view(r) == bind_spec(node@, record@, era, budget as nat),
    decreases node, 0nat,
{
    match node {
        Node::Object(entries) => {
            proof {
                lemma_node_view(*node);
                lemma_record_view(*record);
            }
            if budget == 0 {
                return Err(DecodeError::DepthExceeded);
            }
            let ghost views = entries_view(entries@);
            let mut tally = Tally::new();
            let mut i: usize = 0;
            while i < record.fields.len()
                invariant
                    i <= record.fields.len(),
                    budget > 0,
                    views == entries_view(entries@),
                    record@.fields == fields_view(record.fields@),
                    node@ == NodeView::Object(views),
                    decreases_to!(node => entries),
                    tally@ == fields_spec(views, record@, i as int, era, (budget - 1) as nat),
                decreases record.fields.len() - i,
            {
                let outcome = bind_field(entries, &record.fields[i], era, budget - 1);
                match tally.absorb(outcome) {
                    Ok(next) => {
                        tally = next;
                    },
                    Err(error) => {
                        proof {
                            lemma_fields_abort(
                                views,
                                record@,
                                i as int + 1,
                                record.fields.len() as int,
                                era,
                                (budget - 1) as nat,
                            );
                        }
                        return Err(error);
                    },
                }
                i += 1;
            }
            match tally.finish() {
                Ok(values) => {
                    proof {
                        lemma_list_view(values);
                    }
                    Ok(Value::Record(values))
                },
                Err(error) => Err(error),
            }
        },
        _ => Err(DecodeError::UnknownTopLevelShape),
    }
}

/// Binds one field against the entries of an object.
pub fn bind_field(entries: &Vec<Entry>, field: &FieldDescriptor, era: Era, budget: usize) -> (r:
    Result<Value, DecodeError>)
    ensures
        outcome_view(r) == field_spec(entries_view(entries@), field@, era, budget as nat),
    decreases entries,
{
    let ghost views = entries_view(entries@);
    match field.cardinality {
        Cardinality::Optional => match find_last(entries, &field.aliases) {
            Some(hit) => match decode_node(&entries[hit].node, &field.hint, era, budget) {
                Ok(value) => Ok(Value::Present(Box::new(value))),
                Err(error) => Err(error.under(&field.name)),
            },
            None => Ok(Value::Absent),
        },
        Cardinality::Required => match find_last(entries, &field.aliases) {
            Some(hit) => match decode_node(&entries[hit].node, &field.hint, era, budget) {
                Ok(value) => Ok(value),
                Err(error) => Err(error.under(&field.name)),
            },
            None => Err(DecodeError::single(FieldErrorKind::MissingField).under(&field.name)),
        },
        Cardinality::Duplicated => {
            let mut tally = Tally::new();
            let mut i: usize = 0;
            while i < entries.len()
                invariant
                    i <= entries.len(),
                    views == entries_view(entries@),
                    field.cardinality == Cardinality::Duplicated,
                    tally@ == occurrences_spec(views, field@, i as int, era, budget as nat),
                decreases entries.len() - i,
            {
                if key_among(entries[i].key.as_slice(), &field.aliases) {
                    let outcome = decode_node(&entries[i].node, &field.hint, era, budget);
                    match tally.absorb(outcome) {
                        Ok(next) => {
                            tally = next;
                        },
                        Err(error) => {
                            proof {
                                lemma_occurrences_abort(
                                    views,
                                    field@,
                                    i as int + 1,
                                    entries.len() as int,
                                    era,
                                    budget as nat,
                                );
                            }
                            return Err(error);
                        },
                    }
                }
                i += 1;
            }
            match tally.finish() {
                Ok(values) => {
                    proof {
                        lemma_list_view(values);
                    }
                    Ok(Value::List(values))
                },
                Err(error) => Err(error.under(&field.name)),
            }
        },
        Cardinality::Keyed => {
            let mut members: Vec<KeyedValue> = Vec::new();
            let mut i: usize = 0;
            assert(members_view(members@) =~= Seq::empty());
            while i < entries.len()
                invariant
                    i <= entries.len(),
                    views == entries_view(entries@),
                    field.cardinality == Cardinality::Keyed,
                    members_spec(views, field@, i as int, era, budget as nat) == Ok::<
                        Seq<KeyedValueView>,
                        DecodeErrorView,
                    >(members_view(members@)),
                decreases entries.len() - i,
            {
                match parse_id(entries[i].key.as_slice()) {
                    Some(key) => {
                        let ghost before = members@;
                        match decode_node(&entries[i].node, &field.hint, era, budget) {
                            Ok(value) => {
                                members.push(KeyedValue { key, outcome: Ok(value) });
                                assert(members_view(members@) =~= members_view(before).push(
                                    members@[before.len() as int]@,
                                ));
                            },
                            Err(DecodeError::Fields(errors)) => {
                                members.push(KeyedValue { key, outcome: Err(errors) });
                                assert(members_view(members@) =~= members_view(before).push(
                                    members@[before.len() as int]@,
                                ));
                            },
                            Err(error) => {
                                proof {
                                    lemma_members_abort(
                                        views,
                                        field@,
                                        i as int + 1,
                                        entries.len() as int,
                                        era,
                                        budget as nat,
                                    );
                                }
                                return Err(error);
                            },
                        }
                    },
                    None => {},
                }
                i += 1;
            }
            proof {
                lemma_keyed_view(members);
            }
            Ok(Value::Keyed(members))
        },
    }
}

/// Binds an object node into a record as the descriptor directs: one value
/// for each field, in the descriptor's order, nesting no deeper than
/// `config.max_depth`.
pub fn bind(node: &Node, descriptor: &RecordDescriptor, config: &Config) -> (r: Result<
    Value,
    DecodeError,
>)
    ensures
        outcome_view(r) == bind_spec(node@, descriptor@, config.era, config.max_depth as nat),
{
    bind_record(node, descriptor, config.era, config.max_depth)
}

} // verus!
