//! Writing bound values back as token trees, the way a schema reads them.

use vstd::prelude::*;
use vstd::utf8::encode_utf8;
use crate::date::Era;
use crate::decoders::{decode_text, utf8_text};
use crate::number::unscaled;
use crate::schema::{
    fields_view,
    lemma_record_view,
    Cardinality,
    FieldDescriptor,
    FieldDescriptorView,
    Hint,
    HintView,
    RecordDescriptor,
    RecordDescriptorView,
};
use crate::token::{
    copy_bytes,
    entries_view,
    lemma_node_view,
    nodes_view,
    Entry,
    EntryView,
    Node,
    NodeView,
};
use crate::value::{
    lemma_keyed_view,
    lemma_list_view,
    members_view,
    values_view,
    KeyedValue,
    KeyedValueView,
    Value,
    ValueView,
};
use crate::writers::{
    bool_text,
    can_write,
    date_text,
    decimal_text,
    digits_of,
    write_bool,
    write_date,
    write_decimal,
    write_digits,
};

verus! {

/// The token that spells a text, for a text that reading the token gives
/// back.
pub open spec fn text_token(text: Seq<char>) -> Option<Seq<u8>> {
    if utf8_text(encode_utf8(text)) == text {
        Some(encode_utf8(text))
    } else {
        None
    }
}

/// The key under which a field is written: the first of its keys.
pub open spec fn written_key(field: FieldDescriptorView) -> Seq<u8> {
    encode_utf8(field.aliases[0])
}

/// The node that spells a value under a hint, where there is one: a value
/// of another kind than the hint reads has none, nor has a text that would
/// not be read back, a date that the era cannot spell or a number that the
/// field's transform does not produce.
pub open spec fn written(value: ValueView, hint: HintView, era: Era) -> Option<NodeView>
    decreases value, 2nat, 0nat,
{
    match hint {
        HintView::Number => match value {
            ValueView::Number(number) => Some(NodeView::Scalar(decimal_text(number))),
            _ => None,
        },
        HintView::Reencoded(transform) => match value {
            ValueView::Number(number) => match unscaled(number, transform) {
                Some(plain) => Some(NodeView::Scalar(decimal_text(plain))),
                None => None,
            },
            _ => None,
        },
        HintView::Text => match value {
            ValueView::Text(text) => match text_token(text) {
                Some(raw) => Some(NodeView::Scalar(raw)),
                None => None,
            },
            _ => None,
        },
        HintView::Boolean => match value {
            ValueView::Bool(flag) => Some(NodeView::Scalar(bool_text(flag))),
            _ => None,
        },
        HintView::Date => match value {
            ValueView::Date(date) => if can_write(date, era) {
                Some(NodeView::Scalar(date_text(date, era)))
            } else {
                None
            },
            _ => None,
        },
        HintView::Nested(record) => written_record(value, record, era),
        HintView::List(item) => match value {
            ValueView::List(items) => match written_items(items, *item, items.len() as int, era) {
                Some(nodes) => Some(NodeView::Array(nodes)),
                None => None,
            },
            _ => None,
        },
    }
}

/// The nodes that spell the first `upto` items of a list.
pub open spec fn written_items(
    items: Seq<ValueView>,
    hint: HintView,
    upto: int,
    era: Era,
) -> Option<Seq<NodeView>>
    decreases items, 0nat, upto,
{
    if upto <= 0 || upto > items.len() {
        Some(Seq::empty())
    } else {
        match (written_items(items, hint, upto - 1, era), written(items[upto - 1], hint, era)) {
            (Some(nodes), Some(node)) => Some(nodes.push(node)),
            _ => None,
        }
    }
}

/// The object that spells a record: the entries of its fields, field after
/// field in the descriptor's order.
pub open spec fn written_record(value: ValueView, record: RecordDescriptorView, era: Era) -> Option<
    NodeView,
>
    decreases value, 1nat, 0nat,
{
    match value {
        ValueView::Record(values) => if values.len() == record.fields.len() {
            match written_fields(values, record, values.len() as int, era) {
                Some(entries) => Some(NodeView::Object(entries)),
                None => None,
            }
        } else {
            None
        },
        _ => None,
    }
}

/// The entries that spell the first `upto` fields of a record.
pub open spec fn written_fields(
    values: Seq<ValueView>,
    record: RecordDescriptorView,
    upto: int,
    era: Era,
) -> Option<Seq<EntryView>>
    decreases values, 0nat, upto,
{
    if upto <= 0 || upto > values.len() || upto > record.fields.len() {
        Some(Seq::empty())
    } else {
        match (
            written_fields(values, record, upto - 1, era),
            written_field(values[upto - 1], record.fields[upto - 1], era),
        ) {
            (Some(entries), Some(more)) => Some(entries + more),
            _ => None,
        }
    }
}

/// The entries that spell one field: none for an absent field, one for a
/// field with one value, one for each occurrence of a repeated field, all
/// under the field's first key, and one for each member of a keyed
/// collection, under the member's number. A member that holds failures has
/// no entry, and neither has a field without a key.
pub open spec fn written_field(value: ValueView, field: FieldDescriptorView, era: Era) -> Option<
    Seq<EntryView>,
>
    decreases value, 3nat, 0nat,
{
    match field.cardinality {
        Cardinality::Keyed => match value {
            ValueView::Keyed(members) => written_members(
                members,
                field,
                members.len() as int,
                era,
            ),
            _ => None,
        },
        _ => if field.aliases.len() == 0 {
            None
        } else {
            match field.cardinality {
                Cardinality::Optional => match value {
                    ValueView::Absent => Some(Seq::empty()),
                    ValueView::Present(inner) => match written(*inner, field.hint, era) {
                        Some(node) => Some(
                            Seq::empty().push(EntryView { key: written_key(field), node }),
                        ),
                        None => None,
                    },
                    _ => None,
                },
                Cardinality::Duplicated => match value {
                    ValueView::List(items) => written_occurrences(
                        items,
                        field,
                        items.len() as int,
                        era,
                    ),
                    _ => None,
                },
                _ => match written(value, field.hint, era) {
                    Some(node) => Some(
                        Seq::empty().push(EntryView { key: written_key(field), node }),
                    ),
                    None => None,
                },
            }
        },
    }
}

/// The entries that spell the first `upto` occurrences of a repeated
/// field.
pub open spec fn written_occurrences(
    items: Seq<ValueView>,
    field: FieldDescriptorView,
    upto: int,
    era: Era,
) -> Option<Seq<EntryView>>
    decreases items, 0nat, upto,
{
    if upto <= 0 || upto > items.len() {
        Some(Seq::empty())
    } else {
        match (
            written_occurrences(items, field, upto - 1, era),
            written(items[upto - 1], field.hint, era),
        ) {
            (Some(entries), Some(node)) => Some(
                entries.push(EntryView { key: written_key(field), node }),
            ),
            _ => None,
        }
    }
}

/// The entries that spell the first `upto` members of a keyed collection.
pub open spec fn written_members(
    members: Seq<KeyedValueView>,
    field: FieldDescriptorView,
    upto: int,
    era: Era,
) -> Option<Seq<EntryView>>
    decreases members, 0nat, upto,
{
    if upto <= 0 || upto > members.len() {
        Some(Seq::empty())
    } else {
        match (written_members(members, field, upto - 1, era), members[upto - 1].outcome) {
            (Some(entries), Ok(value)) => match written(value, field.hint, era) {
                Some(node) => Some(
                    entries.push(EntryView { key: digits_of(members[upto - 1].key as nat), node }),
                ),
                None => None,
            },
            _ => None,
        }
    }
}

/// The mathematical value of an optional run of bytes.
pub open spec fn bytes_view(o: Option<Vec<u8>>) -> Option<Seq<u8>> {
    match o {
        Some(bytes) => Some(bytes@),
        None => None,
    }
}

/// The mathematical value of an optional node.
pub open spec fn node_view_of(o: Option<Node>) -> Option<NodeView> {
    match o {
        Some(node) => Some(node@),
        None => None,
    }
}

/// The mathematical value of an optional run of entries.
pub open spec fn entries_view_of(o: Option<Vec<Entry>>) -> Option<Seq<EntryView>> {
    match o {
        Some(entries) => Some(entries_view(entries@)),
        None => None,
    }
}

/// Once an item has no node, the list has none.
proof fn lemma_items_unwritten(
    items: Seq<ValueView>,
    hint: HintView,
    from: int,
    upto: int,
    era: Era,
)
    requires
        0 <= from <= upto <= items.len(),
        written_items(items, hint, from, era) is None,
    ensures
        written_items(items, hint, upto, era) is None,
    decreases upto - from,
{
    if from < upto {
        lemma_items_unwritten(items, hint, from, upto - 1, era);
    }
}

/// Once a field has no entries, the record has none.
proof fn lemma_fields_unwritten(
    values: Seq<ValueView>,
    record: RecordDescriptorView,
    from: int,
    upto: int,
    era: Era,
)
    requires
        0 <= from <= upto <= values.len(),
        upto <= record.fields.len(),
        written_fields(values, record, from, era) is None,
    ensures
        written_fields(values, record, upto, era) is None,
    decreases upto - from,
{
    if from < upto {
        lemma_fields_unwritten(values, record, from, upto - 1, era);
    }
}

/// Once an occurrence has no node, the field has no entries.
proof fn lemma_occurrences_unwritten(
    items: Seq<ValueView>,
    field: FieldDescriptorView,
    from: int,
    upto: int,
    era: Era,
)
    requires
        0 <= from <= upto <= items.len(),
        written_occurrences(items, field, from, era) is None,
    ensures
        written_occurrences(items, field, upto, era) is None,
    decreases upto - from,
{
    if from < upto {
        lemma_occurrences_unwritten(items, field, from, upto - 1, era);
    }
}

/// Once a member has no entry, the collection has none.
proof fn lemma_members_unwritten(
    members: Seq<KeyedValueView>,
    field: FieldDescriptorView,
    from: int,
    upto: int,
    era: Era,
)
    requires
        0 <= from <= upto <= members.len(),
        written_members(members, field, from, era) is None,
    ensures
        written_members(members, field, upto, era) is None,
    decreases upto - from,
{
    if from < upto {
        lemma_members_unwritten(members, field, from, upto - 1, era);
    }
}

/// Writes a text as a token; `None` for a text that reading the token would
/// not give back, such as one that ends in a space or holds a backslash.
pub fn write_text(text: &String) -> (r: Option<Vec<u8>>)
    ensures
        bytes_view(r) == text_token(text@),
{
    let raw = copy_bytes(text.as_str().as_bytes());
    let again = decode_text(raw.as_slice());
    if again == *text {
        Some(raw)
    } else {
        None
    }
}

/// Writes a value as the node that a hint reads it from; `None` where the
/// value has no such node.
pub fn write_value(value: &Value, hint: &Hint, era: Era) -> (r: Option<Node>)
    ensures
        node_view_of(r) == written(value@, hint@, era),
    decreases value, 2nat,
{
    match hint {
        Hint::Number => match value {
            Value::Number(number) => Some(Node::Scalar(write_decimal(number))),
            _ => None,
        },
        Hint::Reencoded(transform) => match value {
            Value::Number(number) => match transform.undo(*number) {
                Some(plain) => Some(Node::Scalar(write_decimal(&plain))),
                None => None,
            },
            _ => None,
        },
        Hint::Text => match value {
            Value::Text(text) => match write_text(text) {
                Some(raw) => Some(Node::Scalar(raw)),
                None => None,
            },
            _ => None,
        },
        Hint::Boolean => match value {
            Value::Bool(flag) => Some(Node::Scalar(write_bool(*flag))),
            _ => None,
        },
        Hint::Date => match value {
            Value::Date(date) => match write_date(date, era) {
                Some(raw) => Some(Node::Scalar(raw)),
                None => None,
            },
            _ => None,
        },
        Hint::Nested(record) => write_record(value, record, era),
        Hint::List(item) => match value {
            Value::List(items) => {
                proof {
                    lemma_list_view(*items);
                }
                let ghost views = values_view(items@);
                let mut nodes: Vec<Node> = Vec::new();
                let mut i: usize = 0;
                assert(nodes_view(nodes@) =~= Seq::empty());
                while i < items.len()
                    invariant
                        i <= items.len(),
                        views == values_view(items@),
                        value@ == ValueView::List(views),
                        hint@ == HintView::List(Box::new((**item)@)),
                        decreases_to!(value => items),
                        written_items(views, (**item)@, i as int, era) == Some(nodes_view(nodes@)),
                    decreases items.len() - i,
                {
                    match write_value(&items[i], item, era) {
                        Some(node) => {
                            let ghost before = nodes@;
                            nodes.push(node);
                            assert(nodes_view(nodes@) =~= nodes_view(before).push(node@));
                        },
                        None => {
                            proof {
                                lemma_items_unwritten(
                                    views,
                                    (**item)@,
                                    i as int + 1,
                                    items.len() as int,
                                    era,
                                );
                            }
                            return None;
                        },
                    }
                    i += 1;
                }
                let node = Node::Array(nodes);
                proof {
                    lemma_node_view(node);
                }
                Some(node)
            },
            _ => None,
        },
    }
}

/// Writes a record as the object that its descriptor binds it from; `None`
/// where the value is no record of the descriptor or one of its fields has
/// no entries.
pub fn write_record(value: &Value, record: &RecordDescriptor, era: Era) -> (r: Option<Node>)
    ensures
        node_view_of(r) == written_record(value@, record@, era),
    decreases value, 1nat,
{
    match value {
        Value::Record(values) => {
            proof {
                lemma_list_view(*values);
                lemma_record_view(*record);
            }
            if values.len() != record.fields.len() {
                return None;
            }
            let ghost views = values_view(values@);
            let mut entries: Vec<Entry> = Vec::new();
            let mut i: usize = 0;
            assert(entries_view(entries@) =~= Seq::empty());
            while i < values.len()
                invariant
                    i <= values.len(),
                    values.len() == record.fields.len(),
                    views == values_view(values@),
                    value@ == ValueView::Record(views),
                    record@.fields == fields_view(record.fields@),
                    decreases_to!(value => values),
                    written_fields(views, record@, i as int, era) == Some(entries_view(entries@)),
                decreases values.len() - i,
            {
                match write_field(&values[i], &record.fields[i], era) {
                    Some(mut more) => {
                        let ghost before = entries@;
                        let ghost added = more@;
                        entries.append(&mut more);
                        assert(entries_view(entries@) =~= entries_view(before) + entries_view(
                            added,
                        ));
                    },
                    None => {
                        proof {
                            lemma_fields_unwritten(
                                views,
                                record@,
                                i as int + 1,
                                values.len() as int,
                                era,
                            );
                        }
                        return None;
                    },
                }
                i += 1;
            }
            let node = Node::Object(entries);
            proof {
                lemma_node_view(node);
            }
            Some(node)
        },
        _ => None,
    }
}

/// Writes the entries of one field; `None` where the field has none.
pub fn write_field(value: &Value, field: &FieldDescriptor, era: Era) -> (r: Option<Vec<Entry>>)
    ensures
        entries_view_of(r) == written_field(value@, field@, era),
    decreases value, 3nat,
{
    match field.cardinality {
        Cardinality::Keyed => match value {
            Value::Keyed(members) => {
                proof {
                    lemma_keyed_view(*members);
                }
                let ghost views = members_view(members@);
                let mut entries: Vec<Entry> = Vec::new();
                let mut i: usize = 0;
                assert(entries_view(entries@) =~= Seq::empty());
                while i < members.len()
                    invariant
                        i <= members.len(),
                        views == members_view(members@),
                        value@ == ValueView::Keyed(views),
                        field.cardinality == Cardinality::Keyed,
                        decreases_to!(value => members),
                        written_members(views, field@, i as int, era) == Some(
                            entries_view(entries@),
                        ),
                    decreases members.len() - i,
                {
                    let member: &KeyedValue = &members[i];
                    let node = match &member.outcome {
                        Ok(inner) => write_value(inner, &field.hint, era),
                        Err(_) => None,
                    };
                    match node {
                        Some(node) => {
                            let ghost before = entries@;
                            let entry = Entry { key: write_digits(member.key), node };
                            entries.push(entry);
                            assert(entries_view(entries@) =~= entries_view(before).push(entry@));
                        },
                        None => {
                            proof {
                                lemma_members_unwritten(
                                    views,
                                    field@,
                                    i as int + 1,
                                    members.len() as int,
                                    era,
                                );
                            }
                            return None;
                        },
                    }
                    i += 1;
                }
                Some(entries)
            },
            _ => None,
        },
        Cardinality::Optional => {
            if field.aliases.len() == 0 {
                return None;
            }
            match value {
                Value::Absent => {
                    let entries: Vec<Entry> = Vec::new();
                    assert(entries_view(entries@) =~= Seq::empty());
                    Some(entries)
                },
                Value::Present(inner) => match write_value(inner, &field.hint, era) {
                    Some(node) => Some(one_entry(field, node)),
                    None => None,
                },
                _ => None,
            }
        },
        Cardinality::Duplicated => {
            if field.aliases.len() == 0 {
                return None;
            }
            match value {
                Value::List(items) => {
                    proof {
                        lemma_list_view(*items);
                    }
                    let ghost views = values_view(items@);
                    let mut entries: Vec<Entry> = Vec::new();
                    let mut i: usize = 0;
                    assert(entries_view(entries@) =~= Seq::empty());
                    while i < items.len()
                        invariant
                            i <= items.len(),
                            views == values_view(items@),
                            value@ == ValueView::List(views),
                            field.cardinality == Cardinality::Duplicated,
                            field.aliases.len() > 0,
                            decreases_to!(value => items),
                            written_occurrences(views, field@, i as int, era) == Some(
                                entries_view(entries@),
                            ),
                        decreases items.len() - i,
                    {
                        match write_value(&items[i], &field.hint, era) {
                            Some(node) => {
                                let ghost before = entries@;
                                let entry = Entry { key: key_of(field), node };
                                entries.push(entry);
                                assert(entries_view(entries@) =~= entries_view(before).push(
                                    entry@,
                                ));
                            },
                            None => {
                                proof {
                                    lemma_occurrences_unwritten(
                                        views,
                                        field@,
                                        i as int + 1,
                                        items.len() as int,
                                        era,
                                    );
                                }
                                return None;
                            },
                        }
                        i += 1;
                    }
                    Some(entries)
                },
                _ => None,
            }
        },
        Cardinality::Required => {
            if field.aliases.len() == 0 {
                return None;
            }
            match write_value(value, &field.hint, era) {
                Some(node) => Some(one_entry(field, node)),
                None => None,
            }
        },
    }
}

/// The first key of a field, as bytes.
fn key_of(field: &FieldDescriptor) -> (key: Vec<u8>)
    requires
        field.aliases.len() > 0,
    ensures
        key@ == written_key(field@),
{
    copy_bytes(field.aliases[0].as_str().as_bytes())
}

/// The one entry of a field with one value.
fn one_entry(field: &FieldDescriptor, node: Node) -> (entries: Vec<Entry>)
    requires
        field.aliases.len() > 0,
    ensures
        entries_view(entries@) == Seq::<EntryView>::empty().push(
            EntryView { key: written_key(field@), node: node@ },
        ),
{
    let mut entries: Vec<Entry> = Vec::new();
    entries.push(Entry { key: key_of(field), node });
    assert(entries_view(entries@) =~= Seq::<EntryView>::empty().push(
        EntryView { key: written_key(field@), node: node@ },
    ));
    entries
}

} // verus!
