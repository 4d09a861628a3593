//! The root record of a saved game and the root decoder.

use std::collections::HashMap;
use vstd::prelude::*;
use crate::binder::bind;
use crate::error::{
    errors_view,
    names_view,
    DecodeError,
    DecodeErrorView,
    FieldError,
    FieldErrorView,
};
use crate::models::character::{LivingCharacter, LivingCharacterView};
use crate::record::{Record, Reencodings, seq_view, slot, slot_of};
use crate::schema::{
    Cardinality,
    Config,
    field_schema,
    FieldDescriptor,
    Hint,
    HintView,
    RecordDescriptor,
    RecordDescriptorView,
};
use crate::semantics::bind_spec;
use crate::token::Node;
use crate::value::{
    lemma_keyed_view,
    lemma_list_view,
    members_view,
    values_view,
    KeyedValue,
    KeyedValueView,
    Value,
    ValueView,
};

verus! {

/// A member of a keyed collection that did not decode: the number it is
/// written under and the failures of its fields.
#[derive(Debug, PartialEq, Eq)]
pub struct Rejected {
    pub id: u64,
    pub errors: Vec<FieldError>,
}

/// The mathematical value of a [`Rejected`].
pub struct RejectedView {
    pub id: u64,
    pub errors: Seq<FieldErrorView>,
}

impl View for Rejected {
    type V = RejectedView;

    open spec fn view(&self) -> RejectedView {
        RejectedView { id: self.id, errors: errors_view(self.errors@) }
    }
}

/// A saved game: its metadata, as the metadata's descriptor binds it, the
/// living characters by number, and the characters that did not decode.
#[derive(Debug, PartialEq, Eq)]
pub struct Gamestate {
    pub meta_data: Value,
    pub living: HashMap<u64, LivingCharacter>,
    pub rejected: Vec<Rejected>,
}

/// The mathematical value of a [`Gamestate`].
pub struct GamestateView {
    pub meta_data: ValueView,
    pub living: Map<u64, LivingCharacterView>,
    pub rejected: Seq<RejectedView>,
}

impl View for Gamestate {
    type V = GamestateView;

    open spec fn view(&self) -> GamestateView {
        GamestateView {
            meta_data: self.meta_data@,
            living: self.living@.map_values(|character: LivingCharacter| character@),
            rejected: seq_view(self.rejected@),
        }
    }
}

/// The descriptor of the block that holds the living characters: every
/// entry written under a whole number is a character.
pub open spec fn living_schema(reencodings: Reencodings) -> RecordDescriptorView {
    RecordDescriptorView {
        name: "living"@,
        fields: Seq::empty().push(
            field_schema(
                "character"@,
                Cardinality::Keyed,
                HintView::Nested(LivingCharacter::schema(reencodings)),
            ),
        ),
    }
}

/// The members of the keyed collection that a bound saved game holds for
/// its living characters.
pub open spec fn members_of(value: ValueView) -> Seq<KeyedValueView> {
    match slot_of(value, 1) {
        Some(block) => match slot_of(block, 0) {
            Some(ValueView::Keyed(members)) => members,
            _ => Seq::empty(),
        },
        None => Seq::empty(),
    }
}

/// The characters among the first `upto` members that decoded, by number;
/// of two members under one number the later one stays.
pub open spec fn living_of(members: Seq<KeyedValueView>, upto: int) -> Map<u64, LivingCharacterView>
    decreases upto,
{
    if upto <= 0 || upto > members.len() {
        Map::empty()
    } else {
        match members[upto - 1].outcome {
            Ok(value) => living_of(members, upto - 1).insert(
                members[upto - 1].key,
                LivingCharacter::of(value),
            ),
            Err(_) => living_of(members, upto - 1),
        }
    }
}

/// The members among the first `upto` that did not decode, in the order
/// written.
pub open spec fn rejected_of(members: Seq<KeyedValueView>, upto: int) -> Seq<RejectedView>
    decreases upto,
{
    if upto <= 0 || upto > members.len() {
        Seq::empty()
    } else {
        match members[upto - 1].outcome {
            Ok(_) => rejected_of(members, upto - 1),
            Err(errors) => rejected_of(members, upto - 1).push(
                RejectedView { id: members[upto - 1].key, errors },
            ),
        }
    }
}

/// An owned copy of a run of field errors.
pub fn copy_errors(errors: &Vec<FieldError>) -> (copy: Vec<FieldError>)
    ensures
        errors_view(copy@) == errors_view(errors@),
{
    let mut copy: Vec<FieldError> = Vec::new();
    let mut i: usize = 0;
    while i < errors.len()
        invariant
            i <= errors.len(),
            copy.len() == i,
            forall|k: int| 0 <= k < i ==> (#[trigger] copy[k])@ == errors[k]@,
        decreases errors.len() - i,
    {
        let error: &FieldError = &errors[i];
        let mut path: Vec<String> = Vec::new();
        let mut j: usize = 0;
        while j < error.path.len()
            invariant
                j <= error.path.len(),
                path.len() == j,
                forall|k: int| 0 <= k < j ==> (#[trigger] path[k])@ == error.path[k]@,
            decreases error.path.len() - j,
        {
            path.push(error.path[j].clone());
            j += 1;
        }
        assert(names_view(path@) =~= names_view(error.path@));
        copy.push(FieldError { path, kind: error.kind });
        i += 1;
    }
    assert(errors_view(copy@) =~= errors_view(errors@));
    copy
}

impl Gamestate {
    /// The descriptor of a saved game whose metadata has the given
    /// descriptor.
    pub open spec fn schema(
        metadata: RecordDescriptorView,
        reencodings: Reencodings,
    ) -> RecordDescriptorView {
        RecordDescriptorView {
            name: "Gamestate"@,
            fields: Seq::empty().push(
                field_schema("meta_data"@, Cardinality::Required, HintView::Nested(metadata)),
            ).push(
                field_schema(
                    "living"@,
                    Cardinality::Required,
                    HintView::Nested(living_schema(reencodings)),
                ),
            ),
        }
    }

    /// The saved game read from a bound record.
    pub open spec fn of(value: ValueView) -> GamestateView {
        let members = members_of(value);
        GamestateView {
            meta_data: match slot_of(value, 0) {
                Some(metadata) => metadata,
                None => ValueView::Absent,
            },
            living: living_of(members, members.len() as int),
            rejected: rejected_of(members, members.len() as int),
        }
    }

    /// Builds the descriptor of a saved game.
    pub fn descriptor(metadata: RecordDescriptor, reencodings: &Reencodings) -> (descriptor:
        RecordDescriptor)
        ensures
            descriptor@ == Self::schema(metadata@, *reencodings),
    {
        let living = RecordDescriptor::named("living").with(
            FieldDescriptor::keyed(
                "character",
                Hint::nested(LivingCharacter::descriptor(reencodings)),
            ),
        );
        RecordDescriptor::named("Gamestate").with(
            FieldDescriptor::required("meta_data", Hint::nested(metadata)),
        ).with(FieldDescriptor::required("living", Hint::nested(living)))
    }

    /// Reads a saved game from a bound record, taking the record apart.
    pub fn from_value(value: Value) -> (game: Gamestate)
        ensures
            game@ == Self::of(value@),
    {
        let mut living: HashMap<u64, LivingCharacter> = HashMap::new();
        let mut rejected: Vec<Rejected> = Vec::new();
        let ghost members = members_of(value@);
        assert(living@.map_values(|character: LivingCharacter| character@) =~= living_of(
            members,
            0,
        ));
        assert(seq_view(rejected@) =~= rejected_of(members, 0));
        match slot(&value, 1) {
            Some(block) => match slot(block, 0) {
                Some(Value::Keyed(list)) => {
                    proof {
                        lemma_keyed_view(*list);
                    }
                    let mut i: usize = 0;
                    while i < list.len()
                        invariant
                            i <= list.len(),
                            members == members_view(list@),
                            living@.map_values(|character: LivingCharacter| character@)
                                =~= living_of(members, i as int),
                            seq_view(rejected@) =~= rejected_of(members, i as int),
                        decreases list.len() - i,
                    {
                        let member: &KeyedValue = &list[i];
                        match &member.outcome {
                            Ok(bound) => {
                                let character = LivingCharacter::from_value(bound);
                                let ghost before = living@;
                                living.insert(member.key, character);
                                assert(living@.map_values(|character: LivingCharacter| character@)
                                    =~= before.map_values(
                                    |character: LivingCharacter| character@,
                                ).insert(member.key, character@));
                            },
                            Err(errors) => {
                                let ghost before = rejected@;
                                rejected.push(
                                    Rejected { id: member.key, errors: copy_errors(errors) },
                                );
                                assert(seq_view(rejected@) =~= seq_view(before).push(
                                    rejected@[before.len() as int]@,
                                ));
                            },
                        }
                        i += 1;
                    }
                },
                _ => {},
            },
            None => {},
        }
        let meta_data = take_field(value, 0);
        Gamestate { meta_data, living, rejected }
    }
}

/// Takes the value of the field at `index` out of a record; absent where
/// the value is no record or has no such field.
pub fn take_field(value: Value, index: usize) -> (field: Value)
    ensures
        field@ == (match slot_of(value@, index as int) {
            Some(inner) => inner,
            None => ValueView::Absent,
        }),
{
    match value {
        Value::Record(mut fields) => {
            if index < fields.len() {
                proof {
                    lemma_list_view(fields);
                }
                let ghost before = values_view(fields@);
                let field = fields.swap_remove(index);
                assert(field@ == before[index as int]);
                match field {
                    Value::Present(inner) => *inner,
                    other => other,
                }
            } else {
                Value::Absent
            }
        },
        _ => Value::Absent,
    }
}

/// The typed view of what decoding a record returns.
pub open spec fn typed<R: Record>(outcome: Result<ValueView, DecodeErrorView>) -> Result<
    R::V,
    DecodeErrorView,
> {
    match outcome {
        Ok(value) => Ok(R::of(value)),
        Err(error) => Err(error),
    }
}

/// The view of a typed record or the error in its place.
pub open spec fn typed_view<R: Record>(r: Result<R, DecodeError>) -> Result<R::V, DecodeErrorView> {
    match r {
        Ok(record) => Ok(record@),
        Err(error) => Err(error@),
    }
}

/// Binds an object node against the descriptor of a record type and reads
/// the record into its struct.
pub fn decode<R: Record>(node: &Node, reencodings: &Reencodings, config: &Config) -> (r: Result<
    R,
    DecodeError,
>)
    ensures
        typed_view(r) == typed::<R>(
            bind_spec(node@, R::schema(*reencodings), config.era, config.max_depth as nat),
        ),
{
    let descriptor = R::descriptor(reencodings);
    match bind(node, &descriptor, config) {
        Ok(value) => Ok(R::from_value(&value)),
        Err(error) => Err(error),
    }
}

/// The root decoder: binds the top-level node of a document as a saved
/// game. A node that is no object is an unknown top-level shape; a
/// character whose fields fail is set aside under `rejected` and does not
/// keep the others from decoding.
pub fn decode_root(
    root: &Node,
    metadata: RecordDescriptor,
    reencodings: &Reencodings,
    config: &Config,
) -> (r: Result<Gamestate, DecodeError>)
    ensures
        match bind_spec(
            root@,
            Gamestate::schema(metadata@, *reencodings),
            config.era,
            config.max_depth as nat,
        ) {
            Ok(value) => r is Ok && r->Ok_0@ == Gamestate::of(value),
            Err(error) => r is Err && r->Err_0@ == error,
        },
{
    let descriptor = Gamestate::descriptor(metadata, reencodings);
    match bind(root, &descriptor, config) {
        Ok(value) => Ok(Gamestate::from_value(value)),
        Err(error) => Err(error),
    }
}

} // verus!
