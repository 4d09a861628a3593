//! The records of a living character.

use vstd::prelude::*;
use crate::date::Date;
use crate::models::realm::{LandedData, LandedDataView};
use crate::models::variables::{Variables, VariablesView};
use crate::number::Decimal;
use crate::record::{
    bool_at,
    bool_in,
    date_at,
    date_in,
    every_number_at,
    every_number_in,
    every_record_at,
    every_record_in,
    number_at,
    number_in,
    numbers_at,
    numbers_in,
    numbers_view,
    option_view,
    Record,
    record_at,
    record_in,
    Reencodings,
    seq_view,
    slot_of,
    text_at,
    text_in,
    texts_at,
    texts_in,
    texts_view,
};
use crate::schema::{
    Cardinality,
    field_schema,
    FieldDescriptor,
    Hint,
    HintView,
    RecordDescriptor,
    RecordDescriptorView,
    with_alias,
};
use crate::value::{Value, ValueView};

verus! {

/// A character who is alive.
#[derive(Clone, Debug, PartialEq, Eq)]
pub struct LivingCharacter {
    pub alive_data: Option<AliveData>,
    pub birth: Option<Decimal>,
    pub dna: Option<String>,
    pub dynasty_house: Option<Decimal>,
    pub faith: Option<Decimal>,
    pub family_data: Option<FamilyData>,
    pub first_name: Option<String>,
    pub immortal: Option<Decimal>,
    pub landed_data: Option<LandedData>,
    pub nickname: Option<String>,
    pub playable_data: Option<PlayableData>,
    pub portrait_override: Option<PortraitOverride>,
    pub skill: Option<Decimal>,
    pub traits: Option<Decimal>,
    pub variables: Option<Variables>,
    pub weight: Option<Weight>,
}

/// The mathematical value of a [`LivingCharacter`].
pub struct LivingCharacterView {
    pub alive_data: Option<AliveDataView>,
    pub birth: Option<Decimal>,
    pub dna: Option<Seq<char>>,
    pub dynasty_house: Option<Decimal>,
    pub faith: Option<Decimal>,
    pub family_data: Option<FamilyDataView>,
    pub first_name: Option<Seq<char>>,
    pub immortal: Option<Decimal>,
    pub landed_data: Option<LandedDataView>,
    pub nickname: Option<Seq<char>>,
    pub playable_data: Option<PlayableDataView>,
    pub portrait_override: Option<PortraitOverrideView>,
    pub skill: Option<Decimal>,
    pub traits: Option<Decimal>,
    pub variables: Option<VariablesView>,
    pub weight: Option<WeightView>,
}

impl View for LivingCharacter {
    type V = LivingCharacterView;

    open spec fn view(&self) -> LivingCharacterView {
        LivingCharacterView {
            alive_data: option_view(self.alive_data),
            birth: self.birth,
            dna: option_view(self.dna),
            dynasty_house: self.dynasty_house,
            faith: self.faith,
            family_data: option_view(self.family_data),
            first_name: option_view(self.first_name),
            immortal: self.immortal,
            landed_data: option_view(self.landed_data),
            nickname: option_view(self.nickname),
            playable_data: option_view(self.playable_data),
            portrait_override: option_view(self.portrait_override),
            skill: self.skill,
            traits: self.traits,
            variables: option_view(self.variables),
            weight: option_view(self.weight),
        }
    }
}

impl Record for LivingCharacter {
    open spec fn schema(reencodings: Reencodings) -> RecordDescriptorView {
        RecordDescriptorView {
            name: "LivingCharacter"@,
            fields: Seq::empty()
                .push(
                    field_schema(
                        "alive_data"@,
                        Cardinality::Optional,
                        HintView::Nested(AliveData::schema(reencodings)),
                    ),
                )
                .push(field_schema("birth"@, Cardinality::Optional, HintView::Number))
                .push(field_schema("dna"@, Cardinality::Optional, HintView::Text))
                .push(field_schema("dynasty_house"@, Cardinality::Optional, HintView::Number))
                .push(field_schema("faith"@, Cardinality::Optional, HintView::Number))
                .push(
                    field_schema(
                        "family_data"@,
                        Cardinality::Optional,
                        HintView::Nested(FamilyData::schema(reencodings)),
                    ),
                )
                .push(field_schema("first_name"@, Cardinality::Optional, HintView::Text))
                .push(field_schema("immortal"@, Cardinality::Optional, HintView::Number))
                .push(
                    field_schema(
                        "landed_data"@,
                        Cardinality::Optional,
                        HintView::Nested(LandedData::schema(reencodings)),
                    ),
                )
                .push(field_schema("nickname"@, Cardinality::Optional, HintView::Text))
                .push(
                    field_schema(
                        "playable_data"@,
                        Cardinality::Optional,
                        HintView::Nested(PlayableData::schema(reencodings)),
                    ),
                )
                .push(
                    field_schema(
                        "portrait_override"@,
                        Cardinality::Optional,
                        HintView::Nested(PortraitOverride::schema(reencodings)),
                    ),
                )
                .push(field_schema("skill"@, Cardinality::Optional, HintView::Number))
                .push(field_schema("traits"@, Cardinality::Optional, HintView::Number))
                .push(
                    field_schema(
                        "variables"@,
                        Cardinality::Optional,
                        HintView::Nested(Variables::schema(reencodings)),
                    ),
                )
                .push(
                    field_schema(
                        "weight"@,
                        Cardinality::Optional,
                        HintView::Nested(Weight::schema(reencodings)),
                    ),
                ),
        }
    }

    open spec fn of(value: ValueView) -> LivingCharacterView {
        LivingCharacterView {
            alive_data: record_in::<AliveData>(slot_of(value, 0)),
            birth: number_in(slot_of(value, 1)),
            dna: text_in(slot_of(value, 2)),
            dynasty_house: number_in(slot_of(value, 3)),
            faith: number_in(slot_of(value, 4)),
            family_data: record_in::<FamilyData>(slot_of(value, 5)),
            first_name: text_in(slot_of(value, 6)),
            immortal: number_in(slot_of(value, 7)),
            landed_data: record_in::<LandedData>(slot_of(value, 8)),
            nickname: text_in(slot_of(value, 9)),
            playable_data: record_in::<PlayableData>(slot_of(value, 10)),
            portrait_override: record_in::<PortraitOverride>(slot_of(value, 11)),
            skill: number_in(slot_of(value, 12)),
            traits: number_in(slot_of(value, 13)),
            variables: record_in::<Variables>(slot_of(value, 14)),
            weight: record_in::<Weight>(slot_of(value, 15)),
        }
    }

    fn descriptor(reencodings: &Reencodings) -> (descriptor: RecordDescriptor) {
        RecordDescriptor::named("LivingCharacter")
            .with(
                FieldDescriptor::optional(
                    "alive_data",
                    Hint::nested(AliveData::descriptor(reencodings)),
                ),
            )
            .with(FieldDescriptor::optional("birth", Hint::Number))
            .with(FieldDescriptor::optional("dna", Hint::Text))
            .with(FieldDescriptor::optional("dynasty_house", Hint::Number))
            .with(FieldDescriptor::optional("faith", Hint::Number))
            .with(
                FieldDescriptor::optional(
                    "family_data",
                    Hint::nested(FamilyData::descriptor(reencodings)),
                ),
            )
            .with(FieldDescriptor::optional("first_name", Hint::Text))
            .with(FieldDescriptor::optional("immortal", Hint::Number))
            .with(
                FieldDescriptor::optional(
                    "landed_data",
                    Hint::nested(LandedData::descriptor(reencodings)),
                ),
            )
            .with(FieldDescriptor::optional("nickname", Hint::Text))
            .with(
                FieldDescriptor::optional(
                    "playable_data",
                    Hint::nested(PlayableData::descriptor(reencodings)),
                ),
            )
            .with(
                FieldDescriptor::optional(
                    "portrait_override",
                    Hint::nested(PortraitOverride::descriptor(reencodings)),
                ),
            )
            .with(FieldDescriptor::optional("skill", Hint::Number))
            .with(FieldDescriptor::optional("traits", Hint::Number))
            .with(
                FieldDescriptor::optional(
                    "variables",
                    Hint::nested(Variables::descriptor(reencodings)),
                ),
            )
            .with(
                FieldDescriptor::optional("weight", Hint::nested(Weight::descriptor(reencodings))),
            )
    }

    fn from_value(value: &Value) -> (record: LivingCharacter) {
        LivingCharacter {
            alive_data: record_at::<AliveData>(value, 0),
            birth: number_at(value, 1),
            dna: text_at(value, 2),
            dynasty_house: number_at(value, 3),
            faith: number_at(value, 4),
            family_data: record_at::<FamilyData>(value, 5),
            first_name: text_at(value, 6),
            immortal: number_at(value, 7),
            landed_data: record_at::<LandedData>(value, 8),
            nickname: text_at(value, 9),
            playable_data: record_at::<PlayableData>(value, 10),
            portrait_override: record_at::<PortraitOverride>(value, 11),
            skill: number_at(value, 12),
            traits: number_at(value, 13),
            variables: record_at::<Variables>(value, 14),
            weight: record_at::<Weight>(value, 15),
        }
    }
}

/// What is recorded of a character only while the character lives.
#[derive(Clone, Debug, PartialEq, Eq)]
pub struct AliveData {
    pub activity: Option<Decimal>,
    pub fertility: Option<Decimal>,
    pub focus: Option<Focus>,
    pub health: Option<Decimal>,
    pub gold: Option<Decimal>,
    pub heir: Option<Vec<Decimal>>,
    pub kills: Option<Vec<Decimal>>,
    pub income: Option<Decimal>,
    pub inventory: Option<Inventory>,
    pub languages: Option<Vec<String>>,
    pub lifestyle_xp: Option<LifestyleXp>,
    pub location: Option<Decimal>,
    pub modifier: Vec<Modifier>,
    pub owned_activities: Option<Vec<Decimal>>,
    pub piety: Option<Piety>,
    pub prestige: Option<Prestige>,
    pub schemes: Option<Vec<Decimal>>,
    pub stories: Option<Vec<Decimal>>,
    pub wars: Option<Vec<Decimal>>,
}

/// The mathematical value of a [`AliveData`].
pub struct AliveDataView {
    pub activity: Option<Decimal>,
    pub fertility: Option<Decimal>,
    pub focus: Option<FocusView>,
    pub health: Option<Decimal>,
    pub gold: Option<Decimal>,
    pub heir: Option<Seq<Decimal>>,
    pub kills: Option<Seq<Decimal>>,
    pub income: Option<Decimal>,
    pub inventory: Option<InventoryView>,
    pub languages: Option<Seq<Seq<char>>>,
    pub lifestyle_xp: Option<LifestyleXpView>,
    pub location: Option<Decimal>,
    pub modifier: Seq<ModifierView>,
    pub owned_activities: Option<Seq<Decimal>>,
    pub piety: Option<PietyView>,
    pub prestige: Option<PrestigeView>,
    pub schemes: Option<Seq<Decimal>>,
    pub stories: Option<Seq<Decimal>>,
    pub wars: Option<Seq<Decimal>>,
}

impl View for AliveData {
    type V = AliveDataView;

    open spec fn view(&self) -> AliveDataView {
        AliveDataView {
            activity: self.activity,
            fertility: self.fertility,
            focus: option_view(self.focus),
            health: self.health,
            gold: self.gold,
            heir: numbers_view(self.heir),
            kills: numbers_view(self.kills),
            income: self.income,
            inventory: option_view(self.inventory),
            languages: texts_view(self.languages),
            lifestyle_xp: option_view(self.lifestyle_xp),
            location: self.location,
            modifier: seq_view(self.modifier@),
            owned_activities: numbers_view(self.owned_activities),
            piety: option_view(self.piety),
            prestige: option_view(self.prestige),
            schemes: numbers_view(self.schemes),
            stories: numbers_view(self.stories),
            wars: numbers_view(self.wars),
        }
    }
}

impl Record for AliveData {
    open spec fn schema(reencodings: Reencodings) -> RecordDescriptorView {
        RecordDescriptorView {
            name: "AliveData"@,
            fields: Seq::empty()
                .push(field_schema("activity"@, Cardinality::Optional, HintView::Number))
                .push(field_schema("fertility"@, Cardinality::Optional, HintView::Number))
                .push(
                    field_schema(
                        "focus"@,
                        Cardinality::Optional,
                        HintView::Nested(Focus::schema(reencodings)),
                    ),
                )
                .push(field_schema("health"@, Cardinality::Optional, HintView::Number))
                .push(
                    field_schema(
                        "gold"@,
                        Cardinality::Optional,
                        HintView::Reencoded(reencodings.gold),
                    ),
                )
                .push(
                    field_schema(
                        "heir"@,
                        Cardinality::Optional,
                        HintView::List(Box::new(HintView::Number)),
                    ),
                )
                .push(
                    field_schema(
                        "kills"@,
                        Cardinality::Optional,
                        HintView::List(Box::new(HintView::Number)),
                    ),
                )
                .push(field_schema("income"@, Cardinality::Optional, HintView::Number))
                .push(
                    field_schema(
                        "inventory"@,
                        Cardinality::Optional,
                        HintView::Nested(Inventory::schema(reencodings)),
                    ),
                )
                .push(
                    field_schema(
                        "languages"@,
                        Cardinality::Optional,
                        HintView::List(Box::new(HintView::Text)),
                    ),
                )
                .push(
                    field_schema(
                        "lifestyle_xp"@,
                        Cardinality::Optional,
                        HintView::Nested(LifestyleXp::schema(reencodings)),
                    ),
                )
                .push(field_schema("location"@, Cardinality::Optional, HintView::Number))
                .push(
                    field_schema(
                        "modifier"@,
                        Cardinality::Duplicated,
                        HintView::Nested(Modifier::schema(reencodings)),
                    ),
                )
                .push(
                    field_schema(
                        "owned_activities"@,
                        Cardinality::Optional,
                        HintView::List(Box::new(HintView::Number)),
                    ),
                )
                .push(
                    field_schema(
                        "piety"@,
                        Cardinality::Optional,
                        HintView::Nested(Piety::schema(reencodings)),
                    ),
                )
                .push(
                    field_schema(
                        "prestige"@,
                        Cardinality::Optional,
                        HintView::Nested(Prestige::schema(reencodings)),
                    ),
                )
                .push(
                    field_schema(
                        "schemes"@,
                        Cardinality::Optional,
                        HintView::List(Box::new(HintView::Number)),
                    ),
                )
                .push(
                    field_schema(
                        "stories"@,
                        Cardinality::Optional,
                        HintView::List(Box::new(HintView::Number)),
                    ),
                )
                .push(
                    field_schema(
                        "wars"@,
                        Cardinality::Optional,
                        HintView::List(Box::new(HintView::Number)),
                    ),
                ),
        }
    }

    open spec fn of(value: ValueView) -> AliveDataView {
        AliveDataView {
            activity: number_in(slot_of(value, 0)),
            fertility: number_in(slot_of(value, 1)),
            focus: record_in::<Focus>(slot_of(value, 2)),
            health: number_in(slot_of(value, 3)),
            gold: number_in(slot_of(value, 4)),
            heir: numbers_in(slot_of(value, 5)),
            kills: numbers_in(slot_of(value, 6)),
            income: number_in(slot_of(value, 7)),
            inventory: record_in::<Inventory>(slot_of(value, 8)),
            languages: texts_in(slot_of(value, 9)),
            lifestyle_xp: record_in::<LifestyleXp>(slot_of(value, 10)),
            location: number_in(slot_of(value, 11)),
            modifier: every_record_in::<Modifier>(slot_of(value, 12)),
            owned_activities: numbers_in(slot_of(value, 13)),
            piety: record_in::<Piety>(slot_of(value, 14)),
            prestige: record_in::<Prestige>(slot_of(value, 15)),
            schemes: numbers_in(slot_of(value, 16)),
            stories: numbers_in(slot_of(value, 17)),
            wars: numbers_in(slot_of(value, 18)),
        }
    }

    fn descriptor(reencodings: &Reencodings) -> (descriptor: RecordDescriptor) {
        RecordDescriptor::named("AliveData")
            .with(FieldDescriptor::optional("activity", Hint::Number))
            .with(FieldDescriptor::optional("fertility", Hint::Number))
            .with(FieldDescriptor::optional("focus", Hint::nested(Focus::descriptor(reencodings))))
            .with(FieldDescriptor::optional("health", Hint::Number))
            .with(FieldDescriptor::optional("gold", Hint::Reencoded(reencodings.gold)))
            .with(FieldDescriptor::optional("heir", Hint::list_of(Hint::Number)))
            .with(FieldDescriptor::optional("kills", Hint::list_of(Hint::Number)))
            .with(FieldDescriptor::optional("income", Hint::Number))
            .with(
                FieldDescriptor::optional(
                    "inventory",
                    Hint::nested(Inventory::descriptor(reencodings)),
                ),
            )
            .with(FieldDescriptor::optional("languages", Hint::list_of(Hint::Text)))
            .with(
                FieldDescriptor::optional(
                    "lifestyle_xp",
                    Hint::nested(LifestyleXp::descriptor(reencodings)),
                ),
            )
            .with(FieldDescriptor::optional("location", Hint::Number))
            .with(
                FieldDescriptor::duplicated(
                    "modifier",
                    Hint::nested(Modifier::descriptor(reencodings)),
                ),
            )
            .with(FieldDescriptor::optional("owned_activities", Hint::list_of(Hint::Number)))
            .with(FieldDescriptor::optional("piety", Hint::nested(Piety::descriptor(reencodings))))
            .with(
                FieldDescriptor::optional(
                    "prestige",
                    Hint::nested(Prestige::descriptor(reencodings)),
                ),
            )
            .with(FieldDescriptor::optional("schemes", Hint::list_of(Hint::Number)))
            .with(FieldDescriptor::optional("stories", Hint::list_of(Hint::Number)))
            .with(FieldDescriptor::optional("wars", Hint::list_of(Hint::Number)))
    }

    fn from_value(value: &Value) -> (record: AliveData) {
        AliveData {
            activity: number_at(value, 0),
            fertility: number_at(value, 1),
            focus: record_at::<Focus>(value, 2),
            health: number_at(value, 3),
            gold: number_at(value, 4),
            heir: numbers_at(value, 5),
            kills: numbers_at(value, 6),
            income: number_at(value, 7),
            inventory: record_at::<Inventory>(value, 8),
            languages: texts_at(value, 9),
            lifestyle_xp: record_at::<LifestyleXp>(value, 10),
            location: number_at(value, 11),
            modifier: every_record_at::<Modifier>(value, 12),
            owned_activities: numbers_at(value, 13),
            piety: record_at::<Piety>(value, 14),
            prestige: record_at::<Prestige>(value, 15),
            schemes: numbers_at(value, 16),
            stories: numbers_at(value, 17),
            wars: numbers_at(value, 18),
        }
    }
}

/// A character's children and spouses, each by number.
#[derive(Clone, Debug, PartialEq, Eq)]
pub struct FamilyData {
    pub child: Option<Vec<Decimal>>,
    pub concubine: Vec<Decimal>,
    pub former_spouse: Vec<Decimal>,
    pub primary_spouse: Option<Decimal>,
    pub spouse: Vec<Decimal>,
}

/// The mathematical value of a [`FamilyData`].
pub struct FamilyDataView {
    pub child: Option<Seq<Decimal>>,
    pub concubine: Seq<Decimal>,
    pub former_spouse: Seq<Decimal>,
    pub primary_spouse: Option<Decimal>,
    pub spouse: Seq<Decimal>,
}

impl View for FamilyData {
    type V = FamilyDataView;

    open spec fn view(&self) -> FamilyDataView {
        FamilyDataView {
            child: numbers_view(self.child),
            concubine: self.concubine@,
            former_spouse: self.former_spouse@,
            primary_spouse: self.primary_spouse,
            spouse: self.spouse@,
        }
    }
}

impl Record for FamilyData {
    open spec fn schema(reencodings: Reencodings) -> RecordDescriptorView {
        RecordDescriptorView {
            name: "FamilyData"@,
            fields: Seq::empty()
                .push(
                    field_schema(
                        "child"@,
                        Cardinality::Optional,
                        HintView::List(Box::new(HintView::Number)),
                    ),
                )
                .push(field_schema("concubine"@, Cardinality::Duplicated, HintView::Number))
                .push(
                    with_alias(
                        field_schema("former_spouse"@, Cardinality::Duplicated, HintView::Number),
                        "former_spouses"@,
                    ),
                )
                .push(field_schema("primary_spouse"@, Cardinality::Optional, HintView::Number))
                .push(field_schema("spouse"@, Cardinality::Duplicated, HintView::Number)),
        }
    }

    open spec fn of(value: ValueView) -> FamilyDataView {
        FamilyDataView {
            child: numbers_in(slot_of(value, 0)),
            concubine: every_number_in(slot_of(value, 1)),
            former_spouse: every_number_in(slot_of(value, 2)),
            primary_spouse: number_in(slot_of(value, 3)),
            spouse: every_number_in(slot_of(value, 4)),
        }
    }

    fn descriptor(reencodings: &Reencodings) -> (descriptor: RecordDescriptor) {
        RecordDescriptor::named("FamilyData")
            .with(FieldDescriptor::optional("child", Hint::list_of(Hint::Number)))
            .with(FieldDescriptor::duplicated("concubine", Hint::Number))
            .with(
                FieldDescriptor::duplicated("former_spouse", Hint::Number).alias("former_spouses"),
            )
            .with(FieldDescriptor::optional("primary_spouse", Hint::Number))
            .with(FieldDescriptor::duplicated("spouse", Hint::Number))
    }

    fn from_value(value: &Value) -> (record: FamilyData) {
        FamilyData {
            child: numbers_at(value, 0),
            concubine: every_number_at(value, 1),
            former_spouse: every_number_at(value, 2),
            primary_spouse: number_at(value, 3),
            spouse: every_number_at(value, 4),
        }
    }
}

/// The lifestyle focus that a character has chosen.
#[derive(Clone, Debug, PartialEq, Eq)]
pub struct Focus {
    pub _type: Option<String>,
    pub date: Option<Date>,
    pub changes: Option<Decimal>,
    pub progress: Option<Decimal>,
}

/// The mathematical value of a [`Focus`].
pub struct FocusView {
    pub _type: Option<Seq<char>>,
    pub date: Option<Date>,
    pub changes: Option<Decimal>,
    pub progress: Option<Decimal>,
}

impl View for Focus {
    type V = FocusView;

    open spec fn view(&self) -> FocusView {
        FocusView {
            _type: option_view(self._type),
            date: self.date,
            changes: self.changes,
            progress: self.progress,
        }
    }
}

impl Record for Focus {
    open spec fn schema(reencodings: Reencodings) -> RecordDescriptorView {
        RecordDescriptorView {
            name: "Focus"@,
            fields: Seq::empty()
                .push(
                    with_alias(
                        field_schema("_type"@, Cardinality::Optional, HintView::Text),
                        "type"@,
                    ),
                )
                .push(field_schema("date"@, Cardinality::Optional, HintView::Date))
                .push(field_schema("changes"@, Cardinality::Optional, HintView::Number))
                .push(field_schema("progress"@, Cardinality::Optional, HintView::Number)),
        }
    }

    open spec fn of(value: ValueView) -> FocusView {
        FocusView {
            _type: text_in(slot_of(value, 0)),
            date: date_in(slot_of(value, 1)),
            changes: number_in(slot_of(value, 2)),
            progress: number_in(slot_of(value, 3)),
        }
    }

    fn descriptor(reencodings: &Reencodings) -> (descriptor: RecordDescriptor) {
        RecordDescriptor::named("Focus")
            .with(FieldDescriptor::optional("_type", Hint::Text).alias("type"))
            .with(FieldDescriptor::optional("date", Hint::Date))
            .with(FieldDescriptor::optional("changes", Hint::Number))
            .with(FieldDescriptor::optional("progress", Hint::Number))
    }

    fn from_value(value: &Value) -> (record: Focus) {
        Focus {
            _type: text_at(value, 0),
            date: date_at(value, 1),
            changes: number_at(value, 2),
            progress: number_at(value, 3),
        }
    }
}

/// The artifacts that a character owns.
#[derive(Clone, Debug, PartialEq, Eq)]
pub struct Inventory {
    pub owner: Option<Decimal>,
    pub equipped: Option<Equipped>,
}

/// The mathematical value of a [`Inventory`].
pub struct InventoryView {
    pub owner: Option<Decimal>,
    pub equipped: Option<EquippedView>,
}

impl View for Inventory {
    type V = InventoryView;

    open spec fn view(&self) -> InventoryView {
        InventoryView {
            owner: self.owner,
            equipped: option_view(self.equipped),
        }
    }
}

impl Record for Inventory {
    open spec fn schema(reencodings: Reencodings) -> RecordDescriptorView {
        RecordDescriptorView {
            name: "Inventory"@,
            fields: Seq::empty()
                .push(field_schema("owner"@, Cardinality::Optional, HintView::Number))
                .push(
                    field_schema(
                        "equipped"@,
                        Cardinality::Optional,
                        HintView::Nested(Equipped::schema(reencodings)),
                    ),
                ),
        }
    }

    open spec fn of(value: ValueView) -> InventoryView {
        InventoryView {
            owner: number_in(slot_of(value, 0)),
            equipped: record_in::<Equipped>(slot_of(value, 1)),
        }
    }

    fn descriptor(reencodings: &Reencodings) -> (descriptor: RecordDescriptor) {
        RecordDescriptor::named("Inventory")
            .with(FieldDescriptor::optional("owner", Hint::Number))
            .with(
                FieldDescriptor::optional(
                    "equipped",
                    Hint::nested(Equipped::descriptor(reencodings)),
                ),
            )
    }

    fn from_value(value: &Value) -> (record: Inventory) {
        Inventory {
            owner: number_at(value, 0),
            equipped: record_at::<Equipped>(value, 1),
        }
    }
}

/// The artifacts on display in a character's court, each by number.
#[derive(Clone, Debug, PartialEq, Eq)]
pub struct Equipped {
    pub wall_big_1: Option<Decimal>,
    pub wall_big_2: Option<Decimal>,
    pub wall_big_3: Option<Decimal>,
    pub pedestal_1: Option<Decimal>,
}

/// The mathematical value of a [`Equipped`].
pub struct EquippedView {
    pub wall_big_1: Option<Decimal>,
    pub wall_big_2: Option<Decimal>,
    pub wall_big_3: Option<Decimal>,
    pub pedestal_1: Option<Decimal>,
}

impl View for Equipped {
    type V = EquippedView;

    open spec fn view(&self) -> EquippedView {
        EquippedView {
            wall_big_1: self.wall_big_1,
            wall_big_2: self.wall_big_2,
            wall_big_3: self.wall_big_3,
            pedestal_1: self.pedestal_1,
        }
    }
}

impl Record for Equipped {
    open spec fn schema(reencodings: Reencodings) -> RecordDescriptorView {
        RecordDescriptorView {
            name: "Equipped"@,
            fields: Seq::empty()
                .push(field_schema("wall_big_1"@, Cardinality::Optional, HintView::Number))
                .push(field_schema("wall_big_2"@, Cardinality::Optional, HintView::Number))
                .push(field_schema("wall_big_3"@, Cardinality::Optional, HintView::Number))
                .push(field_schema("pedestal_1"@, Cardinality::Optional, HintView::Number)),
        }
    }

    open spec fn of(value: ValueView) -> EquippedView {
        EquippedView {
            wall_big_1: number_in(slot_of(value, 0)),
            wall_big_2: number_in(slot_of(value, 1)),
            wall_big_3: number_in(slot_of(value, 2)),
            pedestal_1: number_in(slot_of(value, 3)),
        }
    }

    fn descriptor(reencodings: &Reencodings) -> (descriptor: RecordDescriptor) {
        RecordDescriptor::named("Equipped")
            .with(FieldDescriptor::optional("wall_big_1", Hint::Number))
            .with(FieldDescriptor::optional("wall_big_2", Hint::Number))
            .with(FieldDescriptor::optional("wall_big_3", Hint::Number))
            .with(FieldDescriptor::optional("pedestal_1", Hint::Number))
    }

    fn from_value(value: &Value) -> (record: Equipped) {
        Equipped {
            wall_big_1: number_at(value, 0),
            wall_big_2: number_at(value, 1),
            wall_big_3: number_at(value, 2),
            pedestal_1: number_at(value, 3),
        }
    }
}

/// The experience that a character has gathered in each lifestyle.
#[derive(Clone, Debug, PartialEq, Eq)]
pub struct LifestyleXp {
    pub diplomacy_lifestyle: Option<Decimal>,
    pub martial_lifestyle: Option<Decimal>,
    pub stewardship_lifestyle: Option<Decimal>,
    pub intrigue_lifestyle: Option<Decimal>,
    pub learning_lifestyle: Option<Decimal>,
    pub arcane_lifestyle: Option<Decimal>,
    pub pure_divine_lifestyle: Option<Decimal>,
    pub fallen_divine_lifestyle: Option<Decimal>,
}

/// The mathematical value of a [`LifestyleXp`].
pub struct LifestyleXpView {
    pub diplomacy_lifestyle: Option<Decimal>,
    pub martial_lifestyle: Option<Decimal>,
    pub stewardship_lifestyle: Option<Decimal>,
    pub intrigue_lifestyle: Option<Decimal>,
    pub learning_lifestyle: Option<Decimal>,
    pub arcane_lifestyle: Option<Decimal>,
    pub pure_divine_lifestyle: Option<Decimal>,
    pub fallen_divine_lifestyle: Option<Decimal>,
}

impl View for LifestyleXp {
    type V = LifestyleXpView;

    open spec fn view(&self) -> LifestyleXpView {
        LifestyleXpView {
            diplomacy_lifestyle: self.diplomacy_lifestyle,
            martial_lifestyle: self.martial_lifestyle,
            stewardship_lifestyle: self.stewardship_lifestyle,
            intrigue_lifestyle: self.intrigue_lifestyle,
            learning_lifestyle: self.learning_lifestyle,
            arcane_lifestyle: self.arcane_lifestyle,
            pure_divine_lifestyle: self.pure_divine_lifestyle,
            fallen_divine_lifestyle: self.fallen_divine_lifestyle,
        }
    }
}

impl Record for LifestyleXp {
    open spec fn schema(reencodings: Reencodings) -> RecordDescriptorView {
        RecordDescriptorView {
            name: "LifestyleXp"@,
            fields: Seq::empty()
                .push(field_schema("diplomacy_lifestyle"@, Cardinality::Optional, HintView::Number))
                .push(field_schema("martial_lifestyle"@, Cardinality::Optional, HintView::Number))
                .push(
                    field_schema("stewardship_lifestyle"@, Cardinality::Optional, HintView::Number),
                )
                .push(field_schema("intrigue_lifestyle"@, Cardinality::Optional, HintView::Number))
                .push(field_schema("learning_lifestyle"@, Cardinality::Optional, HintView::Number))
                .push(field_schema("arcane_lifestyle"@, Cardinality::Optional, HintView::Number))
                .push(
                    field_schema("pure_divine_lifestyle"@, Cardinality::Optional, HintView::Number),
                )
                .push(
                    field_schema(
                        "fallen_divine_lifestyle"@,
                        Cardinality::Optional,
                        HintView::Number,
                    ),
                ),
        }
    }

    open spec fn of(value: ValueView) -> LifestyleXpView {
        LifestyleXpView {
            diplomacy_lifestyle: number_in(slot_of(value, 0)),
            martial_lifestyle: number_in(slot_of(value, 1)),
            stewardship_lifestyle: number_in(slot_of(value, 2)),
            intrigue_lifestyle: number_in(slot_of(value, 3)),
            learning_lifestyle: number_in(slot_of(value, 4)),
            arcane_lifestyle: number_in(slot_of(value, 5)),
            pure_divine_lifestyle: number_in(slot_of(value, 6)),
            fallen_divine_lifestyle: number_in(slot_of(value, 7)),
        }
    }

    fn descriptor(reencodings: &Reencodings) -> (descriptor: RecordDescriptor) {
        RecordDescriptor::named("LifestyleXp")
            .with(FieldDescriptor::optional("diplomacy_lifestyle", Hint::Number))
            .with(FieldDescriptor::optional("martial_lifestyle", Hint::Number))
            .with(FieldDescriptor::optional("stewardship_lifestyle", Hint::Number))
            .with(FieldDescriptor::optional("intrigue_lifestyle", Hint::Number))
            .with(FieldDescriptor::optional("learning_lifestyle", Hint::Number))
            .with(FieldDescriptor::optional("arcane_lifestyle", Hint::Number))
            .with(FieldDescriptor::optional("pure_divine_lifestyle", Hint::Number))
            .with(FieldDescriptor::optional("fallen_divine_lifestyle", Hint::Number))
    }

    fn from_value(value: &Value) -> (record: LifestyleXp) {
        LifestyleXp {
            diplomacy_lifestyle: number_at(value, 0),
            martial_lifestyle: number_at(value, 1),
            stewardship_lifestyle: number_at(value, 2),
            intrigue_lifestyle: number_at(value, 3),
            learning_lifestyle: number_at(value, 4),
            arcane_lifestyle: number_at(value, 5),
            pure_divine_lifestyle: number_at(value, 6),
            fallen_divine_lifestyle: number_at(value, 7),
        }
    }
}

/// A modifier on a character and the day on which it ends.
#[derive(Clone, Debug, PartialEq, Eq)]
pub struct Modifier {
    pub modifier: Option<String>,
    pub expiration_date: Option<Date>,
}

/// The mathematical value of a [`Modifier`].
pub struct ModifierView {
    pub modifier: Option<Seq<char>>,
    pub expiration_date: Option<Date>,
}

impl View for Modifier {
    type V = ModifierView;

    open spec fn view(&self) -> ModifierView {
        ModifierView {
            modifier: option_view(self.modifier),
            expiration_date: self.expiration_date,
        }
    }
}

impl Record for Modifier {
    open spec fn schema(reencodings: Reencodings) -> RecordDescriptorView {
        RecordDescriptorView {
            name: "Modifier"@,
            fields: Seq::empty()
                .push(field_schema("modifier"@, Cardinality::Optional, HintView::Text))
                .push(field_schema("expiration_date"@, Cardinality::Optional, HintView::Date)),
        }
    }

    open spec fn of(value: ValueView) -> ModifierView {
        ModifierView {
            modifier: text_in(slot_of(value, 0)),
            expiration_date: date_in(slot_of(value, 1)),
        }
    }

    fn descriptor(reencodings: &Reencodings) -> (descriptor: RecordDescriptor) {
        RecordDescriptor::named("Modifier")
            .with(FieldDescriptor::optional("modifier", Hint::Text))
            .with(FieldDescriptor::optional("expiration_date", Hint::Date))
    }

    fn from_value(value: &Value) -> (record: Modifier) {
        Modifier {
            modifier: text_at(value, 0),
            expiration_date: date_at(value, 1),
        }
    }
}

/// What is recorded of a character whom a player can play.
#[derive(Clone, Debug, PartialEq, Eq)]
pub struct PlayableData {
    pub knights: Option<Vec<Decimal>>,
    pub was_player: Option<bool>,
    pub last_court_event_added_date: Option<Date>,
}

/// The mathematical value of a [`PlayableData`].
pub struct PlayableDataView {
    pub knights: Option<Seq<Decimal>>,
    pub was_player: Option<bool>,
    pub last_court_event_added_date: Option<Date>,
}

impl View for PlayableData {
    type V = PlayableDataView;

    open spec fn view(&self) -> PlayableDataView {
        PlayableDataView {
            knights: numbers_view(self.knights),
            was_player: self.was_player,
            last_court_event_added_date: self.last_court_event_added_date,
        }
    }
}

impl Record for PlayableData {
    open spec fn schema(reencodings: Reencodings) -> RecordDescriptorView {
        RecordDescriptorView {
            name: "PlayableData"@,
            fields: Seq::empty()
                .push(
                    field_schema(
                        "knights"@,
                        Cardinality::Optional,
                        HintView::List(Box::new(HintView::Number)),
                    ),
                )
                .push(field_schema("was_player"@, Cardinality::Optional, HintView::Boolean))
                .push(
                    field_schema(
                        "last_court_event_added_date"@,
                        Cardinality::Optional,
                        HintView::Date,
                    ),
                ),
        }
    }

    open spec fn of(value: ValueView) -> PlayableDataView {
        PlayableDataView {
            knights: numbers_in(slot_of(value, 0)),
            was_player: bool_in(slot_of(value, 1)),
            last_court_event_added_date: date_in(slot_of(value, 2)),
        }
    }

    fn descriptor(reencodings: &Reencodings) -> (descriptor: RecordDescriptor) {
        RecordDescriptor::named("PlayableData")
            .with(FieldDescriptor::optional("knights", Hint::list_of(Hint::Number)))
            .with(FieldDescriptor::optional("was_player", Hint::Boolean))
            .with(FieldDescriptor::optional("last_court_event_added_date", Hint::Date))
    }

    fn from_value(value: &Value) -> (record: PlayableData) {
        PlayableData {
            knights: numbers_at(value, 0),
            was_player: bool_at(value, 1),
            last_court_event_added_date: date_at(value, 2),
        }
    }
}

/// A character's piety.
#[derive(Clone, Debug, PartialEq, Eq)]
pub struct Piety {
    pub currency: Option<Decimal>,
    pub accumulated: Option<Decimal>,
}

/// The mathematical value of a [`Piety`].
pub struct PietyView {
    pub currency: Option<Decimal>,
    pub accumulated: Option<Decimal>,
}

impl View for Piety {
    type V = PietyView;

    open spec fn view(&self) -> PietyView {
        PietyView {
            currency: self.currency,
            accumulated: self.accumulated,
        }
    }
}

impl Record for Piety {
    open spec fn schema(reencodings: Reencodings) -> RecordDescriptorView {
        RecordDescriptorView {
            name: "Piety"@,
            fields: Seq::empty()
                .push(field_schema("currency"@, Cardinality::Optional, HintView::Number))
                .push(field_schema("accumulated"@, Cardinality::Optional, HintView::Number)),
        }
    }

    open spec fn of(value: ValueView) -> PietyView {
        PietyView {
            currency: number_in(slot_of(value, 0)),
            accumulated: number_in(slot_of(value, 1)),
        }
    }

    fn descriptor(reencodings: &Reencodings) -> (descriptor: RecordDescriptor) {
        RecordDescriptor::named("Piety")
            .with(FieldDescriptor::optional("currency", Hint::Number))
            .with(FieldDescriptor::optional("accumulated", Hint::Number))
    }

    fn from_value(value: &Value) -> (record: Piety) {
        Piety {
            currency: number_at(value, 0),
            accumulated: number_at(value, 1),
        }
    }
}

/// What replaces parts of a character's portrait.
#[derive(Clone, Debug, PartialEq, Eq)]
pub struct PortraitOverride {
    pub portrait_modifier_overrides: Option<PortraitModifierOverrides>,
}

/// The mathematical value of a [`PortraitOverride`].
pub struct PortraitOverrideView {
    pub portrait_modifier_overrides: Option<PortraitModifierOverridesView>,
}

impl View for PortraitOverride {
    type V = PortraitOverrideView;

    open spec fn view(&self) -> PortraitOverrideView {
        PortraitOverrideView {
            portrait_modifier_overrides: option_view(self.portrait_modifier_overrides),
        }
    }
}

impl Record for PortraitOverride {
    open spec fn schema(reencodings: Reencodings) -> RecordDescriptorView {
        RecordDescriptorView {
            name: "PortraitOverride"@,
            fields: Seq::empty()
                .push(
                    field_schema(
                        "portrait_modifier_overrides"@,
                        Cardinality::Optional,
                        HintView::Nested(PortraitModifierOverrides::schema(reencodings)),
                    ),
                ),
        }
    }

    open spec fn of(value: ValueView) -> PortraitOverrideView {
        PortraitOverrideView {
            portrait_modifier_overrides: record_in::<PortraitModifierOverrides>(slot_of(value, 0)),
        }
    }

    fn descriptor(reencodings: &Reencodings) -> (descriptor: RecordDescriptor) {
        RecordDescriptor::named("PortraitOverride")
            .with(
                FieldDescriptor::optional(
                    "portrait_modifier_overrides",
                    Hint::nested(PortraitModifierOverrides::descriptor(reencodings)),
                ),
            )
    }

    fn from_value(value: &Value) -> (record: PortraitOverride) {
        PortraitOverride {
            portrait_modifier_overrides: record_at::<PortraitModifierOverrides>(value, 0),
        }
    }
}

/// The beard and the hair that a portrait shows in place of the character's own.
#[derive(Clone, Debug, PartialEq, Eq)]
pub struct PortraitModifierOverrides {
    pub custom_beards: Option<String>,
    pub custom_hair: Option<String>,
}

/// The mathematical value of a [`PortraitModifierOverrides`].
pub struct PortraitModifierOverridesView {
    pub custom_beards: Option<Seq<char>>,
    pub custom_hair: Option<Seq<char>>,
}

impl View for PortraitModifierOverrides {
    type V = PortraitModifierOverridesView;

    open spec fn view(&self) -> PortraitModifierOverridesView {
        PortraitModifierOverridesView {
            custom_beards: option_view(self.custom_beards),
            custom_hair: option_view(self.custom_hair),
        }
    }
}

impl Record for PortraitModifierOverrides {
    open spec fn schema(reencodings: Reencodings) -> RecordDescriptorView {
        RecordDescriptorView {
            name: "PortraitModifierOverrides"@,
            fields: Seq::empty()
                .push(field_schema("custom_beards"@, Cardinality::Optional, HintView::Text))
                .push(field_schema("custom_hair"@, Cardinality::Optional, HintView::Text)),
        }
    }

    open spec fn of(value: ValueView) -> PortraitModifierOverridesView {
        PortraitModifierOverridesView {
            custom_beards: text_in(slot_of(value, 0)),
            custom_hair: text_in(slot_of(value, 1)),
        }
    }

    fn descriptor(reencodings: &Reencodings) -> (descriptor: RecordDescriptor) {
        RecordDescriptor::named("PortraitModifierOverrides")
            .with(FieldDescriptor::optional("custom_beards", Hint::Text))
            .with(FieldDescriptor::optional("custom_hair", Hint::Text))
    }

    fn from_value(value: &Value) -> (record: PortraitModifierOverrides) {
        PortraitModifierOverrides {
            custom_beards: text_at(value, 0),
            custom_hair: text_at(value, 1),
        }
    }
}

/// A character's prestige.
#[derive(Clone, Debug, PartialEq, Eq)]
pub struct Prestige {
    pub currentcy: Option<Decimal>,
    pub accumulated: Option<Decimal>,
}

/// The mathematical value of a [`Prestige`].
pub struct PrestigeView {
    pub currentcy: Option<Decimal>,
    pub accumulated: Option<Decimal>,
}

impl View for Prestige {
    type V = PrestigeView;

    open spec fn view(&self) -> PrestigeView {
        PrestigeView {
            currentcy: self.currentcy,
            accumulated: self.accumulated,
        }
    }
}

impl Record for Prestige {
    open spec fn schema(reencodings: Reencodings) -> RecordDescriptorView {
        RecordDescriptorView {
            name: "Prestige"@,
            fields: Seq::empty()
                .push(field_schema("currentcy"@, Cardinality::Optional, HintView::Number))
                .push(field_schema("accumulated"@, Cardinality::Optional, HintView::Number)),
        }
    }

    open spec fn of(value: ValueView) -> PrestigeView {
        PrestigeView {
            currentcy: number_in(slot_of(value, 0)),
            accumulated: number_in(slot_of(value, 1)),
        }
    }

    fn descriptor(reencodings: &Reencodings) -> (descriptor: RecordDescriptor) {
        RecordDescriptor::named("Prestige")
            .with(FieldDescriptor::optional("currentcy", Hint::Number))
            .with(FieldDescriptor::optional("accumulated", Hint::Number))
    }

    fn from_value(value: &Value) -> (record: Prestige) {
        Prestige {
            currentcy: number_at(value, 0),
            accumulated: number_at(value, 1),
        }
    }
}

/// A character's weight and the weight it tends to.
#[derive(Clone, Debug, PartialEq, Eq)]
pub struct Weight {
    pub current: Option<Decimal>,
    pub target: Option<Decimal>,
}

/// The mathematical value of a [`Weight`].
pub struct WeightView {
    pub current: Option<Decimal>,
    pub target: Option<Decimal>,
}

impl View for Weight {
    type V = WeightView;

    open spec fn view(&self) -> WeightView {
        WeightView {
            current: self.current,
            target: self.target,
        }
    }
}

impl Record for Weight {
    open spec fn schema(reencodings: Reencodings) -> RecordDescriptorView {
        RecordDescriptorView {
            name: "Weight"@,
            fields: Seq::empty()
                .push(field_schema("current"@, Cardinality::Optional, HintView::Number))
                .push(field_schema("target"@, Cardinality::Optional, HintView::Number)),
        }
    }

    open spec fn of(value: ValueView) -> WeightView {
        WeightView {
            current: number_in(slot_of(value, 0)),
            target: number_in(slot_of(value, 1)),
        }
    }

    fn descriptor(reencodings: &Reencodings) -> (descriptor: RecordDescriptor) {
        RecordDescriptor::named("Weight")
            .with(FieldDescriptor::optional("current", Hint::Number))
            .with(FieldDescriptor::optional("target", Hint::Number))
    }

    fn from_value(value: &Value) -> (record: Weight) {
        Weight {
            current: number_at(value, 0),
            target: number_at(value, 1),
        }
    }
}

} // verus!
