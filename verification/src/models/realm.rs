//! The records of a character's realm and court.

use vstd::prelude::*;
use crate::date::Date;
use crate::number::Decimal;
use crate::record::{
    date_at,
    date_in,
    number_at,
    number_in,
    numbers_at,
    numbers_in,
    numbers_view,
    option_view,
    Record,
    record_at,
    record_in,
    Reencodings,
    slot_of,
    text_at,
    text_in,
    texts_at,
    texts_in,
    texts_view,
};
use crate::schema::{
    Cardinality,
    field_schema,
    FieldDescriptor,
    Hint,
    HintView,
    RecordDescriptor,
    RecordDescriptorView,
};
use crate::value::{Value, ValueView};

verus! {

/// What is recorded of a character who holds land.
#[derive(Clone, Debug, PartialEq, Eq)]
pub struct LandedData {
    pub domain: Option<Vec<Decimal>>,
    pub vassal_contracts: Option<Vec<Decimal>>,
    pub unit: Option<Vec<Decimal>>,
    pub war: Option<Vec<Decimal>>,
    pub last_war_finish_date: Option<Date>,
    pub became_ruler_date: Option<Date>,
    pub laws: Option<Vec<String>>,
    pub current_strength: Option<Decimal>,
    pub strength: Option<Decimal>,
    pub strength_without_hires: Option<Decimal>,
    pub levy: Option<Decimal>,
    pub balance: Option<Decimal>,
    pub succession: Option<Vec<Decimal>>,
    pub domain_limit: Option<Decimal>,
    pub vassal_limit: Option<Decimal>,
    pub vassals_towards_limit: Option<Decimal>,
    pub government: Option<String>,
    pub realm_capital: Option<Decimal>,
    pub council: Option<Vec<Decimal>>,
    pub diplo_centers: Option<Vec<Decimal>>,
    pub decision_cooldowns: Option<DecisionCooldowns>,
    pub interaction_cooldowns: Option<InteractionCooldowns>,
    pub royal_court: Option<RoyalCourt>,
    pub court_positions: Option<Vec<Decimal>>,
}

/// The mathematical value of a [`LandedData`].
pub struct LandedDataView {
    pub domain: Option<Seq<Decimal>>,
    pub vassal_contracts: Option<Seq<Decimal>>,
    pub unit: Option<Seq<Decimal>>,
    pub war: Option<Seq<Decimal>>,
    pub last_war_finish_date: Option<Date>,
    pub became_ruler_date: Option<Date>,
    pub laws: Option<Seq<Seq<char>>>,
    pub current_strength: Option<Decimal>,
    pub strength: Option<Decimal>,
    pub strength_without_hires: Option<Decimal>,
    pub levy: Option<Decimal>,
    pub balance: Option<Decimal>,
    pub succession: Option<Seq<Decimal>>,
    pub domain_limit: Option<Decimal>,
    pub vassal_limit: Option<Decimal>,
    pub vassals_towards_limit: Option<Decimal>,
    pub government: Option<Seq<char>>,
    pub realm_capital: Option<Decimal>,
    pub council: Option<Seq<Decimal>>,
    pub diplo_centers: Option<Seq<Decimal>>,
    pub decision_cooldowns: Option<DecisionCooldownsView>,
    pub interaction_cooldowns: Option<InteractionCooldownsView>,
    pub royal_court: Option<RoyalCourtView>,
    pub court_positions: Option<Seq<Decimal>>,
}

impl View for LandedData {
    type V = LandedDataView;

    open spec fn view(&self) -> LandedDataView {
        LandedDataView {
            domain: numbers_view(self.domain),
            vassal_contracts: numbers_view(self.vassal_contracts),
            unit: numbers_view(self.unit),
            war: numbers_view(self.war),
            last_war_finish_date: self.last_war_finish_date,
            became_ruler_date: self.became_ruler_date,
            laws: texts_view(self.laws),
            current_strength: self.current_strength,
            strength: self.strength,
            strength_without_hires: self.strength_without_hires,
            levy: self.levy,
            balance: self.balance,
            succession: numbers_view(self.succession),
            domain_limit: self.domain_limit,
            vassal_limit: self.vassal_limit,
            vassals_towards_limit: self.vassals_towards_limit,
            government: option_view(self.government),
            realm_capital: self.realm_capital,
            council: numbers_view(self.council),
            diplo_centers: numbers_view(self.diplo_centers),
            decision_cooldowns: option_view(self.decision_cooldowns),
            interaction_cooldowns: option_view(self.interaction_cooldowns),
            royal_court: option_view(self.royal_court),
            court_positions: numbers_view(self.court_positions),
        }
    }
}

impl Record for LandedData {
    open spec fn schema(reencodings: Reencodings) -> RecordDescriptorView {
        RecordDescriptorView {
            name: "LandedData"@,
            fields: Seq::empty()
                .push(
                    field_schema(
                        "domain"@,
                        Cardinality::Optional,
                        HintView::List(Box::new(HintView::Number)),
                    ),
                )
                .push(
                    field_schema(
                        "vassal_contracts"@,
                        Cardinality::Optional,
                        HintView::List(Box::new(HintView::Number)),
                    ),
                )
                .push(
                    field_schema(
                        "unit"@,
                        Cardinality::Optional,
                        HintView::List(Box::new(HintView::Number)),
                    ),
                )
                .push(
                    field_schema(
                        "war"@,
                        Cardinality::Optional,
                        HintView::List(Box::new(HintView::Number)),
                    ),
                )
                .push(field_schema("last_war_finish_date"@, Cardinality::Optional, HintView::Date))
                .push(field_schema("became_ruler_date"@, Cardinality::Optional, HintView::Date))
                .push(
                    field_schema(
                        "laws"@,
                        Cardinality::Optional,
                        HintView::List(Box::new(HintView::Text)),
                    ),
                )
                .push(field_schema("current_strength"@, Cardinality::Optional, HintView::Number))
                .push(field_schema("strength"@, Cardinality::Optional, HintView::Number))
                .push(
                    field_schema(
                        "strength_without_hires"@,
                        Cardinality::Optional,
                        HintView::Number,
                    ),
                )
                .push(field_schema("levy"@, Cardinality::Optional, HintView::Number))
                .push(field_schema("balance"@, Cardinality::Optional, HintView::Number))
                .push(
                    field_schema(
                        "succession"@,
                        Cardinality::Optional,
                        HintView::List(Box::new(HintView::Number)),
                    ),
                )
                .push(field_schema("domain_limit"@, Cardinality::Optional, HintView::Number))
                .push(field_schema("vassal_limit"@, Cardinality::Optional, HintView::Number))
                .push(
                    field_schema("vassals_towards_limit"@, Cardinality::Optional, HintView::Number),
                )
                .push(field_schema("government"@, Cardinality::Optional, HintView::Text))
                .push(field_schema("realm_capital"@, Cardinality::Optional, HintView::Number))
                .push(
                    field_schema(
                        "council"@,
                        Cardinality::Optional,
                        HintView::List(Box::new(HintView::Number)),
                    ),
                )
                .push(
                    field_schema(
                        "diplo_centers"@,
                        Cardinality::Optional,
                        HintView::List(Box::new(HintView::Number)),
                    ),
                )
                .push(
                    field_schema(
                        "decision_cooldowns"@,
                        Cardinality::Optional,
                        HintView::Nested(DecisionCooldowns::schema(reencodings)),
                    ),
                )
                .push(
                    field_schema(
                        "interaction_cooldowns"@,
                        Cardinality::Optional,
                        HintView::Nested(InteractionCooldowns::schema(reencodings)),
                    ),
                )
                .push(
                    field_schema(
                        "royal_court"@,
                        Cardinality::Optional,
                        HintView::Nested(RoyalCourt::schema(reencodings)),
                    ),
                )
                .push(
                    field_schema(
                        "court_positions"@,
                        Cardinality::Optional,
                        HintView::List(Box::new(HintView::Number)),
                    ),
                ),
        }
    }

    open spec fn of(value: ValueView) -> LandedDataView {
        LandedDataView {
            domain: numbers_in(slot_of(value, 0)),
            vassal_contracts: numbers_in(slot_of(value, 1)),
            unit: numbers_in(slot_of(value, 2)),
            war: numbers_in(slot_of(value, 3)),
            last_war_finish_date: date_in(slot_of(value, 4)),
            became_ruler_date: date_in(slot_of(value, 5)),
            laws: texts_in(slot_of(value, 6)),
            current_strength: number_in(slot_of(value, 7)),
            strength: number_in(slot_of(value, 8)),
            strength_without_hires: number_in(slot_of(value, 9)),
            levy: number_in(slot_of(value, 10)),
            balance: number_in(slot_of(value, 11)),
            succession: numbers_in(slot_of(value, 12)),
            domain_limit: number_in(slot_of(value, 13)),
            vassal_limit: number_in(slot_of(value, 14)),
            vassals_towards_limit: number_in(slot_of(value, 15)),
            government: text_in(slot_of(value, 16)),
            realm_capital: number_in(slot_of(value, 17)),
            council: numbers_in(slot_of(value, 18)),
            diplo_centers: numbers_in(slot_of(value, 19)),
            decision_cooldowns: record_in::<DecisionCooldowns>(slot_of(value, 20)),
            interaction_cooldowns: record_in::<InteractionCooldowns>(slot_of(value, 21)),
            royal_court: record_in::<RoyalCourt>(slot_of(value, 22)),
            court_positions: numbers_in(slot_of(value, 23)),
        }
    }

    fn descriptor(reencodings: &Reencodings) -> (descriptor: RecordDescriptor) {
        RecordDescriptor::named("LandedData")
            .with(FieldDescriptor::optional("domain", Hint::list_of(Hint::Number)))
            .with(FieldDescriptor::optional("vassal_contracts", Hint::list_of(Hint::Number)))
            .with(FieldDescriptor::optional("unit", Hint::list_of(Hint::Number)))
            .with(FieldDescriptor::optional("war", Hint::list_of(Hint::Number)))
            .with(FieldDescriptor::optional("last_war_finish_date", Hint::Date))
            .with(FieldDescriptor::optional("became_ruler_date", Hint::Date))
            .with(FieldDescriptor::optional("laws", Hint::list_of(Hint::Text)))
            .with(FieldDescriptor::optional("current_strength", Hint::Number))
            .with(FieldDescriptor::optional("strength", Hint::Number))
            .with(FieldDescriptor::optional("strength_without_hires", Hint::Number))
            .with(FieldDescriptor::optional("levy", Hint::Number))
            .with(FieldDescriptor::optional("balance", Hint::Number))
            .with(FieldDescriptor::optional("succession", Hint::list_of(Hint::Number)))
            .with(FieldDescriptor::optional("domain_limit", Hint::Number))
            .with(FieldDescriptor::optional("vassal_limit", Hint::Number))
            .with(FieldDescriptor::optional("vassals_towards_limit", Hint::Number))
            .with(FieldDescriptor::optional("government", Hint::Text))
            .with(FieldDescriptor::optional("realm_capital", Hint::Number))
            .with(FieldDescriptor::optional("council", Hint::list_of(Hint::Number)))
            .with(FieldDescriptor::optional("diplo_centers", Hint::list_of(Hint::Number)))
            .with(
                FieldDescriptor::optional(
                    "decision_cooldowns",
                    Hint::nested(DecisionCooldowns::descriptor(reencodings)),
                ),
            )
            .with(
                FieldDescriptor::optional(
                    "interaction_cooldowns",
                    Hint::nested(InteractionCooldowns::descriptor(reencodings)),
                ),
            )
            .with(
                FieldDescriptor::optional(
                    "royal_court",
                    Hint::nested(RoyalCourt::descriptor(reencodings)),
                ),
            )
            .with(FieldDescriptor::optional("court_positions", Hint::list_of(Hint::Number)))
    }

    fn from_value(value: &Value) -> (record: LandedData) {
        LandedData {
            domain: numbers_at(value, 0),
            vassal_contracts: numbers_at(value, 1),
            unit: numbers_at(value, 2),
            war: numbers_at(value, 3),
            last_war_finish_date: date_at(value, 4),
            became_ruler_date: date_at(value, 5),
            laws: texts_at(value, 6),
            current_strength: number_at(value, 7),
            strength: number_at(value, 8),
            strength_without_hires: number_at(value, 9),
            levy: number_at(value, 10),
            balance: number_at(value, 11),
            succession: numbers_at(value, 12),
            domain_limit: number_at(value, 13),
            vassal_limit: number_at(value, 14),
            vassals_towards_limit: number_at(value, 15),
            government: text_at(value, 16),
            realm_capital: number_at(value, 17),
            council: numbers_at(value, 18),
            diplo_centers: numbers_at(value, 19),
            decision_cooldowns: record_at::<DecisionCooldowns>(value, 20),
            interaction_cooldowns: record_at::<InteractionCooldowns>(value, 21),
            royal_court: record_at::<RoyalCourt>(value, 22),
            court_positions: numbers_at(value, 23),
        }
    }
}

/// The day until which each decision cannot be taken again.
#[derive(Clone, Debug, PartialEq, Eq)]
pub struct DecisionCooldowns {
    pub commission_artifact_decision: Option<Date>,
    pub invite_knights_decision: Option<Date>,
    pub invite_claimants_decision: Option<Date>,
    pub diligent_development_focus_decision: Option<Date>,
    pub meditate_in_seclusion_decision: Option<Date>,
    pub host_feast_decision: Option<Date>,
    pub start_hunt_decision: Option<Date>,
    pub hold_court_decision: Option<Date>,
    pub ao_adoption_decision: Option<Date>,
    pub dag_cdo_buy_slave_decision: Option<Date>,
    pub dag_cdo_host_orgy_decision: Option<Date>,
    pub dag_cdo_visit_royal_brothel_decision: Option<Date>,
    pub ie_host_orgy_decision: Option<Date>,
    pub qs_invite_holy_man: Option<Date>,
    pub qs_invite_debutante: Option<Date>,
    pub qs_invite_noble: Option<Date>,
    pub qs_invite_poet: Option<Date>,
    pub invite_novice: Option<Date>,
    pub adroit_visit_church_brothel_decision: Option<Date>,
}

/// The mathematical value of a [`DecisionCooldowns`].
pub struct DecisionCooldownsView {
    pub commission_artifact_decision: Option<Date>,
    pub invite_knights_decision: Option<Date>,
    pub invite_claimants_decision: Option<Date>,
    pub diligent_development_focus_decision: Option<Date>,
    pub meditate_in_seclusion_decision: Option<Date>,
    pub host_feast_decision: Option<Date>,
    pub start_hunt_decision: Option<Date>,
    pub hold_court_decision: Option<Date>,
    pub ao_adoption_decision: Option<Date>,
    pub dag_cdo_buy_slave_decision: Option<Date>,
    pub dag_cdo_host_orgy_decision: Option<Date>,
    pub dag_cdo_visit_royal_brothel_decision: Option<Date>,
    pub ie_host_orgy_decision: Option<Date>,
    pub qs_invite_holy_man: Option<Date>,
    pub qs_invite_debutante: Option<Date>,
    pub qs_invite_noble: Option<Date>,
    pub qs_invite_poet: Option<Date>,
    pub invite_novice: Option<Date>,
    pub adroit_visit_church_brothel_decision: Option<Date>,
}

impl View for DecisionCooldowns {
    type V = DecisionCooldownsView;

    open spec fn view(&self) -> DecisionCooldownsView {
        DecisionCooldownsView {
            commission_artifact_decision: self.commission_artifact_decision,
            invite_knights_decision: self.invite_knights_decision,
            invite_claimants_decision: self.invite_claimants_decision,
            diligent_development_focus_decision: self.diligent_development_focus_decision,
            meditate_in_seclusion_decision: self.meditate_in_seclusion_decision,
            host_feast_decision: self.host_feast_decision,
            start_hunt_decision: self.start_hunt_decision,
            hold_court_decision: self.hold_court_decision,
            ao_adoption_decision: self.ao_adoption_decision,
            dag_cdo_buy_slave_decision: self.dag_cdo_buy_slave_decision,
            dag_cdo_host_orgy_decision: self.dag_cdo_host_orgy_decision,
            dag_cdo_visit_royal_brothel_decision: self.dag_cdo_visit_royal_brothel_decision,
            ie_host_orgy_decision: self.ie_host_orgy_decision,
            qs_invite_holy_man: self.qs_invite_holy_man,
            qs_invite_debutante: self.qs_invite_debutante,
            qs_invite_noble: self.qs_invite_noble,
            qs_invite_poet: self.qs_invite_poet,
            invite_novice: self.invite_novice,
            adroit_visit_church_brothel_decision: self.adroit_visit_church_brothel_decision,
        }
    }
}

impl Record for DecisionCooldowns {
    open spec fn schema(reencodings: Reencodings) -> RecordDescriptorView {
        RecordDescriptorView {
            name: "DecisionCooldowns"@,
            fields: Seq::empty()
                .push(
                    field_schema(
                        "commission_artifact_decision"@,
                        Cardinality::Optional,
                        HintView::Date,
                    ),
                )
                .push(
                    field_schema("invite_knights_decision"@, Cardinality::Optional, HintView::Date),
                )
                .push(
                    field_schema(
                        "invite_claimants_decision"@,
                        Cardinality::Optional,
                        HintView::Date,
                    ),
                )
                .push(
                    field_schema(
                        "diligent_development_focus_decision"@,
                        Cardinality::Optional,
                        HintView::Date,
                    ),
                )
                .push(
                    field_schema(
                        "meditate_in_seclusion_decision"@,
                        Cardinality::Optional,
                        HintView::Date,
                    ),
                )
                .push(field_schema("host_feast_decision"@, Cardinality::Optional, HintView::Date))
                .push(field_schema("start_hunt_decision"@, Cardinality::Optional, HintView::Date))
                .push(field_schema("hold_court_decision"@, Cardinality::Optional, HintView::Date))
                .push(field_schema("ao_adoption_decision"@, Cardinality::Optional, HintView::Date))
                .push(
                    field_schema(
                        "dag_cdo_buy_slave_decision"@,
                        Cardinality::Optional,
                        HintView::Date,
                    ),
                )
                .push(
                    field_schema(
                        "dag_cdo_host_orgy_decision"@,
                        Cardinality::Optional,
                        HintView::Date,
                    ),
                )
                .push(
                    field_schema(
                        "dag_cdo_visit_royal_brothel_decision"@,
                        Cardinality::Optional,
                        HintView::Date,
                    ),
                )
                .push(field_schema("ie_host_orgy_decision"@, Cardinality::Optional, HintView::Date))
                .push(field_schema("qs_invite_holy_man"@, Cardinality::Optional, HintView::Date))
                .push(field_schema("qs_invite_debutante"@, Cardinality::Optional, HintView::Date))
                .push(field_schema("qs_invite_noble"@, Cardinality::Optional, HintView::Date))
                .push(field_schema("qs_invite_poet"@, Cardinality::Optional, HintView::Date))
                .push(field_schema("invite_novice"@, Cardinality::Optional, HintView::Date))
                .push(
                    field_schema(
                        "adroit_visit_church_brothel_decision"@,
                        Cardinality::Optional,
                        HintView::Date,
                    ),
                ),
        }
    }

    open spec fn of(value: ValueView) -> DecisionCooldownsView {
        DecisionCooldownsView {
            commission_artifact_decision: date_in(slot_of(value, 0)),
            invite_knights_decision: date_in(slot_of(value, 1)),
            invite_claimants_decision: date_in(slot_of(value, 2)),
            diligent_development_focus_decision: date_in(slot_of(value, 3)),
            meditate_in_seclusion_decision: date_in(slot_of(value, 4)),
            host_feast_decision: date_in(slot_of(value, 5)),
            start_hunt_decision: date_in(slot_of(value, 6)),
            hold_court_decision: date_in(slot_of(value, 7)),
            ao_adoption_decision: date_in(slot_of(value, 8)),
            dag_cdo_buy_slave_decision: date_in(slot_of(value, 9)),
            dag_cdo_host_orgy_decision: date_in(slot_of(value, 10)),
            dag_cdo_visit_royal_brothel_decision: date_in(slot_of(value, 11)),
            ie_host_orgy_decision: date_in(slot_of(value, 12)),
            qs_invite_holy_man: date_in(slot_of(value, 13)),
            qs_invite_debutante: date_in(slot_of(value, 14)),
            qs_invite_noble: date_in(slot_of(value, 15)),
            qs_invite_poet: date_in(slot_of(value, 16)),
            invite_novice: date_in(slot_of(value, 17)),
            adroit_visit_church_brothel_decision: date_in(slot_of(value, 18)),
        }
    }

    fn descriptor(reencodings: &Reencodings) -> (descriptor: RecordDescriptor) {
        RecordDescriptor::named("DecisionCooldowns")
            .with(FieldDescriptor::optional("commission_artifact_decision", Hint::Date))
            .with(FieldDescriptor::optional("invite_knights_decision", Hint::Date))
            .with(FieldDescriptor::optional("invite_claimants_decision", Hint::Date))
            .with(FieldDescriptor::optional("diligent_development_focus_decision", Hint::Date))
            .with(FieldDescriptor::optional("meditate_in_seclusion_decision", Hint::Date))
            .with(FieldDescriptor::optional("host_feast_decision", Hint::Date))
            .with(FieldDescriptor::optional("start_hunt_decision", Hint::Date))
            .with(FieldDescriptor::optional("hold_court_decision", Hint::Date))
            .with(FieldDescriptor::optional("ao_adoption_decision", Hint::Date))
            .with(FieldDescriptor::optional("dag_cdo_buy_slave_decision", Hint::Date))
            .with(FieldDescriptor::optional("dag_cdo_host_orgy_decision", Hint::Date))
            .with(FieldDescriptor::optional("dag_cdo_visit_royal_brothel_decision", Hint::Date))
            .with(FieldDescriptor::optional("ie_host_orgy_decision", Hint::Date))
            .with(FieldDescriptor::optional("qs_invite_holy_man", Hint::Date))
            .with(FieldDescriptor::optional("qs_invite_debutante", Hint::Date))
            .with(FieldDescriptor::optional("qs_invite_noble", Hint::Date))
            .with(FieldDescriptor::optional("qs_invite_poet", Hint::Date))
            .with(FieldDescriptor::optional("invite_novice", Hint::Date))
            .with(FieldDescriptor::optional("adroit_visit_church_brothel_decision", Hint::Date))
    }

    fn from_value(value: &Value) -> (record: DecisionCooldowns) {
        DecisionCooldowns {
            commission_artifact_decision: date_at(value, 0),
            invite_knights_decision: date_at(value, 1),
            invite_claimants_decision: date_at(value, 2),
            diligent_development_focus_decision: date_at(value, 3),
            meditate_in_seclusion_decision: date_at(value, 4),
            host_feast_decision: date_at(value, 5),
            start_hunt_decision: date_at(value, 6),
            hold_court_decision: date_at(value, 7),
            ao_adoption_decision: date_at(value, 8),
            dag_cdo_buy_slave_decision: date_at(value, 9),
            dag_cdo_host_orgy_decision: date_at(value, 10),
            dag_cdo_visit_royal_brothel_decision: date_at(value, 11),
            ie_host_orgy_decision: date_at(value, 12),
            qs_invite_holy_man: date_at(value, 13),
            qs_invite_debutante: date_at(value, 14),
            qs_invite_noble: date_at(value, 15),
            qs_invite_poet: date_at(value, 16),
            invite_novice: date_at(value, 17),
            adroit_visit_church_brothel_decision: date_at(value, 18),
        }
    }
}

/// The day until which each interaction cannot be used again.
#[derive(Clone, Debug, PartialEq, Eq)]
pub struct InteractionCooldowns {
    pub carn_sex_interaction: Option<Date>,
    pub carnal_court_sex_interaction: Option<Date>,
    pub start_rapta_maritus: Option<Date>,
    pub regula_covert_conversion_interaction: Option<Date>,
    pub adroit_visit_priestess_interaction: Option<Date>,
}

/// The mathematical value of a [`InteractionCooldowns`].
pub struct InteractionCooldownsView {
    pub carn_sex_interaction: Option<Date>,
    pub carnal_court_sex_interaction: Option<Date>,
    pub start_rapta_maritus: Option<Date>,
    pub regula_covert_conversion_interaction: Option<Date>,
    pub adroit_visit_priestess_interaction: Option<Date>,
}

impl View for InteractionCooldowns {
    type V = InteractionCooldownsView;

    open spec fn view(&self) -> InteractionCooldownsView {
        InteractionCooldownsView {
            carn_sex_interaction: self.carn_sex_interaction,
            carnal_court_sex_interaction: self.carnal_court_sex_interaction,
            start_rapta_maritus: self.start_rapta_maritus,
            regula_covert_conversion_interaction: self.regula_covert_conversion_interaction,
            adroit_visit_priestess_interaction: self.adroit_visit_priestess_interaction,
        }
    }
}

impl Record for InteractionCooldowns {
    open spec fn schema(reencodings: Reencodings) -> RecordDescriptorView {
        RecordDescriptorView {
            name: "InteractionCooldowns"@,
            fields: Seq::empty()
                .push(field_schema("carn_sex_interaction"@, Cardinality::Optional, HintView::Date))
                .push(
                    field_schema(
                        "carnal_court_sex_interaction"@,
                        Cardinality::Optional,
                        HintView::Date,
                    ),
                )
                .push(field_schema("start_rapta_maritus"@, Cardinality::Optional, HintView::Date))
                .push(
                    field_schema(
                        "regula_covert_conversion_interaction"@,
                        Cardinality::Optional,
                        HintView::Date,
                    ),
                )
                .push(
                    field_schema(
                        "adroit_visit_priestess_interaction"@,
                        Cardinality::Optional,
                        HintView::Date,
                    ),
                ),
        }
    }

    open spec fn of(value: ValueView) -> InteractionCooldownsView {
        InteractionCooldownsView {
            carn_sex_interaction: date_in(slot_of(value, 0)),
            carnal_court_sex_interaction: date_in(slot_of(value, 1)),
            start_rapta_maritus: date_in(slot_of(value, 2)),
            regula_covert_conversion_interaction: date_in(slot_of(value, 3)),
            adroit_visit_priestess_interaction: date_in(slot_of(value, 4)),
        }
    }

    fn descriptor(reencodings: &Reencodings) -> (descriptor: RecordDescriptor) {
        RecordDescriptor::named("InteractionCooldowns")
            .with(FieldDescriptor::optional("carn_sex_interaction", Hint::Date))
            .with(FieldDescriptor::optional("carnal_court_sex_interaction", Hint::Date))
            .with(FieldDescriptor::optional("start_rapta_maritus", Hint::Date))
            .with(FieldDescriptor::optional("regula_covert_conversion_interaction", Hint::Date))
            .with(FieldDescriptor::optional("adroit_visit_priestess_interaction", Hint::Date))
    }

    fn from_value(value: &Value) -> (record: InteractionCooldowns) {
        InteractionCooldowns {
            carn_sex_interaction: date_at(value, 0),
            carnal_court_sex_interaction: date_at(value, 1),
            start_rapta_maritus: date_at(value, 2),
            regula_covert_conversion_interaction: date_at(value, 3),
            adroit_visit_priestess_interaction: date_at(value, 4),
        }
    }
}

/// A ruler's royal court.
#[derive(Clone, Debug, PartialEq, Eq)]
pub struct RoyalCourt {
    pub court_grandeur: Option<CourtGrandeur>,
    pub court_amenitie: Option<CourtAmenities>,
    pub court_type: Option<CourtType>,
    pub language: Option<String>,
    pub language_adoption_date: Option<Date>,
}

/// The mathematical value of a [`RoyalCourt`].
pub struct RoyalCourtView {
    pub court_grandeur: Option<CourtGrandeurView>,
    pub court_amenitie: Option<CourtAmenitiesView>,
    pub court_type: Option<CourtTypeView>,
    pub language: Option<Seq<char>>,
    pub language_adoption_date: Option<Date>,
}

impl View for RoyalCourt {
    type V = RoyalCourtView;

    open spec fn view(&self) -> RoyalCourtView {
        RoyalCourtView {
            court_grandeur: option_view(self.court_grandeur),
            court_amenitie: option_view(self.court_amenitie),
            court_type: option_view(self.court_type),
            language: option_view(self.language),
            language_adoption_date: self.language_adoption_date,
        }
    }
}

impl Record for RoyalCourt {
    open spec fn schema(reencodings: Reencodings) -> RecordDescriptorView {
        RecordDescriptorView {
            name: "RoyalCourt"@,
            fields: Seq::empty()
                .push(
                    field_schema(
                        "court_grandeur"@,
                        Cardinality::Optional,
                        HintView::Nested(CourtGrandeur::schema(reencodings)),
                    ),
                )
                .push(
                    field_schema(
                        "court_amenitie"@,
                        Cardinality::Optional,
                        HintView::Nested(CourtAmenities::schema(reencodings)),
                    ),
                )
                .push(
                    field_schema(
                        "court_type"@,
                        Cardinality::Optional,
                        HintView::Nested(CourtType::schema(reencodings)),
                    ),
                )
                .push(field_schema("language"@, Cardinality::Optional, HintView::Text))
                .push(
                    field_schema("language_adoption_date"@, Cardinality::Optional, HintView::Date),
                ),
        }
    }

    open spec fn of(value: ValueView) -> RoyalCourtView {
        RoyalCourtView {
            court_grandeur: record_in::<CourtGrandeur>(slot_of(value, 0)),
            court_amenitie: record_in::<CourtAmenities>(slot_of(value, 1)),
            court_type: record_in::<CourtType>(slot_of(value, 2)),
            language: text_in(slot_of(value, 3)),
            language_adoption_date: date_in(slot_of(value, 4)),
        }
    }

    fn descriptor(reencodings: &Reencodings) -> (descriptor: RecordDescriptor) {
        RecordDescriptor::named("RoyalCourt")
            .with(
                FieldDescriptor::optional(
                    "court_grandeur",
                    Hint::nested(CourtGrandeur::descriptor(reencodings)),
                ),
            )
            .with(
                FieldDescriptor::optional(
                    "court_amenitie",
                    Hint::nested(CourtAmenities::descriptor(reencodings)),
                ),
            )
            .with(
                FieldDescriptor::optional(
                    "court_type",
                    Hint::nested(CourtType::descriptor(reencodings)),
                ),
            )
            .with(FieldDescriptor::optional("language", Hint::Text))
            .with(FieldDescriptor::optional("language_adoption_date", Hint::Date))
    }

    fn from_value(value: &Value) -> (record: RoyalCourt) {
        RoyalCourt {
            court_grandeur: record_at::<CourtGrandeur>(value, 0),
            court_amenitie: record_at::<CourtAmenities>(value, 1),
            court_type: record_at::<CourtType>(value, 2),
            language: text_at(value, 3),
            language_adoption_date: date_at(value, 4),
        }
    }
}

/// How grand a court is and how grand it is expected to be.
#[derive(Clone, Debug, PartialEq, Eq)]
pub struct CourtGrandeur {
    pub base: Option<Decimal>,
    pub current: Option<Decimal>,
    pub expected: Option<Decimal>,
}

/// The mathematical value of a [`CourtGrandeur`].
pub struct CourtGrandeurView {
    pub base: Option<Decimal>,
    pub current: Option<Decimal>,
    pub expected: Option<Decimal>,
}

impl View for CourtGrandeur {
    type V = CourtGrandeurView;

    open spec fn view(&self) -> CourtGrandeurView {
        CourtGrandeurView {
            base: self.base,
            current: self.current,
            expected: self.expected,
        }
    }
}

impl Record for CourtGrandeur {
    open spec fn schema(reencodings: Reencodings) -> RecordDescriptorView {
        RecordDescriptorView {
            name: "CourtGrandeur"@,
            fields: Seq::empty()
                .push(field_schema("base"@, Cardinality::Optional, HintView::Number))
                .push(field_schema("current"@, Cardinality::Optional, HintView::Number))
                .push(field_schema("expected"@, Cardinality::Optional, HintView::Number)),
        }
    }

    open spec fn of(value: ValueView) -> CourtGrandeurView {
        CourtGrandeurView {
            base: number_in(slot_of(value, 0)),
            current: number_in(slot_of(value, 1)),
            expected: number_in(slot_of(value, 2)),
        }
    }

    fn descriptor(reencodings: &Reencodings) -> (descriptor: RecordDescriptor) {
        RecordDescriptor::named("CourtGrandeur")
            .with(FieldDescriptor::optional("base", Hint::Number))
            .with(FieldDescriptor::optional("current", Hint::Number))
            .with(FieldDescriptor::optional("expected", Hint::Number))
    }

    fn from_value(value: &Value) -> (record: CourtGrandeur) {
        CourtGrandeur {
            base: number_at(value, 0),
            current: number_at(value, 1),
            expected: number_at(value, 2),
        }
    }
}

/// The level of each amenity of a court.
#[derive(Clone, Debug, PartialEq, Eq)]
pub struct CourtAmenities {
    pub court_fashion: Option<String>,
    pub court_food_qualit: Option<String>,
    pub court_lodging_standards: Option<String>,
    pub court_servants: Option<String>,
    pub cooldown: Option<CourtAmenitiesCooldown>,
}

/// The mathematical value of a [`CourtAmenities`].
pub struct CourtAmenitiesView {
    pub court_fashion: Option<Seq<char>>,
    pub court_food_qualit: Option<Seq<char>>,
    pub court_lodging_standards: Option<Seq<char>>,
    pub court_servants: Option<Seq<char>>,
    pub cooldown: Option<CourtAmenitiesCooldownView>,
}

impl View for CourtAmenities {
    type V = CourtAmenitiesView;

    open spec fn view(&self) -> CourtAmenitiesView {
        CourtAmenitiesView {
            court_fashion: option_view(self.court_fashion),
            court_food_qualit: option_view(self.court_food_qualit),
            court_lodging_standards: option_view(self.court_lodging_standards),
            court_servants: option_view(self.court_servants),
            cooldown: option_view(self.cooldown),
        }
    }
}

impl Record for CourtAmenities {
    open spec fn schema(reencodings: Reencodings) -> RecordDescriptorView {
        RecordDescriptorView {
            name: "CourtAmenities"@,
            fields: Seq::empty()
                .push(field_schema("court_fashion"@, Cardinality::Optional, HintView::Text))
                .push(field_schema("court_food_qualit"@, Cardinality::Optional, HintView::Text))
                .push(
                    field_schema("court_lodging_standards"@, Cardinality::Optional, HintView::Text),
                )
                .push(field_schema("court_servants"@, Cardinality::Optional, HintView::Text))
                .push(
                    field_schema(
                        "cooldown"@,
                        Cardinality::Optional,
                        HintView::Nested(CourtAmenitiesCooldown::schema(reencodings)),
                    ),
                ),
        }
    }

    open spec fn of(value: ValueView) -> CourtAmenitiesView {
        CourtAmenitiesView {
            court_fashion: text_in(slot_of(value, 0)),
            court_food_qualit: text_in(slot_of(value, 1)),
            court_lodging_standards: text_in(slot_of(value, 2)),
            court_servants: text_in(slot_of(value, 3)),
            cooldown: record_in::<CourtAmenitiesCooldown>(slot_of(value, 4)),
        }
    }

    fn descriptor(reencodings: &Reencodings) -> (descriptor: RecordDescriptor) {
        RecordDescriptor::named("CourtAmenities")
            .with(FieldDescriptor::optional("court_fashion", Hint::Text))
            .with(FieldDescriptor::optional("court_food_qualit", Hint::Text))
            .with(FieldDescriptor::optional("court_lodging_standards", Hint::Text))
            .with(FieldDescriptor::optional("court_servants", Hint::Text))
            .with(
                FieldDescriptor::optional(
                    "cooldown",
                    Hint::nested(CourtAmenitiesCooldown::descriptor(reencodings)),
                ),
            )
    }

    fn from_value(value: &Value) -> (record: CourtAmenities) {
        CourtAmenities {
            court_fashion: text_at(value, 0),
            court_food_qualit: text_at(value, 1),
            court_lodging_standards: text_at(value, 2),
            court_servants: text_at(value, 3),
            cooldown: record_at::<CourtAmenitiesCooldown>(value, 4),
        }
    }
}

/// The day until which each amenity of a court cannot be changed again.
#[derive(Clone, Debug, PartialEq, Eq)]
pub struct CourtAmenitiesCooldown {
    pub court_fashion: Option<Date>,
    pub court_food_quality: Option<Date>,
    pub court_lodging_standards: Option<Date>,
    pub court_servants: Option<Date>,
}

/// The mathematical value of a [`CourtAmenitiesCooldown`].
pub struct CourtAmenitiesCooldownView {
    pub court_fashion: Option<Date>,
    pub court_food_quality: Option<Date>,
    pub court_lodging_standards: Option<Date>,
    pub court_servants: Option<Date>,
}

impl View for CourtAmenitiesCooldown {
    type V = CourtAmenitiesCooldownView;

    open spec fn view(&self) -> CourtAmenitiesCooldownView {
        CourtAmenitiesCooldownView {
            court_fashion: self.court_fashion,
            court_food_quality: self.court_food_quality,
            court_lodging_standards: self.court_lodging_standards,
            court_servants: self.court_servants,
        }
    }
}

impl Record for CourtAmenitiesCooldown {
    open spec fn schema(reencodings: Reencodings) -> RecordDescriptorView {
        RecordDescriptorView {
            name: "CourtAmenitiesCooldown"@,
            fields: Seq::empty()
                .push(field_schema("court_fashion"@, Cardinality::Optional, HintView::Date))
                .push(field_schema("court_food_quality"@, Cardinality::Optional, HintView::Date))
                .push(
                    field_schema("court_lodging_standards"@, Cardinality::Optional, HintView::Date),
                )
                .push(field_schema("court_servants"@, Cardinality::Optional, HintView::Date)),
        }
    }

    open spec fn of(value: ValueView) -> CourtAmenitiesCooldownView {
        CourtAmenitiesCooldownView {
            court_fashion: date_in(slot_of(value, 0)),
            court_food_quality: date_in(slot_of(value, 1)),
            court_lodging_standards: date_in(slot_of(value, 2)),
            court_servants: date_in(slot_of(value, 3)),
        }
    }

    fn descriptor(reencodings: &Reencodings) -> (descriptor: RecordDescriptor) {
        RecordDescriptor::named("CourtAmenitiesCooldown")
            .with(FieldDescriptor::optional("court_fashion", Hint::Date))
            .with(FieldDescriptor::optional("court_food_quality", Hint::Date))
            .with(FieldDescriptor::optional("court_lodging_standards", Hint::Date))
            .with(FieldDescriptor::optional("court_servants", Hint::Date))
    }

    fn from_value(value: &Value) -> (record: CourtAmenitiesCooldown) {
        CourtAmenitiesCooldown {
            court_fashion: date_at(value, 0),
            court_food_quality: date_at(value, 1),
            court_lodging_standards: date_at(value, 2),
            court_servants: date_at(value, 3),
        }
    }
}

/// The kind of court that a ruler keeps.
#[derive(Clone, Debug, PartialEq, Eq)]
pub struct CourtType {
    pub court_type: Option<String>,
    pub last_court_type_switch_date: Option<Date>,
}

/// The mathematical value of a [`CourtType`].
pub struct CourtTypeView {
    pub court_type: Option<Seq<char>>,
    pub last_court_type_switch_date: Option<Date>,
}

impl View for CourtType {
    type V = CourtTypeView;

    open spec fn view(&self) -> CourtTypeView {
        CourtTypeView {
            court_type: option_view(self.court_type),
            last_court_type_switch_date: self.last_court_type_switch_date,
        }
    }
}

impl Record for CourtType {
    open spec fn schema(reencodings: Reencodings) -> RecordDescriptorView {
        RecordDescriptorView {
            name: "CourtType"@,
            fields: Seq::empty()
                .push(field_schema("court_type"@, Cardinality::Optional, HintView::Text))
                .push(
                    field_schema(
                        "last_court_type_switch_date"@,
                        Cardinality::Optional,
                        HintView::Date,
                    ),
                ),
        }
    }

    open spec fn of(value: ValueView) -> CourtTypeView {
        CourtTypeView {
            court_type: text_in(slot_of(value, 0)),
            last_court_type_switch_date: date_in(slot_of(value, 1)),
        }
    }

    fn descriptor(reencodings: &Reencodings) -> (descriptor: RecordDescriptor) {
        RecordDescriptor::named("CourtType")
            .with(FieldDescriptor::optional("court_type", Hint::Text))
            .with(FieldDescriptor::optional("last_court_type_switch_date", Hint::Date))
    }

    fn from_value(value: &Value) -> (record: CourtType) {
        CourtType {
            court_type: text_at(value, 0),
            last_court_type_switch_date: date_at(value, 1),
        }
    }
}

} // verus!
