//! The records of the script variables kept with a character.

use vstd::prelude::*;
use crate::number::Decimal;
use crate::record::{
    every_record_at,
    every_record_in,
    list_view,
    number_at,
    number_in,
    option_view,
    Record,
    record_at,
    record_in,
    records_at,
    records_in,
    Reencodings,
    seq_view,
    slot_of,
    text_at,
    text_in,
};
use crate::schema::{
    Cardinality,
    field_schema,
    FieldDescriptor,
    Hint,
    HintView,
    RecordDescriptor,
    RecordDescriptorView,
    with_alias,
};
use crate::value::{Value, ValueView};

verus! {

/// The script variables kept with a character.
#[derive(Clone, Debug, PartialEq, Eq)]
pub struct Variables {
    pub data: Option<Vec<VariableData>>,
    pub list: Option<Vec<VariablesListData>>,
}

/// The mathematical value of a [`Variables`].
pub struct VariablesView {
    pub data: Option<Seq<VariableDataView>>,
    pub list: Option<Seq<VariablesListDataView>>,
}

impl View for Variables {
    type V = VariablesView;

    open spec fn view(&self) -> VariablesView {
        VariablesView {
            data: list_view(self.data),
            list: list_view(self.list),
        }
    }
}

impl Record for Variables {
    open spec fn schema(reencodings: Reencodings) -> RecordDescriptorView {
        RecordDescriptorView {
            name: "Variables"@,
            fields: Seq::empty()
                .push(
                    field_schema(
                        "data"@,
                        Cardinality::Optional,
                        HintView::List(
                            Box::new(HintView::Nested(VariableData::schema(reencodings))),
                        ),
                    ),
                )
                .push(
                    field_schema(
                        "list"@,
                        Cardinality::Optional,
                        HintView::List(
                            Box::new(HintView::Nested(VariablesListData::schema(reencodings))),
                        ),
                    ),
                ),
        }
    }

    open spec fn of(value: ValueView) -> VariablesView {
        VariablesView {
            data: records_in::<VariableData>(slot_of(value, 0)),
            list: records_in::<VariablesListData>(slot_of(value, 1)),
        }
    }

    fn descriptor(reencodings: &Reencodings) -> (descriptor: RecordDescriptor) {
        RecordDescriptor::named("Variables")
            .with(
                FieldDescriptor::optional(
                    "data",
                    Hint::list_of(Hint::nested(VariableData::descriptor(reencodings))),
                ),
            )
            .with(
                FieldDescriptor::optional(
                    "list",
                    Hint::list_of(Hint::nested(VariablesListData::descriptor(reencodings))),
                ),
            )
    }

    fn from_value(value: &Value) -> (record: Variables) {
        Variables {
            data: records_at::<VariableData>(value, 0),
            list: records_at::<VariablesListData>(value, 1),
        }
    }
}

/// One script variable.
#[derive(Clone, Debug, PartialEq, Eq)]
pub struct VariableData {
    pub flag: Option<String>,
    pub tick: Option<Decimal>,
    pub data: Option<VariableDataMap>,
}

/// The mathematical value of a [`VariableData`].
pub struct VariableDataView {
    pub flag: Option<Seq<char>>,
    pub tick: Option<Decimal>,
    pub data: Option<VariableDataMapView>,
}

impl View for VariableData {
    type V = VariableDataView;

    open spec fn view(&self) -> VariableDataView {
        VariableDataView {
            flag: option_view(self.flag),
            tick: self.tick,
            data: option_view(self.data),
        }
    }
}

impl Record for VariableData {
    open spec fn schema(reencodings: Reencodings) -> RecordDescriptorView {
        RecordDescriptorView {
            name: "VariableData"@,
            fields: Seq::empty()
                .push(field_schema("flag"@, Cardinality::Optional, HintView::Text))
                .push(field_schema("tick"@, Cardinality::Optional, HintView::Number))
                .push(
                    field_schema(
                        "data"@,
                        Cardinality::Optional,
                        HintView::Nested(VariableDataMap::schema(reencodings)),
                    ),
                ),
        }
    }

    open spec fn of(value: ValueView) -> VariableDataView {
        VariableDataView {
            flag: text_in(slot_of(value, 0)),
            tick: number_in(slot_of(value, 1)),
            data: record_in::<VariableDataMap>(slot_of(value, 2)),
        }
    }

    fn descriptor(reencodings: &Reencodings) -> (descriptor: RecordDescriptor) {
        RecordDescriptor::named("VariableData")
            .with(FieldDescriptor::optional("flag", Hint::Text))
            .with(FieldDescriptor::optional("tick", Hint::Number))
            .with(
                FieldDescriptor::optional(
                    "data",
                    Hint::nested(VariableDataMap::descriptor(reencodings)),
                ),
            )
    }

    fn from_value(value: &Value) -> (record: VariableData) {
        VariableData {
            flag: text_at(value, 0),
            tick: number_at(value, 1),
            data: record_at::<VariableDataMap>(value, 2),
        }
    }
}

/// What a script variable holds.
#[derive(Clone, Debug, PartialEq, Eq)]
pub struct VariableDataMap {
    pub _type: Option<String>,
    pub identity: Option<Decimal>,
}

/// The mathematical value of a [`VariableDataMap`].
pub struct VariableDataMapView {
    pub _type: Option<Seq<char>>,
    pub identity: Option<Decimal>,
}

impl View for VariableDataMap {
    type V = VariableDataMapView;

    open spec fn view(&self) -> VariableDataMapView {
        VariableDataMapView {
            _type: option_view(self._type),
            identity: self.identity,
        }
    }
}

impl Record for VariableDataMap {
    open spec fn schema(reencodings: Reencodings) -> RecordDescriptorView {
        RecordDescriptorView {
            name: "VariableDataMap"@,
            fields: Seq::empty()
                .push(
                    with_alias(
                        field_schema("_type"@, Cardinality::Optional, HintView::Text),
                        "type"@,
                    ),
                )
                .push(field_schema("identity"@, Cardinality::Optional, HintView::Number)),
        }
    }

    open spec fn of(value: ValueView) -> VariableDataMapView {
        VariableDataMapView {
            _type: text_in(slot_of(value, 0)),
            identity: number_in(slot_of(value, 1)),
        }
    }

    fn descriptor(reencodings: &Reencodings) -> (descriptor: RecordDescriptor) {
        RecordDescriptor::named("VariableDataMap")
            .with(FieldDescriptor::optional("_type", Hint::Text).alias("type"))
            .with(FieldDescriptor::optional("identity", Hint::Number))
    }

    fn from_value(value: &Value) -> (record: VariableDataMap) {
        VariableDataMap {
            _type: text_at(value, 0),
            identity: number_at(value, 1),
        }
    }
}

/// A named list of script variables.
#[derive(Clone, Debug, PartialEq, Eq)]
pub struct VariablesListData {
    pub name: Option<String>,
    pub item: Vec<VariableListItem>,
}

/// The mathematical value of a [`VariablesListData`].
pub struct VariablesListDataView {
    pub name: Option<Seq<char>>,
    pub item: Seq<VariableListItemView>,
}

impl View for VariablesListData {
    type V = VariablesListDataView;

    open spec fn view(&self) -> VariablesListDataView {
        VariablesListDataView {
            name: option_view(self.name),
            item: seq_view(self.item@),
        }
    }
}

impl Record for VariablesListData {
    open spec fn schema(reencodings: Reencodings) -> RecordDescriptorView {
        RecordDescriptorView {
            name: "VariablesListData"@,
            fields: Seq::empty()
                .push(field_schema("name"@, Cardinality::Optional, HintView::Text))
                .push(
                    field_schema(
                        "item"@,
                        Cardinality::Duplicated,
                        HintView::Nested(VariableListItem::schema(reencodings)),
                    ),
                ),
        }
    }

    open spec fn of(value: ValueView) -> VariablesListDataView {
        VariablesListDataView {
            name: text_in(slot_of(value, 0)),
            item: every_record_in::<VariableListItem>(slot_of(value, 1)),
        }
    }

    fn descriptor(reencodings: &Reencodings) -> (descriptor: RecordDescriptor) {
        RecordDescriptor::named("VariablesListData")
            .with(FieldDescriptor::optional("name", Hint::Text))
            .with(
                FieldDescriptor::duplicated(
                    "item",
                    Hint::nested(VariableListItem::descriptor(reencodings)),
                ),
            )
    }

    fn from_value(value: &Value) -> (record: VariablesListData) {
        VariablesListData {
            name: text_at(value, 0),
            item: every_record_at::<VariableListItem>(value, 1),
        }
    }
}

/// One item of a list of script variables.
#[derive(Clone, Debug, PartialEq, Eq)]
pub struct VariableListItem {
    pub _type: Option<String>,
    pub flag: Option<String>,
    pub identity: Option<Decimal>,
}

/// The mathematical value of a [`VariableListItem`].
pub struct VariableListItemView {
    pub _type: Option<Seq<char>>,
    pub flag: Option<Seq<char>>,
    pub identity: Option<Decimal>,
}

impl View for VariableListItem {
    type V = VariableListItemView;

    open spec fn view(&self) -> VariableListItemView {
        VariableListItemView {
            _type: option_view(self._type),
            flag: option_view(self.flag),
            identity: self.identity,
        }
    }
}

impl Record for VariableListItem {
    open spec fn schema(reencodings: Reencodings) -> RecordDescriptorView {
        RecordDescriptorView {
            name: "VariableListItem"@,
            fields: Seq::empty()
                .push(
                    with_alias(
                        field_schema("_type"@, Cardinality::Optional, HintView::Text),
                        "type"@,
                    ),
                )
                .push(field_schema("flag"@, Cardinality::Optional, HintView::Text))
                .push(field_schema("identity"@, Cardinality::Optional, HintView::Number)),
        }
    }

    open spec fn of(value: ValueView) -> VariableListItemView {
        VariableListItemView {
            _type: text_in(slot_of(value, 0)),
            flag: text_in(slot_of(value, 1)),
            identity: number_in(slot_of(value, 2)),
        }
    }

    fn descriptor(reencodings: &Reencodings) -> (descriptor: RecordDescriptor) {
        RecordDescriptor::named("VariableListItem")
            .with(FieldDescriptor::optional("_type", Hint::Text).alias("type"))
            .with(FieldDescriptor::optional("flag", Hint::Text))
            .with(FieldDescriptor::optional("identity", Hint::Number))
    }

    fn from_value(value: &Value) -> (record: VariableListItem) {
        VariableListItem {
            _type: text_at(value, 0),
            flag: text_at(value, 1),
            identity: number_at(value, 2),
        }
    }
}

} // verus!
