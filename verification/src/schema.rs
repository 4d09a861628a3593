//! The schema: which fields a record has, under which keys they are written,
//! how often they may occur and how their values are read.

use vstd::prelude::*;
use crate::date::Era;
use crate::error::names_view;
use crate::number::Transform;

verus! {

/// The depth to which records and arrays may nest unless configured
/// otherwise.
pub const DEFAULT_MAX_DEPTH: usize = 512;

/// How often a field may occur in an object and what it is bound to.
#[derive(Clone, Copy, Debug, PartialEq, Eq, Hash, Structural)]
pub enum Cardinality {
    /// At most one value; bound to absent when no key matches.
    Optional,
    /// Exactly one value; an error when no key matches.
    Required,
    /// Every occurrence, gathered in the order written; empty when no key
    /// matches.
    Duplicated,
    /// Every pair of the object whose key is a whole number, gathered in the
    /// order written under that number.
    Keyed,
}

/// How the value of a field is read.
#[derive(Debug)]
pub enum Hint {
    /// A decimal number, as written.
    Number,
    /// A decimal number, reinterpreted by the field's scale convention.
    Reencoded(Transform),
    /// Text.
    Text,
    /// `yes` or `no`.
    Boolean,
    /// A calendar date.
    Date,
    /// An object, bound against a record descriptor of its own.
    Nested(RecordDescriptor),
    /// An array whose items are each read in the same way.
    List(Box<Hint>),
}

/// One field of a record.
#[derive(Debug)]
pub struct FieldDescriptor {
    /// The name under which the field is reported.
    pub name: String,
    /// The keys under which the field is written.
    pub aliases: Vec<String>,
    pub cardinality: Cardinality,
    pub hint: Hint,
}

/// The fields of a record type, in the order in which they are bound.
#[derive(Debug)]
pub struct RecordDescriptor {
    pub name: String,
    pub fields: Vec<FieldDescriptor>,
}

/// Settings that hold for a whole decoding run.
#[derive(Clone, Copy, Debug, PartialEq, Eq, Structural)]
pub struct Config {
    /// How deep records and arrays may nest.
    pub max_depth: usize,
    /// How the years of dates are written.
    pub era: Era,
}

/// The mathematical value of a [`Hint`].
pub enum HintView {
    Number,
    Reencoded(Transform),
    Text,
    Boolean,
    Date,
    Nested(RecordDescriptorView),
    List(Box<HintView>),
}

/// The mathematical value of a [`FieldDescriptor`].
pub struct FieldDescriptorView {
    pub name: Seq<char>,
    pub aliases: Seq<Seq<char>>,
    pub cardinality: Cardinality,
    pub hint: HintView,
}

/// The mathematical value of a [`RecordDescriptor`].
pub struct RecordDescriptorView {
    pub name: Seq<char>,
    pub fields: Seq<FieldDescriptorView>,
}

/// The mathematical value of a hint.
pub open spec fn hint_view(hint: Hint) -> HintView
    decreases hint,
{
    match hint {
        Hint::Number => HintView::Number,
        Hint::Reencoded(transform) => HintView::Reencoded(transform),
        Hint::Text => HintView::Text,
        Hint::Boolean => HintView::Boolean,
        Hint::Date => HintView::Date,
        Hint::Nested(record) => HintView::Nested(record_view(record)),
        Hint::List(item) => HintView::List(Box::new(hint_view(*item))),
    }
}

/// The mathematical value of a field descriptor.
pub open spec fn field_view(field: FieldDescriptor) -> FieldDescriptorView
    decreases field,
{
    FieldDescriptorView {
        name: field.name@,
        aliases: names_view(field.aliases@),
        cardinality: field.cardinality,
        hint: hint_view(field.hint),
    }
}

/// The mathematical value of a record descriptor.
pub open spec fn record_view(record: RecordDescriptor) -> RecordDescriptorView
    decreases record,
{
    RecordDescriptorView {
        name: record.name@,
        fields: Seq::new(
            record.fields@.len(),
            |i: int|
                if 0 <= i < record.fields@.len() {
                    field_view(record.fields@[i])
                } else {
                    arbitrary()
                },
        ),
    }
}

/// The mathematical values of a run of field descriptors.
pub open spec fn fields_view(fields: Seq<FieldDescriptor>) -> Seq<FieldDescriptorView> {
    Seq::new(fields.len(), |i: int| fields[i]@)
}

/// A record descriptor's view holds the views of its fields.
pub proof fn lemma_record_view(record: RecordDescriptor)
    ensures
        record@.name == record.name@,
        record@.fields == fields_view(record.fields@),
{
    assert(record@.fields =~= fields_view(record.fields@));
}

impl View for Hint {
    type V = HintView;

    open spec fn view(&self) -> HintView {
        hint_view(*self)
    }
}

impl View for FieldDescriptor {
    type V = FieldDescriptorView;

    open spec fn view(&self) -> FieldDescriptorView {
        field_view(*self)
    }
}

impl View for RecordDescriptor {
    type V = RecordDescriptorView;

    open spec fn view(&self) -> RecordDescriptorView {
        record_view(*self)
    }
}

impl Config {
    /// The settings used when nothing else is asked for: nesting up to
    /// [`DEFAULT_MAX_DEPTH`] and years written as they are.
    pub fn standard() -> (config: Config)
        ensures
            config == (Config { max_depth: DEFAULT_MAX_DEPTH, era: Era::Negative }),
    {
        Config { max_depth: DEFAULT_MAX_DEPTH, era: Era::Negative }
    }
}

/// The field `name`, written under its own name only.
pub open spec fn field_schema(
    name: Seq<char>,
    cardinality: Cardinality,
    hint: HintView,
) -> FieldDescriptorView {
    FieldDescriptorView { name, aliases: seq![name], cardinality, hint }
}

/// A field with one more key under which it is written.
pub open spec fn with_alias(field: FieldDescriptorView, alias: Seq<char>) -> FieldDescriptorView {
    FieldDescriptorView {
        name: field.name,
        aliases: field.aliases.push(alias),
        cardinality: field.cardinality,
        hint: field.hint,
    }
}

impl Hint {
    /// The hint for an object bound against `record`.
    pub fn nested(record: RecordDescriptor) -> (hint: Hint)
        ensures
            hint@ == HintView::Nested(record@),
    {
        Hint::Nested(record)
    }

    /// The hint for an array whose items are each read by `item`.
    pub fn list_of(item: Hint) -> (hint: Hint)
        ensures
            hint@ == HintView::List(Box::new(item@)),
    {
        Hint::List(Box::new(item))
    }
}

impl FieldDescriptor {
    /// The field `name`, written under its own name.
    pub fn new(name: &str, cardinality: Cardinality, hint: Hint) -> (field: FieldDescriptor)
        ensures
            field@ == field_schema(name@, cardinality, hint@),
    {
        let mut aliases: Vec<String> = Vec::new();
        aliases.push(name.to_owned());
        let field = FieldDescriptor { name: name.to_owned(), aliases, cardinality, hint };
        assert(field@.aliases =~= seq![name@]);
        field
    }

    /// An optional field.
    pub fn optional(name: &str, hint: Hint) -> (field: FieldDescriptor)
        ensures
            field@ == field_schema(name@, Cardinality::Optional, hint@),
    {
        FieldDescriptor::new(name, Cardinality::Optional, hint)
    }

    /// A required field.
    pub fn required(name: &str, hint: Hint) -> (field: FieldDescriptor)
        ensures
            field@ == field_schema(name@, Cardinality::Required, hint@),
    {
        FieldDescriptor::new(name, Cardinality::Required, hint)
    }

    /// A field that gathers every occurrence of its key.
    pub fn duplicated(name: &str, hint: Hint) -> (field: FieldDescriptor)
        ensures
            field@ == field_schema(name@, Cardinality::Duplicated, hint@),
    {
        FieldDescriptor::new(name, Cardinality::Duplicated, hint)
    }

    /// A field that gathers every entry written under a whole number.
    pub fn keyed(name: &str, hint: Hint) -> (field: FieldDescriptor)
        ensures
            field@ == field_schema(name@, Cardinality::Keyed, hint@),
    {
        FieldDescriptor::new(name, Cardinality::Keyed, hint)
    }

    /// The same field, also written under `alias`.
    pub fn alias(self, alias: &str) -> (field: FieldDescriptor)
        ensures
            field@ == with_alias(self@, alias@),
    {
        let mut field = self;
        field.aliases.push(alias.to_owned());
        assert(field@.aliases =~= self@.aliases.push(alias@));
        field
    }
}

impl RecordDescriptor {
    /// A record type without fields.
    pub fn named(name: &str) -> (record: RecordDescriptor)
        ensures
            record@ == (RecordDescriptorView { name: name@, fields: Seq::empty() }),
    {
        let record = RecordDescriptor { name: name.to_owned(), fields: Vec::new() };
        assert(record@.fields =~= Seq::empty());
        record
    }

    /// The same record type with one more field at the end.
    pub fn with(self, field: FieldDescriptor) -> (record: RecordDescriptor)
        ensures
            record@ == (RecordDescriptorView {
                name: self@.name,
                fields: self@.fields.push(field@),
            }),
    {
        let mut record = self;
        record.fields.push(field);
        assert(record@.fields =~= self@.fields.push(field@));
        record
    }
}

} // verus!
