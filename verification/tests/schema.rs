use gamestate::binder::Tally;
use gamestate::date::{Date, Era};
use gamestate::digits::{scan_digits, SCAN_LIMIT};
use gamestate::error::{DecodeError, FieldError, FieldErrorKind};
use gamestate::number::{Decimal, Transform};
use gamestate::record::{
    bool_at, date_at, every_number_at, items_at, number_at, numbers_at, slot, text_at, texts_at,
};
use gamestate::schema::{
    Cardinality, Config, FieldDescriptor, Hint, RecordDescriptor, DEFAULT_MAX_DEPTH,
};
use gamestate::token::{copy_bytes, Entry, Node};
use gamestate::value::Value;

fn number(n: i64) -> Value {
    Value::Number(Decimal::whole(n))
}

fn present(value: Value) -> Value {
    Value::Present(Box::new(value))
}

fn failure(path: &[&str], kind: FieldErrorKind) -> FieldError {
    FieldError { path: path.iter().map(|name| name.to_string()).collect(), kind }
}

#[test]
fn the_standard_configuration_nests_to_five_hundred_and_twelve() {
    assert_eq!(DEFAULT_MAX_DEPTH, 512);
    assert_eq!(Config::standard(), Config { max_depth: 512, era: Era::Negative });
}

#[test]
fn a_field_is_written_under_its_name_and_its_aliases() {
    let field = FieldDescriptor::new("gold", Cardinality::Required, Hint::Number);
    assert_eq!(field.name, "gold");
    assert_eq!(field.aliases, ["gold"]);
    assert_eq!(field.cardinality, Cardinality::Required);
    assert!(matches!(field.hint, Hint::Number));
    let aliased = FieldDescriptor::optional("_type", Hint::Text).alias("type").alias("kind");
    assert_eq!(aliased.name, "_type");
    assert_eq!(aliased.aliases, ["_type", "type", "kind"]);
    assert_eq!(FieldDescriptor::optional("a", Hint::Text).cardinality, Cardinality::Optional);
    assert_eq!(FieldDescriptor::required("a", Hint::Text).cardinality, Cardinality::Required);
    assert_eq!(FieldDescriptor::duplicated("a", Hint::Text).cardinality, Cardinality::Duplicated);
    assert_eq!(FieldDescriptor::keyed("a", Hint::Text).cardinality, Cardinality::Keyed);
}

#[test]
fn a_record_descriptor_keeps_its_fields_in_the_order_added() {
    let record = RecordDescriptor::named("Piety")
        .with(FieldDescriptor::optional("currency", Hint::Number))
        .with(FieldDescriptor::optional("accumulated", Hint::Reencoded(Transform::times(1, 3))));
    assert_eq!(record.name, "Piety");
    let names: Vec<&str> = record.fields.iter().map(|field| field.name.as_str()).collect();
    assert_eq!(names, ["currency", "accumulated"]);
    assert!(RecordDescriptor::named("Empty").fields.is_empty());
    match Hint::list_of(Hint::nested(record)) {
        Hint::List(item) => match *item {
            Hint::Nested(inner) => assert_eq!(inner.name, "Piety"),
            _ => panic!("the items are records"),
        },
        _ => panic!("the hint is for an array"),
    }
}

#[test]
fn nodes_and_entries_copy_their_bytes() {
    assert_eq!(copy_bytes(b"gold"), b"gold");
    assert_eq!(copy_bytes(b""), b"");
    match Node::scalar(b"1500") {
        Node::Scalar(raw) => assert_eq!(raw, b"1500"),
        _ => panic!("a scalar"),
    }
    let entry = Entry::new(b"gold", Node::scalar(b"1"));
    assert_eq!(entry.key, b"gold");
    assert!(matches!(entry.node, Node::Scalar(_)));
}

#[test]
fn a_run_of_digits_is_scanned_up_to_its_end() {
    assert_eq!(scan_digits(b"1200.3.1", 0, 0, 100_000), (4, 1200));
    assert_eq!(scan_digits(b"1200.3.1", 5, 0, 100), (6, 3));
    assert_eq!(scan_digits(b"1200.3.1", 4, 0, 100), (4, 0));
    assert_eq!(scan_digits(b"1200.3.1", 8, 7, 100), (8, 7));
    assert_eq!(scan_digits(b"25", 0, 1, 1000), (2, 125));
    assert_eq!(scan_digits(b"99999", 0, 0, 100), (5, 100));
    assert_eq!(scan_digits(b"00000000000000000000000000000000000000000000009", 0, 0, 10), (47, 9));
    assert_eq!(
        scan_digits(b"9999999999999999999999999999999999999999", 0, 0, SCAN_LIMIT),
        (40, SCAN_LIMIT)
    );
    assert_eq!(scan_digits(b"", 0, 0, 0), (0, 0));
}

#[test]
fn an_error_is_put_under_the_name_of_its_field() {
    assert_eq!(
        DecodeError::single(FieldErrorKind::MalformedDate),
        DecodeError::Fields(vec![failure(&[], FieldErrorKind::MalformedDate)])
    );
    let inner = DecodeError::Fields(vec![
        failure(&[], FieldErrorKind::TypeMismatch),
        failure(&["focus", "date"], FieldErrorKind::MalformedDate),
    ]);
    assert_eq!(
        inner.under(&"alive_data".to_string()),
        DecodeError::Fields(vec![
            failure(&["alive_data"], FieldErrorKind::TypeMismatch),
            failure(&["alive_data", "focus", "date"], FieldErrorKind::MalformedDate),
        ])
    );
    assert_eq!(DecodeError::DepthExceeded.under(&"a".to_string()), DecodeError::DepthExceeded);
    assert_eq!(
        DecodeError::UnknownTopLevelShape.under(&"a".to_string()),
        DecodeError::UnknownTopLevelShape
    );
    assert_eq!(DecodeError::Fields(vec![]).under(&"a".to_string()), DecodeError::Fields(vec![]));
}

#[test]
fn a_tally_gathers_values_until_a_field_fails() {
    let tally = Tally::new().absorb(Ok(number(1))).unwrap().absorb(Ok(number(2))).unwrap();
    assert_eq!(tally.finish(), Ok(vec![number(1), number(2)]));
    assert_eq!(Tally::new().finish(), Ok(vec![]));
    let failed = Tally::new()
        .absorb(Ok(number(1)))
        .unwrap()
        .absorb(Err(DecodeError::single(FieldErrorKind::TypeMismatch)))
        .unwrap()
        .absorb(Ok(number(2)))
        .unwrap()
        .absorb(Err(DecodeError::Fields(vec![
            failure(&["a"], FieldErrorKind::MissingField),
            failure(&["b"], FieldErrorKind::MalformedDate),
        ])))
        .unwrap();
    assert_eq!(
        failed.finish(),
        Err(DecodeError::Fields(vec![
            failure(&[], FieldErrorKind::TypeMismatch),
            failure(&["a"], FieldErrorKind::MissingField),
            failure(&["b"], FieldErrorKind::MalformedDate),
        ]))
    );
    let empty_report = Tally::new().absorb(Err(DecodeError::Fields(vec![]))).unwrap();
    assert_eq!(empty_report.finish(), Err(DecodeError::Fields(vec![])));
}

#[test]
fn a_tally_ends_on_a_depth_or_shape_error() {
    let failed = Tally::new().absorb(Err(DecodeError::single(FieldErrorKind::TypeMismatch))).unwrap();
    assert_eq!(failed.absorb(Err(DecodeError::DepthExceeded)).err(), Some(DecodeError::DepthExceeded));
    assert_eq!(
        Tally::new().absorb(Err(DecodeError::UnknownTopLevelShape)).err(),
        Some(DecodeError::UnknownTopLevelShape)
    );
}

#[test]
fn slots_are_read_by_index_and_kind() {
    let date = Date { year: 1200, month: 3, day: 1 };
    let record = Value::Record(vec![
        present(number(5)),
        Value::Absent,
        Value::Text("plain".to_string()),
        present(Value::Bool(false)),
        present(Value::Date(date)),
        present(Value::List(vec![number(1), number(2)])),
        Value::List(vec![Value::Text("a".to_string()), Value::Text("b".to_string())]),
    ]);
    assert_eq!(slot(&record, 0), Some(&number(5)));
    assert_eq!(slot(&record, 1), None);
    assert_eq!(slot(&record, 2), Some(&Value::Text("plain".to_string())));
    assert_eq!(slot(&record, 7), None);
    assert_eq!(slot(&number(1), 0), None);
    assert_eq!(number_at(&record, 0), Some(Decimal::whole(5)));
    assert_eq!(number_at(&record, 1), None);
    assert_eq!(number_at(&record, 2), None);
    assert_eq!(text_at(&record, 2), Some("plain".to_string()));
    assert_eq!(text_at(&record, 0), None);
    assert_eq!(bool_at(&record, 3), Some(false));
    assert_eq!(bool_at(&record, 0), None);
    assert_eq!(date_at(&record, 4), Some(date));
    assert_eq!(date_at(&record, 3), None);
    assert_eq!(items_at(&record, 5), Some(&vec![number(1), number(2)]));
    assert_eq!(items_at(&record, 0), None);
    assert_eq!(numbers_at(&record, 5), Some(vec![Decimal::whole(1), Decimal::whole(2)]));
    assert_eq!(numbers_at(&record, 6), None);
    assert_eq!(numbers_at(&record, 1), None);
    assert_eq!(texts_at(&record, 6), Some(vec!["a".to_string(), "b".to_string()]));
    assert_eq!(texts_at(&record, 5), None);
    assert_eq!(every_number_at(&record, 5), vec![Decimal::whole(1), Decimal::whole(2)]);
    assert_eq!(every_number_at(&record, 6), vec![]);
    assert_eq!(every_number_at(&record, 9), vec![]);
}
