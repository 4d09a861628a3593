use gamestate::binder::{bind, bind_field, bind_record, decode_node, find_last, key_among, same_bytes};
use gamestate::date::{Date, Era};
use gamestate::error::{DecodeError, FieldError, FieldErrorKind};
use gamestate::number::{Decimal, Transform};
use gamestate::schema::{Cardinality, Config, FieldDescriptor, Hint, RecordDescriptor};
use gamestate::token::{Entry, Node};
use gamestate::value::{KeyedValue, Value};

fn scalar(text: &str) -> Node {
    Node::scalar(text.as_bytes())
}

fn pair(key: &str, node: Node) -> Entry {
    Entry::new(key.as_bytes(), node)
}

fn object(entries: Vec<Entry>) -> Node {
    Node::Object(entries)
}

fn array(items: Vec<Node>) -> Node {
    Node::Array(items)
}

fn number(mantissa: i64, scale: u8) -> Value {
    Value::Number(Decimal { mantissa, scale })
}

fn text(value: &str) -> Value {
    Value::Text(value.to_string())
}

fn present(value: Value) -> Value {
    Value::Present(Box::new(value))
}

fn failure(path: &[&str], kind: FieldErrorKind) -> FieldError {
    FieldError { path: path.iter().map(|name| name.to_string()).collect(), kind }
}

fn sample() -> RecordDescriptor {
    RecordDescriptor::named("Sample")
        .with(FieldDescriptor::optional("health", Hint::Number))
        .with(FieldDescriptor::required("first_name", Hint::Text))
        .with(FieldDescriptor::duplicated("spouse", Hint::Number))
        .with(FieldDescriptor::optional("was_player", Hint::Boolean))
}

#[test]
fn fields_come_out_in_descriptor_order() {
    let root = object(vec![
        pair("was_player", scalar("yes")),
        pair("spouse", scalar("7")),
        pair("first_name", scalar("Alfred")),
        pair("health", scalar("4.5")),
        pair("spouse", scalar("9")),
    ]);
    assert_eq!(
        bind(&root, &sample(), &Config::standard()),
        Ok(Value::Record(vec![
            present(number(45, 1)),
            text("Alfred"),
            Value::List(vec![number(7, 0), number(9, 0)]),
            present(Value::Bool(true)),
        ]))
    );
}

#[test]
fn an_optional_field_without_a_key_is_absent() {
    let root = object(vec![pair("first_name", scalar("Alfred"))]);
    assert_eq!(
        bind(&root, &sample(), &Config::standard()),
        Ok(Value::Record(vec![Value::Absent, text("Alfred"), Value::List(vec![]), Value::Absent]))
    );
}

#[test]
fn a_required_field_without_a_key_is_missing() {
    let root = object(vec![pair("health", scalar("4.5"))]);
    assert_eq!(
        bind(&root, &sample(), &Config::standard()),
        Err(DecodeError::Fields(vec![failure(&["first_name"], FieldErrorKind::MissingField)]))
    );
}

#[test]
fn a_repeated_field_without_a_key_is_an_empty_list() {
    let descriptor =
        RecordDescriptor::named("Family").with(FieldDescriptor::duplicated("spouse", Hint::Number));
    assert_eq!(
        bind(&object(vec![]), &descriptor, &Config::standard()),
        Ok(Value::Record(vec![Value::List(vec![])]))
    );
}

#[test]
fn keys_that_no_field_reads_are_ignored() {
    let with_extras = object(vec![
        pair("unknown", scalar("1200.99.99")),
        pair("first_name", scalar("Alfred")),
        pair("future_block", object(vec![pair("first_name", scalar("Other"))])),
        pair("spouse", scalar("7")),
        pair("items", array(vec![scalar("a"), object(vec![])])),
    ]);
    let without = object(vec![pair("first_name", scalar("Alfred")), pair("spouse", scalar("7"))]);
    let bound = bind(&with_extras, &sample(), &Config::standard());
    assert_eq!(
        bound,
        Ok(Value::Record(vec![
            Value::Absent,
            text("Alfred"),
            Value::List(vec![number(7, 0)]),
            Value::Absent
        ]))
    );
    assert_eq!(bound, bind(&without, &sample(), &Config::standard()));
}

#[test]
fn the_last_occurrence_of_a_single_field_wins() {
    let root = object(vec![
        pair("first_name", scalar("Alfred")),
        pair("health", scalar("broken")),
        pair("first_name", scalar("Bertha")),
        pair("health", scalar("3")),
    ]);
    assert_eq!(
        bind(&root, &sample(), &Config::standard()),
        Ok(Value::Record(vec![
            present(number(3, 0)),
            text("Bertha"),
            Value::List(vec![]),
            Value::Absent
        ]))
    );
    let bad_last = object(vec![
        pair("first_name", scalar("Alfred")),
        pair("health", scalar("3")),
        pair("health", scalar("broken")),
    ]);
    assert_eq!(
        bind(&bad_last, &sample(), &Config::standard()),
        Err(DecodeError::Fields(vec![failure(&["health"], FieldErrorKind::TypeMismatch)]))
    );
}

#[test]
fn a_field_is_read_under_each_of_its_aliases() {
    let descriptor = RecordDescriptor::named("Family")
        .with(FieldDescriptor::duplicated("former_spouse", Hint::Number).alias("former_spouses"))
        .with(FieldDescriptor::optional("_type", Hint::Text).alias("type"));
    let root = object(vec![
        pair("former_spouses", scalar("1")),
        pair("type", scalar("a")),
        pair("former_spouse", scalar("2")),
        pair("former_spouses", scalar("3")),
        pair("_type", scalar("b")),
        pair("former", scalar("4")),
    ]);
    assert_eq!(
        bind(&root, &descriptor, &Config::standard()),
        Ok(Value::Record(vec![
            Value::List(vec![number(1, 0), number(2, 0), number(3, 0)]),
            present(text("b")),
        ]))
    );
}

#[test]
fn every_failure_of_a_repeated_field_is_reported_in_order() {
    let root = object(vec![
        pair("spouse", scalar("x")),
        pair("first_name", scalar("Alfred")),
        pair("spouse", scalar("2")),
        pair("spouse", scalar("y")),
        pair("was_player", scalar("perhaps")),
    ]);
    assert_eq!(
        bind(&root, &sample(), &Config::standard()),
        Err(DecodeError::Fields(vec![
            failure(&["spouse"], FieldErrorKind::TypeMismatch),
            failure(&["spouse"], FieldErrorKind::TypeMismatch),
            failure(&["was_player"], FieldErrorKind::TypeMismatch),
        ]))
    );
}

#[test]
fn failures_in_nested_records_carry_the_whole_path() {
    let focus = RecordDescriptor::named("Focus")
        .with(FieldDescriptor::optional("date", Hint::Date))
        .with(FieldDescriptor::optional("progress", Hint::Reencoded(Transform::times(1, 18))));
    let alive = RecordDescriptor::named("AliveData")
        .with(FieldDescriptor::optional("focus", Hint::nested(focus)))
        .with(FieldDescriptor::optional("health", Hint::Number));
    let living = RecordDescriptor::named("LivingCharacter")
        .with(FieldDescriptor::optional("alive_data", Hint::nested(alive)))
        .with(FieldDescriptor::required("first_name", Hint::Text));
    let root = object(vec![pair(
        "alive_data",
        object(vec![
            pair("health", scalar("good")),
            pair("focus", object(vec![pair("date", scalar("1200.3")), pair("progress", scalar("0.5"))])),
        ]),
    )]);
    assert_eq!(
        bind(&root, &living, &Config::standard()),
        Err(DecodeError::Fields(vec![
            failure(&["alive_data", "focus", "date"], FieldErrorKind::MalformedDate),
            failure(&["alive_data", "focus", "progress"], FieldErrorKind::TransformError),
            failure(&["alive_data", "health"], FieldErrorKind::TypeMismatch),
            failure(&["first_name"], FieldErrorKind::MissingField),
        ]))
    );
}

#[test]
fn a_node_of_the_wrong_shape_is_a_type_mismatch() {
    let descriptor = RecordDescriptor::named("Shapes")
        .with(FieldDescriptor::optional("health", Hint::Number))
        .with(FieldDescriptor::optional("heir", Hint::list_of(Hint::Number)))
        .with(FieldDescriptor::optional("name", Hint::Text));
    let root = object(vec![
        pair("health", array(vec![scalar("1")])),
        pair("heir", scalar("1")),
        pair("name", object(vec![])),
    ]);
    assert_eq!(
        bind(&root, &descriptor, &Config::standard()),
        Err(DecodeError::Fields(vec![
            failure(&["health"], FieldErrorKind::TypeMismatch),
            failure(&["heir"], FieldErrorKind::TypeMismatch),
            failure(&["name"], FieldErrorKind::TypeMismatch),
        ]))
    );
    let keyed_heir = object(vec![pair("heir", object(vec![pair("1", scalar("2"))]))]);
    assert_eq!(
        bind(&keyed_heir, &descriptor, &Config::standard()),
        Err(DecodeError::Fields(vec![failure(&["heir"], FieldErrorKind::TypeMismatch)]))
    );
}

#[test]
fn arrays_decode_every_item_in_order() {
    let descriptor = RecordDescriptor::named("Lists")
        .with(FieldDescriptor::optional("heir", Hint::list_of(Hint::Number)))
        .with(FieldDescriptor::optional("languages", Hint::list_of(Hint::Text)))
        .with(FieldDescriptor::optional("dates", Hint::list_of(Hint::Date)));
    let root = object(vec![
        pair("languages", array(vec![scalar("language_norse"), scalar("language_saxon")])),
        pair("heir", array(vec![scalar("3"), scalar("1"), scalar("2")])),
        pair("dates", array(vec![])),
    ]);
    assert_eq!(
        bind(&root, &descriptor, &Config::standard()),
        Ok(Value::Record(vec![
            present(Value::List(vec![number(3, 0), number(1, 0), number(2, 0)])),
            present(Value::List(vec![text("language_norse"), text("language_saxon")])),
            present(Value::List(vec![])),
        ]))
    );
    let broken = object(vec![
        pair("heir", array(vec![scalar("3"), scalar("x"), scalar("2"), array(vec![])])),
        pair("dates", array(vec![scalar("1200.1.1"), scalar("1200.1.32")])),
    ]);
    assert_eq!(
        bind(&broken, &descriptor, &Config::standard()),
        Err(DecodeError::Fields(vec![
            failure(&["heir"], FieldErrorKind::TypeMismatch),
            failure(&["heir"], FieldErrorKind::TypeMismatch),
            failure(&["dates"], FieldErrorKind::MalformedDate),
        ]))
    );
}

#[test]
fn a_root_that_is_no_object_is_an_unknown_top_level_shape() {
    let config = Config::standard();
    assert_eq!(bind(&scalar("1"), &sample(), &config), Err(DecodeError::UnknownTopLevelShape));
    assert_eq!(bind(&array(vec![]), &sample(), &config), Err(DecodeError::UnknownTopLevelShape));
    assert_eq!(
        bind(&array(vec![object(vec![])]), &sample(), &config),
        Err(DecodeError::UnknownTopLevelShape)
    );
}

#[test]
fn a_record_that_is_no_object_stops_the_enclosing_records() {
    let inner = RecordDescriptor::named("Inner").with(FieldDescriptor::optional("x", Hint::Number));
    let outer = RecordDescriptor::named("Outer")
        .with(FieldDescriptor::optional("date", Hint::Date))
        .with(FieldDescriptor::optional("inner", Hint::nested(inner)))
        .with(FieldDescriptor::required("name", Hint::Text));
    let root = object(vec![pair("date", scalar("bad")), pair("inner", scalar("none"))]);
    assert_eq!(bind(&root, &outer, &Config::standard()), Err(DecodeError::UnknownTopLevelShape));
    let in_array = object(vec![pair("inner", array(vec![scalar("1")]))]);
    assert_eq!(bind(&in_array, &outer, &Config::standard()), Err(DecodeError::UnknownTopLevelShape));
}

fn character() -> RecordDescriptor {
    RecordDescriptor::named("Character")
        .with(FieldDescriptor::optional("first_name", Hint::Text))
        .with(FieldDescriptor::optional("birth", Hint::Date))
}

fn living() -> RecordDescriptor {
    RecordDescriptor::named("living")
        .with(FieldDescriptor::keyed("character", Hint::nested(character())))
}

#[test]
fn a_keyed_collection_gathers_the_entries_under_whole_numbers() {
    let root = object(vec![
        pair("16777217", object(vec![pair("first_name", scalar("Alfred"))])),
        pair("note", scalar("ignored")),
        pair("7", object(vec![pair("birth", scalar("840.1.1")), pair("first_name", scalar("Bertha"))])),
        pair("-3", object(vec![])),
        pair("007", object(vec![])),
    ]);
    assert_eq!(
        bind(&root, &living(), &Config::standard()),
        Ok(Value::Record(vec![Value::Keyed(vec![
            KeyedValue {
                key: 16777217,
                outcome: Ok(Value::Record(vec![present(text("Alfred")), Value::Absent])),
            },
            KeyedValue {
                key: 7,
                outcome: Ok(Value::Record(vec![
                    present(text("Bertha")),
                    present(Value::Date(Date { year: 840, month: 1, day: 1 })),
                ])),
            },
            KeyedValue { key: 7, outcome: Ok(Value::Record(vec![Value::Absent, Value::Absent])) },
        ])]))
    );
}

#[test]
fn a_member_whose_fields_fail_does_not_stop_the_others() {
    let root = object(vec![
        pair("1", object(vec![pair("first_name", scalar("Alfred"))])),
        pair("2", object(vec![pair("birth", scalar("840.13.1"))])),
        pair("3", object(vec![pair("first_name", scalar("Cedric"))])),
    ]);
    assert_eq!(
        bind(&root, &living(), &Config::standard()),
        Ok(Value::Record(vec![Value::Keyed(vec![
            KeyedValue {
                key: 1,
                outcome: Ok(Value::Record(vec![present(text("Alfred")), Value::Absent])),
            },
            KeyedValue {
                key: 2,
                outcome: Err(vec![failure(&["birth"], FieldErrorKind::MalformedDate)]),
            },
            KeyedValue {
                key: 3,
                outcome: Ok(Value::Record(vec![present(text("Cedric")), Value::Absent])),
            },
        ])]))
    );
}

#[test]
fn a_member_that_is_no_object_stops_the_collection() {
    let root = object(vec![
        pair("1", object(vec![pair("first_name", scalar("Alfred"))])),
        pair("2", scalar("none")),
        pair("3", object(vec![pair("first_name", scalar("Cedric"))])),
    ]);
    assert_eq!(bind(&root, &living(), &Config::standard()), Err(DecodeError::UnknownTopLevelShape));
}

#[test]
fn the_depth_guard_counts_records_and_arrays() {
    let leaf = RecordDescriptor::named("Leaf").with(FieldDescriptor::optional("x", Hint::Number));
    let outer = RecordDescriptor::named("Outer")
        .with(FieldDescriptor::optional("items", Hint::list_of(Hint::nested(leaf))));
    let root = object(vec![pair("items", array(vec![object(vec![pair("x", scalar("1"))])]))]);
    let value = Value::Record(vec![present(Value::List(vec![Value::Record(vec![present(number(
        1, 0,
    ))])]))]);
    for depth in 0..3 {
        let config = Config { max_depth: depth, era: Era::Negative };
        assert_eq!(bind(&root, &outer, &config), Err(DecodeError::DepthExceeded), "{}", depth);
    }
    let config = Config { max_depth: 3, era: Era::Negative };
    assert_eq!(bind(&root, &outer, &config), Ok(value));
    let shallow = object(vec![]);
    let one = Config { max_depth: 1, era: Era::Negative };
    assert_eq!(bind(&shallow, &outer, &one), Ok(Value::Record(vec![Value::Absent])));
}

#[test]
fn depth_is_checked_only_where_a_container_is_entered() {
    let zero = Config { max_depth: 0, era: Era::Negative };
    assert_eq!(bind(&object(vec![]), &sample(), &zero), Err(DecodeError::DepthExceeded));
    assert_eq!(bind(&scalar("1"), &sample(), &zero), Err(DecodeError::UnknownTopLevelShape));
    assert_eq!(
        decode_node(&scalar("1"), &Hint::list_of(Hint::Number), Era::Negative, 0),
        Err(DecodeError::Fields(vec![failure(&[], FieldErrorKind::TypeMismatch)]))
    );
    assert_eq!(
        decode_node(&array(vec![]), &Hint::list_of(Hint::Number), Era::Negative, 0),
        Err(DecodeError::DepthExceeded)
    );
    assert_eq!(decode_node(&scalar("1"), &Hint::Number, Era::Negative, 0), Ok(number(1, 0)));
}

#[test]
fn a_depth_error_outranks_the_failures_gathered_before_it() {
    let leaf = RecordDescriptor::named("Leaf");
    let outer = RecordDescriptor::named("Outer")
        .with(FieldDescriptor::optional("date", Hint::Date))
        .with(FieldDescriptor::optional("leaf", Hint::nested(leaf)))
        .with(FieldDescriptor::required("name", Hint::Text));
    let root = object(vec![pair("date", scalar("bad")), pair("leaf", object(vec![]))]);
    let one = Config { max_depth: 1, era: Era::Negative };
    assert_eq!(bind(&root, &outer, &one), Err(DecodeError::DepthExceeded));
    let two = Config { max_depth: 2, era: Era::Negative };
    assert_eq!(
        bind(&root, &outer, &two),
        Err(DecodeError::Fields(vec![
            failure(&["date"], FieldErrorKind::MalformedDate),
            failure(&["name"], FieldErrorKind::MissingField),
        ]))
    );
}

#[test]
fn the_era_of_the_configuration_reaches_every_date() {
    let descriptor = RecordDescriptor::named("Dates")
        .with(FieldDescriptor::optional("birth", Hint::Date))
        .with(FieldDescriptor::duplicated("visit", Hint::Date));
    let root = object(vec![
        pair("birth", scalar("5840.1.1")),
        pair("visit", scalar("5841.2.3")),
        pair("visit", scalar("4990.2.3")),
    ]);
    let config = Config { max_depth: 8, era: Era::Offset };
    assert_eq!(
        bind(&root, &descriptor, &config),
        Ok(Value::Record(vec![
            present(Value::Date(Date { year: 840, month: 1, day: 1 })),
            Value::List(vec![
                Value::Date(Date { year: 841, month: 2, day: 3 }),
                Value::Date(Date { year: -10, month: 2, day: 3 }),
            ]),
        ]))
    );
}

#[test]
fn records_and_fields_can_be_bound_on_their_own() {
    let entries = vec![pair("health", scalar("1")), pair("health", scalar("2"))];
    let optional = FieldDescriptor::optional("health", Hint::Number);
    assert_eq!(bind_field(&entries, &optional, Era::Negative, 0), Ok(present(number(2, 0))));
    let repeated = FieldDescriptor::duplicated("health", Hint::Number);
    assert_eq!(
        bind_field(&entries, &repeated, Era::Negative, 0),
        Ok(Value::List(vec![number(1, 0), number(2, 0)]))
    );
    let required = FieldDescriptor::required("wealth", Hint::Number);
    assert_eq!(
        bind_field(&entries, &required, Era::Negative, 0),
        Err(DecodeError::Fields(vec![failure(&["wealth"], FieldErrorKind::MissingField)]))
    );
    let record = RecordDescriptor::named("One").with(optional);
    assert_eq!(
        bind_record(&object(entries), &record, Era::Negative, 1),
        Ok(Value::Record(vec![present(number(2, 0))]))
    );
}

#[test]
fn keys_are_compared_byte_by_byte() {
    assert!(same_bytes(b"", b""));
    assert!(same_bytes(b"gold", b"gold"));
    assert!(!same_bytes(b"gold", b"golf"));
    assert!(!same_bytes(b"gold", b"gol"));
    assert!(!same_bytes(b"gol", b"gold"));
    let aliases = vec!["former_spouse".to_string(), "former_spouses".to_string(), "\u{e5}".to_string()];
    assert!(key_among(b"former_spouse", &aliases));
    assert!(key_among(b"former_spouses", &aliases));
    assert!(key_among(b"\xc3\xa5", &aliases));
    assert!(!key_among(b"former", &aliases));
    assert!(!key_among(b"\xe5", &aliases));
    assert!(!key_among(b"gold", &vec![]));
    let entries = vec![pair("a", scalar("1")), pair("b", scalar("2")), pair("a", scalar("3"))];
    assert_eq!(find_last(&entries, &vec!["a".to_string()]), Some(2));
    assert_eq!(find_last(&entries, &vec!["b".to_string()]), Some(1));
    assert_eq!(find_last(&entries, &vec!["c".to_string(), "b".to_string()]), Some(1));
    assert_eq!(find_last(&entries, &vec!["c".to_string()]), None);
    assert_eq!(find_last(&vec![], &vec!["a".to_string()]), None);
}
