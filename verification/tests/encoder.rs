use gamestate::binder::bind;
use gamestate::date::{Date, Era};
use gamestate::encoder::{write_field, write_record, write_text, write_value};
use gamestate::error::{FieldError, FieldErrorKind};
use gamestate::models::character::LivingCharacter;
use gamestate::number::{Decimal, Transform};
use gamestate::record::{Record, Reencodings};
use gamestate::schema::{Cardinality, Config, FieldDescriptor, Hint, RecordDescriptor};
use gamestate::token::{Entry, Node};
use gamestate::value::{KeyedValue, Value};

fn scalar(text: &str) -> Node {
    Node::scalar(text.as_bytes())
}

fn pair(key: &str, node: Node) -> Entry {
    Entry::new(key.as_bytes(), node)
}

fn object(entries: Vec<Entry>) -> Node {
    Node::Object(entries)
}

fn number(mantissa: i64, scale: u8) -> Value {
    Value::Number(Decimal { mantissa, scale })
}

fn text(value: &str) -> Value {
    Value::Text(value.to_string())
}

fn present(value: Value) -> Value {
    Value::Present(Box::new(value))
}

fn same_node(a: &Node, b: &Node) -> bool {
    match (a, b) {
        (Node::Scalar(x), Node::Scalar(y)) => x == y,
        (Node::Array(x), Node::Array(y)) => {
            x.len() == y.len() && x.iter().zip(y.iter()).all(|(p, q)| same_node(p, q))
        }
        (Node::Object(x), Node::Object(y)) => {
            x.len() == y.len()
                && x.iter().zip(y.iter()).all(|(p, q)| p.key == q.key && same_node(&p.node, &q.node))
        }
        _ => false,
    }
}

fn same_entries(a: &[Entry], b: &[Entry]) -> bool {
    same_node(&Node::Object(a.iter().map(|e| Entry::new(&e.key, copy(&e.node))).collect()),
        &Node::Object(b.iter().map(|e| Entry::new(&e.key, copy(&e.node))).collect()))
}

fn copy(node: &Node) -> Node {
    match node {
        Node::Scalar(raw) => Node::Scalar(raw.clone()),
        Node::Array(items) => Node::Array(items.iter().map(copy).collect()),
        Node::Object(entries) => {
            Node::Object(entries.iter().map(|e| Entry::new(&e.key, copy(&e.node))).collect())
        }
    }
}

#[test]
fn a_text_is_written_only_if_it_is_read_back() {
    assert_eq!(write_text(&"tired".to_string()), Some(b"tired".to_vec()));
    assert_eq!(write_text(&"".to_string()), Some(vec![]));
    assert_eq!(write_text(&"Common Sense".to_string()), Some(b"Common Sense".to_vec()));
    assert_eq!(write_text(&"J\u{e5}hk".to_string()), Some(b"J\xc3\xa5hk".to_vec()));
    assert_eq!(write_text(&"ends in space ".to_string()), None);
    assert_eq!(write_text(&"line\n".to_string()), None);
    assert_eq!(write_text(&"a\\b".to_string()), None);
}

#[test]
fn scalars_are_written_as_their_hints_read_them() {
    let era = Era::Negative;
    let raw = |value: &Value, hint: &Hint| match write_value(value, hint, era) {
        Some(Node::Scalar(raw)) => Some(String::from_utf8(raw).unwrap()),
        Some(_) => panic!("a scalar"),
        None => None,
    };
    assert_eq!(raw(&number(1500, 2), &Hint::Number), Some("15.00".to_string()));
    assert_eq!(raw(&number(-5, 3), &Hint::Number), Some("-0.005".to_string()));
    assert_eq!(raw(&text("happy"), &Hint::Text), Some("happy".to_string()));
    assert_eq!(raw(&Value::Bool(true), &Hint::Boolean), Some("yes".to_string()));
    assert_eq!(raw(&Value::Bool(false), &Hint::Boolean), Some("no".to_string()));
    let date = Value::Date(Date { year: 1200, month: 3, day: 1 });
    assert_eq!(raw(&date, &Hint::Date), Some("1200.3.1".to_string()));
    assert_eq!(
        write_value(&date, &Hint::Date, Era::Offset).map(|node| same_node(&node, &scalar("6200.3.1"))),
        Some(true)
    );
    let early = Value::Date(Date { year: -5001, month: 1, day: 1 });
    assert!(write_value(&early, &Hint::Date, Era::Offset).is_none());
    assert_eq!(raw(&early, &Hint::Date), Some("-5001.1.1".to_string()));
}

#[test]
fn a_value_of_another_kind_than_the_hint_is_not_written() {
    let era = Era::Negative;
    assert!(write_value(&text("1"), &Hint::Number, era).is_none());
    assert!(write_value(&number(1, 0), &Hint::Text, era).is_none());
    assert!(write_value(&number(1, 0), &Hint::Boolean, era).is_none());
    assert!(write_value(&number(1, 0), &Hint::Date, era).is_none());
    assert!(write_value(&Value::Absent, &Hint::Number, era).is_none());
    assert!(write_value(&number(1, 0), &Hint::list_of(Hint::Number), era).is_none());
    assert!(write_value(&number(1, 0), &Hint::nested(RecordDescriptor::named("R")), era).is_none());
    assert!(write_value(&Value::List(vec![text("x")]), &Hint::list_of(Hint::Number), era).is_none());
    let one = RecordDescriptor::named("One").with(FieldDescriptor::optional("a", Hint::Number));
    assert!(write_record(&Value::Record(vec![]), &one, era).is_none());
    assert!(write_record(&Value::Record(vec![Value::Absent, Value::Absent]), &one, era).is_none());
    assert!(write_record(&Value::Record(vec![number(1, 0)]), &one, era).is_none());
    assert!(write_record(&Value::List(vec![]), &one, era).is_none());
}

#[test]
fn a_reencoded_number_is_written_as_the_number_it_came_from() {
    let era = Era::Negative;
    let hundredth = Hint::Reencoded(Transform::times(1, 2));
    let written = write_value(&number(1500, 2), &hundredth, era).unwrap();
    assert!(same_node(&written, &scalar("1500")));
    let fixed = Hint::Reencoded(Transform::times(125, 3));
    assert!(same_node(&write_value(&number(-1000, 3), &fixed, era).unwrap(), &scalar("-8")));
    assert!(same_node(&write_value(&number(250, 4), &fixed, era).unwrap(), &scalar("0.2")));
    assert!(write_value(&number(1001, 3), &fixed, era).is_none());
    assert!(write_value(&number(1000, 2), &fixed, era).is_none());
    let zero = Hint::Reencoded(Transform::times(0, 0));
    assert!(write_value(&number(0, 0), &zero, era).is_none());
    let negative = Hint::Reencoded(Transform::times(-2, 0));
    assert!(write_value(&number(4, 0), &negative, era).is_none());
    assert_eq!(Transform::times(1, 2).undo(Decimal { mantissa: 1500, scale: 2 }), Some(Decimal::whole(1500)));
    assert_eq!(
        Transform::times(3, 0).undo(Decimal { mantissa: i64::MIN + 2, scale: 0 }),
        Some(Decimal::whole(-3074457345618258602))
    );
    assert_eq!(Transform::times(1, 0).undo(Decimal { mantissa: i64::MIN, scale: 0 }), Some(Decimal::whole(i64::MIN)));
}

#[test]
fn fields_are_written_under_their_first_key() {
    let era = Era::Negative;
    let aliased = FieldDescriptor::optional("_type", Hint::Text).alias("type");
    let entries = write_field(&present(text("martial")), &aliased, era).unwrap();
    assert!(same_entries(&entries, &[pair("_type", scalar("martial"))]));
    assert!(write_field(&Value::Absent, &aliased, era).unwrap().is_empty());
    assert!(write_field(&text("martial"), &aliased, era).is_none());
    let required = FieldDescriptor::required("name", Hint::Text);
    let entries = write_field(&text("Alfred"), &required, era).unwrap();
    assert!(same_entries(&entries, &[pair("name", scalar("Alfred"))]));
    assert!(write_field(&Value::Absent, &required, era).is_none());
    let repeated = FieldDescriptor::duplicated("spouse", Hint::Number);
    let entries = write_field(&Value::List(vec![number(3, 0), number(8, 0)]), &repeated, era).unwrap();
    assert!(same_entries(&entries, &[pair("spouse", scalar("3")), pair("spouse", scalar("8"))]));
    assert!(write_field(&Value::List(vec![]), &repeated, era).unwrap().is_empty());
    assert!(write_field(&number(3, 0), &repeated, era).is_none());
    let nameless = FieldDescriptor {
        name: "x".to_string(),
        aliases: vec![],
        cardinality: Cardinality::Optional,
        hint: Hint::Number,
    };
    assert!(write_field(&Value::Absent, &nameless, era).is_none());
}

#[test]
fn members_are_written_under_their_numbers() {
    let era = Era::Negative;
    let keyed = FieldDescriptor::keyed("character", Hint::Number);
    let members = Value::Keyed(vec![
        KeyedValue { key: 16777217, outcome: Ok(number(1, 0)) },
        KeyedValue { key: 7, outcome: Ok(number(2, 0)) },
        KeyedValue { key: 0, outcome: Ok(number(3, 0)) },
    ]);
    let entries = write_field(&members, &keyed, era).unwrap();
    assert!(same_entries(
        &entries,
        &[pair("16777217", scalar("1")), pair("7", scalar("2")), pair("0", scalar("3"))]
    ));
    let failed = Value::Keyed(vec![
        KeyedValue { key: 1, outcome: Ok(number(1, 0)) },
        KeyedValue {
            key: 2,
            outcome: Err(vec![FieldError { path: vec![], kind: FieldErrorKind::TypeMismatch }]),
        },
    ]);
    assert!(write_field(&failed, &keyed, era).is_none());
    assert!(write_field(&Value::List(vec![]), &keyed, era).is_none());
}

fn sample() -> RecordDescriptor {
    let modifier = RecordDescriptor::named("Modifier")
        .with(FieldDescriptor::optional("modifier", Hint::Text))
        .with(FieldDescriptor::optional("expiration_date", Hint::Date));
    let living = RecordDescriptor::named("living")
        .with(FieldDescriptor::keyed("character", Hint::nested(RecordDescriptor::named("Character")
            .with(FieldDescriptor::optional("first_name", Hint::Text).alias("name")))));
    RecordDescriptor::named("Sample")
        .with(FieldDescriptor::optional("health", Hint::Number))
        .with(FieldDescriptor::required("first_name", Hint::Text))
        .with(FieldDescriptor::duplicated("modifier", Hint::nested(modifier)))
        .with(FieldDescriptor::optional("gold", Hint::Reencoded(Transform::times(1, 2))))
        .with(FieldDescriptor::optional("heir", Hint::list_of(Hint::Number)))
        .with(FieldDescriptor::optional("was_player", Hint::Boolean))
        .with(FieldDescriptor::optional("living", Hint::nested(living)))
}

fn document() -> Node {
    object(vec![
        pair("unknown", scalar("x")),
        pair("modifier", object(vec![
            pair("expiration_date", scalar("1200.03.01")),
            pair("modifier", scalar("tired  ")),
        ])),
        pair("first_name", scalar("Alfred")),
        pair("first_name", scalar("Bertha")),
        pair("gold", scalar("+1500")),
        pair("heir", Node::Array(vec![scalar("007"), scalar("1.50")])),
        pair("modifier", object(vec![pair("modifier", scalar("happy"))])),
        pair("health", scalar("4.5")),
        pair("living", object(vec![
            pair("007", object(vec![pair("name", scalar("Cedric"))])),
            pair("note", scalar("skipped")),
            pair("8", object(vec![])),
        ])),
        pair("was_player", scalar("no")),
    ])
}

#[test]
fn a_record_is_written_field_after_field() {
    let config = Config::standard();
    let bound = bind(&document(), &sample(), &config).unwrap();
    let written = write_record(&bound, &sample(), config.era).unwrap();
    let expected = object(vec![
        pair("health", scalar("4.5")),
        pair("first_name", scalar("Bertha")),
        pair("modifier", object(vec![
            pair("modifier", scalar("tired")),
            pair("expiration_date", scalar("1200.3.1")),
        ])),
        pair("modifier", object(vec![pair("modifier", scalar("happy"))])),
        pair("gold", scalar("1500")),
        pair("heir", Node::Array(vec![scalar("7"), scalar("1.50")])),
        pair("was_player", scalar("no")),
        pair("living", object(vec![
            pair("7", object(vec![pair("first_name", scalar("Cedric"))])),
            pair("8", object(vec![])),
        ])),
    ]);
    assert!(same_node(&written, &expected));
}

#[test]
fn binding_writing_and_binding_again_gives_the_same_record() {
    for era in [Era::Negative, Era::Offset] {
        for depth in [4usize, 512] {
            let config = Config { max_depth: depth, era };
            let first = bind(&document(), &sample(), &config).unwrap();
            let written = write_record(&first, &sample(), era).unwrap();
            let second = bind(&written, &sample(), &config).unwrap();
            assert_eq!(first, second);
            let rewritten = write_record(&second, &sample(), era).unwrap();
            assert!(same_node(&written, &rewritten));
        }
    }
}

#[test]
fn a_living_character_survives_the_round_trip() {
    let reencodings = Reencodings { gold: Transform::times(1, 2) };
    let descriptor = LivingCharacter::descriptor(&reencodings);
    let root = object(vec![
        pair("first_name", scalar("Alfred")),
        pair("birth", scalar("849")),
        pair("alive_data", object(vec![
            pair("gold", scalar("1500")),
            pair("health", scalar("4.75")),
            pair("focus", object(vec![pair("type", scalar("martial")), pair("date", scalar("870.1.1"))])),
            pair("modifier", object(vec![pair("modifier", scalar("tired"))])),
            pair("modifier", object(vec![pair("expiration_date", scalar("871.2.2"))])),
            pair("languages", Node::Array(vec![scalar("language_saxon")])),
        ])),
        pair("family_data", object(vec![
            pair("spouse", scalar("3")),
            pair("former_spouses", scalar("9")),
            pair("child", Node::Array(vec![scalar("4"), scalar("5")])),
        ])),
        pair("variables", object(vec![pair("list", Node::Array(vec![object(vec![
            pair("name", scalar("friends")),
            pair("item", object(vec![pair("type", scalar("char")), pair("identity", scalar("1"))])),
        ])]))])),
    ]);
    let config = Config::standard();
    let first = bind(&root, &descriptor, &config).unwrap();
    let written = write_record(&first, &descriptor, config.era).unwrap();
    let second = bind(&written, &descriptor, &config).unwrap();
    assert_eq!(first, second);
    assert_eq!(LivingCharacter::from_value(&first), LivingCharacter::from_value(&second));
    assert_eq!(LivingCharacter::from_value(&second).first_name, Some("Alfred".to_string()));
}
