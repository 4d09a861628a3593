use gamestate::date::{Date, Era};
use gamestate::error::{DecodeError, FieldError, FieldErrorKind};
use gamestate::models::character::{
    AliveData, Equipped, FamilyData, Focus, Inventory, LifestyleXp, LivingCharacter, Modifier, Piety,
    PlayableData, PortraitModifierOverrides, PortraitOverride, Prestige, Weight,
};
use gamestate::models::gamestate::{copy_errors, decode, decode_root, take_field, Gamestate, Rejected};
use gamestate::models::realm::{
    CourtAmenities, CourtAmenitiesCooldown, CourtGrandeur, CourtType, DecisionCooldowns,
    InteractionCooldowns, LandedData, RoyalCourt,
};
use gamestate::models::variables::{
    VariableData, VariableDataMap, VariableListItem, Variables, VariablesListData,
};
use gamestate::number::{Decimal, Transform};
use gamestate::record::{Record, Reencodings};
use gamestate::schema::{Cardinality, Config, FieldDescriptor, Hint, RecordDescriptor};
use gamestate::token::{Entry, Node};
use gamestate::value::{KeyedValue, Value};

fn scalar(text: &str) -> Node {
    Node::scalar(text.as_bytes())
}

fn pair(key: &str, node: Node) -> Entry {
    Entry::new(key.as_bytes(), node)
}

fn object(entries: Vec<Entry>) -> Node {
    Node::Object(entries)
}

fn array(items: &[&str]) -> Node {
    Node::Array(items.iter().map(|item| scalar(item)).collect())
}

fn number(mantissa: i64, scale: u8) -> Option<Decimal> {
    Some(Decimal { mantissa, scale })
}

fn whole(n: i64) -> Decimal {
    Decimal::whole(n)
}

fn text(value: &str) -> Option<String> {
    Some(value.to_string())
}

fn date(year: i16, month: u8, day: u8) -> Option<Date> {
    Some(Date { year, month, day })
}

fn plain() -> Reencodings {
    Reencodings { gold: Transform::times(1, 0) }
}

fn shape(descriptor: &RecordDescriptor) -> (String, Vec<(String, Vec<String>, Cardinality)>) {
    (
        descriptor.name.clone(),
        descriptor
            .fields
            .iter()
            .map(|field| (field.name.clone(), field.aliases.clone(), field.cardinality))
            .collect(),
    )
}

fn names(descriptor: &RecordDescriptor) -> Vec<String> {
    descriptor.fields.iter().map(|field| field.name.clone()).collect()
}

#[test]
fn the_portrait_records_read_their_texts() {
    let root = object(vec![pair(
        "portrait_modifier_overrides",
        object(vec![pair("custom_hair", scalar("long")), pair("custom_beards", scalar("full\n"))]),
    )]);
    let decoded: Result<PortraitOverride, DecodeError> = decode(&root, &plain(), &Config::standard());
    assert_eq!(
        decoded,
        Ok(PortraitOverride {
            portrait_modifier_overrides: Some(PortraitModifierOverrides {
                custom_beards: text("full"),
                custom_hair: text("long"),
            }),
        })
    );
    let empty: Result<PortraitOverride, DecodeError> =
        decode(&object(vec![]), &plain(), &Config::standard());
    assert_eq!(empty, Ok(PortraitOverride { portrait_modifier_overrides: None }));
    let inner: Result<PortraitModifierOverrides, DecodeError> =
        decode(&object(vec![pair("custom_hair", scalar("short"))]), &plain(), &Config::standard());
    assert_eq!(inner, Ok(PortraitModifierOverrides { custom_beards: None, custom_hair: text("short") }));
}

#[test]
fn the_descriptors_name_every_field_in_order() {
    let r = plain();
    assert_eq!(
        shape(&PortraitModifierOverrides::descriptor(&r)),
        (
            "PortraitModifierOverrides".to_string(),
            vec![
                ("custom_beards".to_string(), vec!["custom_beards".to_string()], Cardinality::Optional),
                ("custom_hair".to_string(), vec!["custom_hair".to_string()], Cardinality::Optional),
            ]
        )
    );
    assert_eq!(
        shape(&FamilyData::descriptor(&r)),
        (
            "FamilyData".to_string(),
            vec![
                ("child".to_string(), vec!["child".to_string()], Cardinality::Optional),
                ("concubine".to_string(), vec!["concubine".to_string()], Cardinality::Duplicated),
                (
                    "former_spouse".to_string(),
                    vec!["former_spouse".to_string(), "former_spouses".to_string()],
                    Cardinality::Duplicated
                ),
                ("primary_spouse".to_string(), vec!["primary_spouse".to_string()], Cardinality::Optional),
                ("spouse".to_string(), vec!["spouse".to_string()], Cardinality::Duplicated),
            ]
        )
    );
    assert_eq!(
        shape(&Focus::descriptor(&r)).1[0],
        ("_type".to_string(), vec!["_type".to_string(), "type".to_string()], Cardinality::Optional)
    );
    assert_eq!(
        names(&LivingCharacter::descriptor(&r)),
        [
            "alive_data", "birth", "dna", "dynasty_house", "faith", "family_data", "first_name",
            "immortal", "landed_data", "nickname", "playable_data", "portrait_override", "skill",
            "traits", "variables", "weight"
        ]
    );
    assert_eq!(
        names(&AliveData::descriptor(&r)),
        [
            "activity", "fertility", "focus", "health", "gold", "heir", "kills", "income",
            "inventory", "languages", "lifestyle_xp", "location", "modifier", "owned_activities",
            "piety", "prestige", "schemes", "stories", "wars"
        ]
    );
    assert_eq!(names(&RoyalCourt::descriptor(&r))[1], "court_amenitie");
    assert_eq!(names(&CourtAmenities::descriptor(&r))[1], "court_food_qualit");
    assert_eq!(names(&Prestige::descriptor(&r)), ["currentcy", "accumulated"]);
    assert_eq!(names(&Piety::descriptor(&r)), ["currency", "accumulated"]);
}

#[test]
fn every_record_type_has_as_many_fields_as_its_struct() {
    let r = plain();
    let counts = [
        (LivingCharacter::descriptor(&r), "LivingCharacter", 16),
        (AliveData::descriptor(&r), "AliveData", 19),
        (FamilyData::descriptor(&r), "FamilyData", 5),
        (Focus::descriptor(&r), "Focus", 4),
        (Inventory::descriptor(&r), "Inventory", 2),
        (Equipped::descriptor(&r), "Equipped", 4),
        (LandedData::descriptor(&r), "LandedData", 24),
        (DecisionCooldowns::descriptor(&r), "DecisionCooldowns", 19),
        (InteractionCooldowns::descriptor(&r), "InteractionCooldowns", 5),
        (RoyalCourt::descriptor(&r), "RoyalCourt", 5),
        (CourtGrandeur::descriptor(&r), "CourtGrandeur", 3),
        (CourtAmenities::descriptor(&r), "CourtAmenities", 5),
        (CourtAmenitiesCooldown::descriptor(&r), "CourtAmenitiesCooldown", 4),
        (CourtType::descriptor(&r), "CourtType", 2),
        (LifestyleXp::descriptor(&r), "LifestyleXp", 8),
        (Modifier::descriptor(&r), "Modifier", 2),
        (PlayableData::descriptor(&r), "PlayableData", 3),
        (Piety::descriptor(&r), "Piety", 2),
        (PortraitOverride::descriptor(&r), "PortraitOverride", 1),
        (PortraitModifierOverrides::descriptor(&r), "PortraitModifierOverrides", 2),
        (Prestige::descriptor(&r), "Prestige", 2),
        (Variables::descriptor(&r), "Variables", 2),
        (VariableData::descriptor(&r), "VariableData", 3),
        (VariableDataMap::descriptor(&r), "VariableDataMap", 2),
        (VariablesListData::descriptor(&r), "VariablesListData", 2),
        (VariableListItem::descriptor(&r), "VariableListItem", 3),
        (Weight::descriptor(&r), "Weight", 2),
    ];
    for (descriptor, name, count) in counts.iter() {
        assert_eq!(descriptor.name, *name);
        assert_eq!(descriptor.fields.len(), *count, "{}", name);
    }
}

#[test]
fn gold_is_reencoded_and_nothing_else_is() {
    let reencodings = Reencodings { gold: Transform::times(1, 2) };
    let descriptor = AliveData::descriptor(&reencodings);
    for field in descriptor.fields.iter() {
        match &field.hint {
            Hint::Reencoded(transform) => {
                assert_eq!(field.name, "gold");
                assert_eq!(*transform, Transform::times(1, 2));
            }
            _ => assert_ne!(field.name, "gold"),
        }
    }
    let root = object(vec![
        pair("gold", scalar("1500")),
        pair("income", scalar("1500")),
        pair("health", scalar("4.75")),
    ]);
    let decoded: AliveData = decode(&root, &reencodings, &Config::standard()).unwrap();
    assert_eq!(decoded.gold, number(1500, 2));
    assert_eq!(decoded.income, number(1500, 0));
    assert_eq!(decoded.health, number(475, 2));
    let gold = decoded.gold.unwrap();
    assert_eq!(gold.mantissa as f64 / 10f64.powi(gold.scale as i32), 15.0);
}

#[test]
fn alive_data_reads_lists_records_and_repeated_modifiers() {
    let root = object(vec![
        pair("modifier", object(vec![
            pair("modifier", scalar("tired")),
            pair("expiration_date", scalar("1200.3.1")),
        ])),
        pair("heir", array(&["12", "7"])),
        pair("languages", array(&["language_norse"])),
        pair("focus", object(vec![pair("type", scalar("martial")), pair("date", scalar("1199.1.1"))])),
        pair("modifier", object(vec![
            pair("modifier", scalar("happy")),
            pair("expiration_date", scalar("1200.4.1")),
        ])),
        pair("piety", object(vec![pair("currency", scalar("-12.5"))])),
        pair("kills", array(&[])),
    ]);
    let decoded: AliveData = decode(&root, &plain(), &Config::standard()).unwrap();
    assert_eq!(
        decoded.modifier,
        vec![
            Modifier { modifier: text("tired"), expiration_date: date(1200, 3, 1) },
            Modifier { modifier: text("happy"), expiration_date: date(1200, 4, 1) },
        ]
    );
    assert_eq!(decoded.heir, Some(vec![whole(12), whole(7)]));
    assert_eq!(decoded.kills, Some(vec![]));
    assert_eq!(decoded.wars, None);
    assert_eq!(decoded.languages, Some(vec!["language_norse".to_string()]));
    assert_eq!(
        decoded.focus,
        Some(Focus { _type: text("martial"), date: date(1199, 1, 1), changes: None, progress: None })
    );
    assert_eq!(decoded.piety, Some(Piety { currency: number(-125, 1), accumulated: None }));
    assert_eq!(decoded.prestige, None);
    assert_eq!(decoded.activity, None);
}

#[test]
fn family_data_gathers_repeated_numbers() {
    let root = object(vec![
        pair("spouse", scalar("3")),
        pair("former_spouses", scalar("9")),
        pair("child", array(&["4", "5"])),
        pair("spouse", scalar("8")),
        pair("primary_spouse", scalar("3")),
    ]);
    let decoded: FamilyData = decode(&root, &plain(), &Config::standard()).unwrap();
    assert_eq!(
        decoded,
        FamilyData {
            child: Some(vec![whole(4), whole(5)]),
            concubine: vec![],
            former_spouse: vec![whole(9)],
            primary_spouse: number(3, 0),
            spouse: vec![whole(3), whole(8)],
        }
    );
}

#[test]
fn variables_read_lists_of_records() {
    let data_item = object(vec![
        pair("flag", scalar("had_feast")),
        pair("tick", scalar("12")),
        pair("data", object(vec![pair("type", scalar("char")), pair("identity", scalar("42"))])),
    ]);
    let list_item = object(vec![
        pair("name", scalar("friends")),
        pair("item", object(vec![pair("type", scalar("char")), pair("identity", scalar("1"))])),
        pair("item", object(vec![pair("flag", scalar("x"))])),
    ]);
    let root = object(vec![
        pair("data", Node::Array(vec![data_item])),
        pair("list", Node::Array(vec![list_item, object(vec![])])),
    ]);
    let decoded: Variables = decode(&root, &plain(), &Config::standard()).unwrap();
    assert_eq!(
        decoded,
        Variables {
            data: Some(vec![VariableData {
                flag: text("had_feast"),
                tick: number(12, 0),
                data: Some(VariableDataMap { _type: text("char"), identity: number(42, 0) }),
            }]),
            list: Some(vec![
                VariablesListData {
                    name: text("friends"),
                    item: vec![
                        VariableListItem { _type: text("char"), flag: None, identity: number(1, 0) },
                        VariableListItem { _type: None, flag: text("x"), identity: None },
                    ],
                },
                VariablesListData { name: None, item: vec![] },
            ]),
        }
    );
}

#[test]
fn landed_data_reads_its_court() {
    let root = object(vec![
        pair("became_ruler_date", scalar("1066.9.15")),
        pair("laws", array(&["crown_authority_1", "single_heir"])),
        pair("balance", scalar("-3.25")),
        pair("royal_court", object(vec![
            pair("court_grandeur", object(vec![pair("current", scalar("40"))])),
            pair("court_amenitie", object(vec![
                pair("court_fashion", scalar("high")),
                pair("cooldown", object(vec![pair("court_servants", scalar("1070.1.1"))])),
            ])),
            pair("court_type", object(vec![pair("court_type", scalar("warlike"))])),
            pair("language_adoption_date", scalar("1067.1.1")),
        ])),
        pair("decision_cooldowns", object(vec![pair("host_feast_decision", scalar("1071.5.5"))])),
        pair("interaction_cooldowns", object(vec![pair("start_rapta_maritus", scalar("1071.6.6"))])),
    ]);
    let decoded: LandedData = decode(&root, &plain(), &Config::standard()).unwrap();
    assert_eq!(decoded.became_ruler_date, date(1066, 9, 15));
    assert_eq!(decoded.last_war_finish_date, None);
    assert_eq!(decoded.laws, Some(vec!["crown_authority_1".to_string(), "single_heir".to_string()]));
    assert_eq!(decoded.balance, number(-325, 2));
    let court = decoded.royal_court.unwrap();
    assert_eq!(court.court_grandeur, Some(CourtGrandeur { base: None, current: number(40, 0), expected: None }));
    assert_eq!(
        court.court_amenitie,
        Some(CourtAmenities {
            court_fashion: text("high"),
            court_food_qualit: None,
            court_lodging_standards: None,
            court_servants: None,
            cooldown: Some(CourtAmenitiesCooldown {
                court_fashion: None,
                court_food_quality: None,
                court_lodging_standards: None,
                court_servants: date(1070, 1, 1),
            }),
        })
    );
    assert_eq!(
        court.court_type,
        Some(CourtType { court_type: text("warlike"), last_court_type_switch_date: None })
    );
    assert_eq!(court.language, None);
    assert_eq!(court.language_adoption_date, date(1067, 1, 1));
    assert_eq!(decoded.decision_cooldowns.unwrap().host_feast_decision, date(1071, 5, 5));
    let interactions: InteractionCooldowns = decoded.interaction_cooldowns.unwrap();
    assert_eq!(interactions.start_rapta_maritus, date(1071, 6, 6));
    assert_eq!(interactions.carn_sex_interaction, None);
}

#[test]
fn the_small_character_records_read_their_fields() {
    let config = Config::standard();
    let weight: Weight =
        decode(&object(vec![pair("current", scalar("10")), pair("target", scalar("-20"))]), &plain(), &config)
            .unwrap();
    assert_eq!(weight, Weight { current: number(10, 0), target: number(-20, 0) });
    let prestige: Prestige =
        decode(&object(vec![pair("currentcy", scalar("1.5")), pair("currency", scalar("9"))]), &plain(), &config)
            .unwrap();
    assert_eq!(prestige, Prestige { currentcy: number(15, 1), accumulated: None });
    let playable: PlayableData = decode(
        &object(vec![pair("was_player", scalar("yes")), pair("knights", array(&["1"]))]),
        &plain(),
        &config,
    )
    .unwrap();
    assert_eq!(
        playable,
        PlayableData { knights: Some(vec![whole(1)]), was_player: Some(true), last_court_event_added_date: None }
    );
    let inventory: Inventory = decode(
        &object(vec![pair("equipped", object(vec![pair("pedestal_1", scalar("77"))]))]),
        &plain(),
        &config,
    )
    .unwrap();
    assert_eq!(
        inventory,
        Inventory {
            owner: None,
            equipped: Some(Equipped {
                wall_big_1: None,
                wall_big_2: None,
                wall_big_3: None,
                pedestal_1: number(77, 0)
            }),
        }
    );
    let xp: LifestyleXp =
        decode(&object(vec![pair("learning_lifestyle", scalar("250"))]), &plain(), &config).unwrap();
    assert_eq!(xp.learning_lifestyle, number(250, 0));
    assert_eq!(xp.martial_lifestyle, None);
    let cooldowns: DecisionCooldowns =
        decode(&object(vec![pair("invite_novice", scalar("900.1.1"))]), &plain(), &config).unwrap();
    assert_eq!(cooldowns.invite_novice, date(900, 1, 1));
    assert_eq!(cooldowns.qs_invite_poet, None);
}

#[test]
fn a_failing_field_fails_the_typed_record() {
    let root = object(vec![pair(
        "portrait_modifier_overrides",
        Node::Array(vec![scalar("x")]),
    )]);
    let decoded: Result<PortraitOverride, DecodeError> = decode(&root, &plain(), &Config::standard());
    assert_eq!(decoded, Err(DecodeError::UnknownTopLevelShape));
    let root = object(vec![pair("current", scalar("heavy"))]);
    let decoded: Result<Weight, DecodeError> = decode(&root, &plain(), &Config::standard());
    assert_eq!(
        decoded,
        Err(DecodeError::Fields(vec![FieldError {
            path: vec!["current".to_string()],
            kind: FieldErrorKind::TypeMismatch
        }]))
    );
}

#[test]
fn a_value_that_is_no_record_reads_as_an_empty_struct() {
    assert_eq!(
        Weight::from_value(&Value::Number(whole(1))),
        Weight { current: None, target: None }
    );
    assert_eq!(
        Weight::from_value(&Value::Record(vec![Value::Text("x".to_string())])),
        Weight { current: None, target: None }
    );
    assert_eq!(
        VariablesListData::from_value(&Value::Record(vec![Value::Absent, Value::Absent])),
        VariablesListData { name: None, item: vec![] }
    );
    assert_eq!(
        FamilyData::from_value(&Value::Record(vec![
            Value::Present(Box::new(Value::List(vec![Value::Number(whole(1)), Value::Bool(true)]))),
            Value::List(vec![Value::Number(whole(2))]),
        ])),
        FamilyData {
            child: None,
            concubine: vec![whole(2)],
            former_spouse: vec![],
            primary_spouse: None,
            spouse: vec![]
        }
    );
}

fn metadata() -> RecordDescriptor {
    RecordDescriptor::named("Metadata")
        .with(FieldDescriptor::required("version", Hint::Text))
        .with(FieldDescriptor::optional("meta_date", Hint::Date))
}

fn saved_game() -> Node {
    object(vec![
        pair("meta_data", object(vec![pair("version", scalar("1.9.2")), pair("meta_date", scalar("1070.1.1"))])),
        pair("ironman", scalar("no")),
        pair("living", object(vec![
            pair("1", object(vec![
                pair("first_name", scalar("Alfred")),
                pair("birth", scalar("849")),
                pair("alive_data", object(vec![pair("gold", scalar("1500")), pair("health", scalar("4.5"))])),
            ])),
            pair("2", object(vec![
                pair("first_name", scalar("Bertha")),
                pair("landed_data", object(vec![pair("became_ruler_date", scalar("1066.2.30"))])),
                pair("skill", scalar("high")),
            ])),
            pair("3", object(vec![pair("first_name", scalar("Cedric"))])),
            pair("1", object(vec![pair("first_name", scalar("Alfred the Later"))])),
        ])),
    ])
}

#[test]
fn the_root_decoder_reads_metadata_and_characters() {
    let reencodings = Reencodings { gold: Transform::times(1, 2) };
    let game = decode_root(&saved_game(), metadata(), &reencodings, &Config::standard()).unwrap();
    assert_eq!(
        game.meta_data,
        Value::Record(vec![
            Value::Text("1.9.2".to_string()),
            Value::Present(Box::new(Value::Date(Date { year: 1070, month: 1, day: 1 }))),
        ])
    );
    assert_eq!(game.living.len(), 2);
    assert_eq!(game.living[&1].first_name, text("Alfred the Later"));
    assert_eq!(game.living[&1].alive_data, None);
    assert_eq!(game.living[&3].first_name, text("Cedric"));
    assert!(!game.living.contains_key(&2));
    assert_eq!(
        game.rejected,
        vec![Rejected {
            id: 2,
            errors: vec![
                FieldError {
                    path: vec!["landed_data".to_string(), "became_ruler_date".to_string()],
                    kind: FieldErrorKind::MalformedDate,
                },
                FieldError { path: vec!["skill".to_string()], kind: FieldErrorKind::TypeMismatch },
            ],
        }]
    );
}

#[test]
fn the_root_decoder_reencodes_gold() {
    let reencodings = Reencodings { gold: Transform::times(1, 2) };
    let root = object(vec![
        pair("meta_data", object(vec![pair("version", scalar("1"))])),
        pair("living", object(vec![pair("5", object(vec![pair(
            "alive_data",
            object(vec![pair("gold", scalar("1500")), pair("income", scalar("2.5"))]),
        )]))])),
    ]);
    let game = decode_root(&root, metadata(), &reencodings, &Config::standard()).unwrap();
    let alive = game.living[&5].alive_data.as_ref().unwrap();
    assert_eq!(alive.gold, number(1500, 2));
    assert_eq!(alive.income, number(25, 1));
    assert!(game.rejected.is_empty());
}

#[test]
fn the_root_decoder_reports_what_the_root_lacks() {
    let config = Config::standard();
    assert_eq!(
        decode_root(&scalar("x"), metadata(), &plain(), &config),
        Err(DecodeError::UnknownTopLevelShape)
    );
    assert_eq!(
        decode_root(&object(vec![]), metadata(), &plain(), &config),
        Err(DecodeError::Fields(vec![
            FieldError { path: vec!["meta_data".to_string()], kind: FieldErrorKind::MissingField },
            FieldError { path: vec!["living".to_string()], kind: FieldErrorKind::MissingField },
        ]))
    );
    let no_version = object(vec![
        pair("meta_data", object(vec![])),
        pair("living", object(vec![])),
    ]);
    assert_eq!(
        decode_root(&no_version, metadata(), &plain(), &config),
        Err(DecodeError::Fields(vec![FieldError {
            path: vec!["meta_data".to_string(), "version".to_string()],
            kind: FieldErrorKind::MissingField
        }]))
    );
    let shallow = Config { max_depth: 3, era: Era::Negative };
    assert_eq!(
        decode_root(&saved_game(), metadata(), &plain(), &shallow),
        Err(DecodeError::DepthExceeded)
    );
    let enough = Config { max_depth: 4, era: Era::Negative };
    assert!(decode_root(&saved_game(), metadata(), &plain(), &enough).is_ok());
}

#[test]
fn the_descriptor_of_a_saved_game_has_metadata_and_living() {
    let descriptor = Gamestate::descriptor(metadata(), &plain());
    assert_eq!(
        shape(&descriptor),
        (
            "Gamestate".to_string(),
            vec![
                ("meta_data".to_string(), vec!["meta_data".to_string()], Cardinality::Required),
                ("living".to_string(), vec!["living".to_string()], Cardinality::Required),
            ]
        )
    );
    match &descriptor.fields[1].hint {
        Hint::Nested(living) => {
            assert_eq!(living.fields.len(), 1);
            assert_eq!(living.fields[0].cardinality, Cardinality::Keyed);
            match &living.fields[0].hint {
                Hint::Nested(character) => assert_eq!(character.name, "LivingCharacter"),
                _ => panic!("the members are records"),
            }
        }
        _ => panic!("the living block is a record"),
    }
}

#[test]
fn a_saved_game_is_read_from_a_bound_record() {
    let bound = Value::Record(vec![
        Value::Text("meta".to_string()),
        Value::Record(vec![Value::Keyed(vec![
            KeyedValue { key: 4, outcome: Ok(Value::Record(vec![])) },
            KeyedValue { key: 9, outcome: Err(vec![]) },
        ])]),
    ]);
    let game = Gamestate::from_value(bound);
    assert_eq!(game.meta_data, Value::Text("meta".to_string()));
    assert_eq!(game.living.len(), 1);
    assert_eq!(game.living[&4].first_name, None);
    assert_eq!(game.rejected, vec![Rejected { id: 9, errors: vec![] }]);
    let empty = Gamestate::from_value(Value::Absent);
    assert_eq!(empty.meta_data, Value::Absent);
    assert!(empty.living.is_empty() && empty.rejected.is_empty());
}

#[test]
fn fields_are_taken_out_of_records() {
    let record = || {
        Value::Record(vec![
            Value::Present(Box::new(Value::Bool(true))),
            Value::Absent,
            Value::List(vec![]),
        ])
    };
    assert_eq!(take_field(record(), 0), Value::Bool(true));
    assert_eq!(take_field(record(), 1), Value::Absent);
    assert_eq!(take_field(record(), 2), Value::List(vec![]));
    assert_eq!(take_field(record(), 3), Value::Absent);
    assert_eq!(take_field(Value::Bool(true), 0), Value::Absent);
    let errors = vec![FieldError { path: vec!["a".to_string(), "b".to_string()], kind: FieldErrorKind::MissingField }];
    assert_eq!(copy_errors(&errors), errors);
}
