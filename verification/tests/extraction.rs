use wikifacts::classify::{is_subclass_of, ClassIndex};
use wikifacts::extract::extract;
use wikifacts::model::{
    DataValue, Fact, Label, PropertyClaims, QualifierGroup, QualifierSnak, Record, Snak, Statement,
};

fn strs(v: &[&str]) -> Vec<String> {
    v.iter().map(|s| s.to_string()).collect()
}

fn classes(
    te: &[&str],
    hs: &[&str],
    ex: &[&str],
    exs: &[&str],
    second: &[&str],
    lang: &[&str],
) -> ClassIndex {
    ClassIndex {
        territorial_entities: strs(te),
        human_settlements: strs(hs),
        excluded: strs(ex),
        excluded_settlements: strs(exs),
        second_level_admin_div: strs(second),
        languages: strs(lang),
    }
}

fn stmt(snak: Snak) -> Statement {
    Statement { snak, qualifiers: vec![] }
}

fn entity(id: &str) -> Snak {
    Snak::Value(DataValue::Entity { id: id.to_string() })
}

fn text(s: &str) -> Snak {
    Snak::Value(DataValue::Str(s.to_string()))
}

fn mono(lang: &str, t: &str) -> Snak {
    Snak::Value(DataValue::Monolingual { language: lang.to_string(), text: t.to_string() })
}

fn quantity(amount: &str, unit: &str) -> Snak {
    Snak::Value(DataValue::Quantity { amount: amount.to_string(), unit: unit.to_string() })
}

fn qual(prop: &str, time: Option<i64>) -> QualifierGroup {
    QualifierGroup { prop: prop.to_string(), snaks: vec![QualifierSnak { time }] }
}

fn claims(prop: &str, statements: Vec<Statement>) -> PropertyClaims {
    PropertyClaims { prop: prop.to_string(), statements }
}

fn record(id: &str, claims: Vec<PropertyClaims>, labels: Vec<(&str, &str)>) -> Record {
    Record {
        id: id.to_string(),
        claims,
        labels: labels
            .iter()
            .map(|(l, v)| Label { lang: l.to_string(), value: v.to_string() })
            .collect(),
    }
}

#[test]
fn subclass_of_active_instance() {
    let r = record("Q64", vec![claims("P31", vec![stmt(entity("Q515"))])], vec![]);
    assert!(is_subclass_of(&r, &strs(&["Q515", "Q100"]), 10));
    assert!(!is_subclass_of(&r, &strs(&["Q100"]), 10));
}

#[test]
fn subclass_of_replaced_by_qualifier_disqualifies() {
    let mut s = stmt(entity("Q515"));
    s.qualifiers.push(qual("P1366", None));
    let r = record("Q64", vec![claims("P31", vec![s])], vec![]);
    assert!(!is_subclass_of(&r, &strs(&["Q515"]), 10));
}

#[test]
fn subclass_of_expired_instance_disqualifies() {
    let mut s = stmt(entity("Q515"));
    s.qualifiers.push(qual("P582", Some(5)));
    let r = record("Q64", vec![claims("P31", vec![s])], vec![]);
    assert!(!is_subclass_of(&r, &strs(&["Q515"]), 10));
    // a later statement can still qualify
    let mut s2 = stmt(entity("Q515"));
    s2.qualifiers.push(qual("P582", Some(5)));
    let r2 = record(
        "Q64",
        vec![claims("P31", vec![s2, stmt(entity("Q515"))])],
        vec![],
    );
    assert!(is_subclass_of(&r2, &strs(&["Q515"]), 10));
}

#[test]
fn extract_is_deterministic() {
    let r = record(
        "Q100",
        vec![
            claims("P31", vec![stmt(entity("Q486972"))]),
            claims("P17", vec![stmt(entity("Q183"))]),
            claims("P297", vec![stmt(text("DE"))]),
        ],
        vec![("en", "Place")],
    );
    let c = classes(&[], &["Q486972"], &[], &[], &[], &[]);
    let first = extract(&r, &c, 10);
    let second = extract(&r, &c, 10);
    assert_eq!(first, second);
    assert!(!first.is_empty());
}

#[test]
fn dissolved_record_yields_nothing() {
    let r = record(
        "Q100",
        vec![
            claims("P31", vec![stmt(entity("Q486972"))]),
            claims("P17", vec![stmt(entity("Q183"))]),
            claims("P297", vec![stmt(text("DE"))]),
            claims("P576", vec![stmt(Snak::NoValue)]),
        ],
        vec![("en", "Gone")],
    );
    let c = classes(&[], &["Q486972"], &[], &[], &[], &[]);
    assert_eq!(extract(&r, &c, 10), vec![]);
}

#[test]
fn fully_replaced_record_yields_nothing() {
    let r = record(
        "Q100",
        vec![
            claims("P297", vec![stmt(text("DE"))]),
            claims("P1366", vec![stmt(entity("Q200"))]),
        ],
        vec![],
    );
    let c = classes(&[], &[], &[], &[], &[], &[]);
    assert_eq!(extract(&r, &c, 10), vec![]);
}

#[test]
fn partial_replacement_does_not_exclude() {
    let mut replaced = stmt(entity("Q200"));
    replaced.qualifiers.push(qual("P518", None));
    let r = record(
        "Q100",
        vec![
            claims("P297", vec![stmt(text("DE"))]),
            claims("P1366", vec![replaced]),
        ],
        vec![],
    );
    let c = classes(&[], &[], &[], &[], &[], &[]);
    assert_eq!(
        extract(&r, &c, 10),
        vec![Fact::Country { id: "Q100".to_string(), iso: "de".to_string() }]
    );
}

#[test]
fn mixed_replacement_still_excludes() {
    // one full replacement among partial ones is enough to drop the record
    let mut partial = stmt(entity("Q200"));
    partial.qualifiers.push(qual("P518", None));
    let full = stmt(entity("Q201"));
    let r = record(
        "Q100",
        vec![
            claims("P297", vec![stmt(text("DE"))]),
            claims("P1366", vec![partial, full]),
        ],
        vec![],
    );
    let c = classes(&[], &[], &[], &[], &[], &[]);
    assert_eq!(extract(&r, &c, 10), vec![]);
}

#[test]
fn languages_emitted_without_country_code_property() {
    let r = record("Q183", vec![claims("P37", vec![stmt(entity("Q150"))])], vec![]);
    let c = classes(&[], &[], &[], &[], &[], &[]);
    assert_eq!(
        extract(&r, &c, 10),
        vec![Fact::ObjectLanguage { id: "Q183".to_string(), lang_id: "Q150".to_string(), index: 0 }]
    );
}

#[test]
fn country_code_is_lowercased() {
    let r = record("Q183", vec![claims("P297", vec![stmt(text("DE"))])], vec![]);
    let c = classes(&[], &[], &[], &[], &[], &[]);
    assert_eq!(
        extract(&r, &c, 10),
        vec![Fact::Country { id: "Q183".to_string(), iso: "de".to_string() }]
    );
}

#[test]
fn country_code_first_active_statement_wins() {
    let mut expired = stmt(text("XX"));
    expired.qualifiers.push(qual("P582", Some(5)));
    let r = record(
        "Q183",
        vec![claims("P297", vec![expired, stmt(text("DD"))])],
        vec![],
    );
    let c = classes(&[], &[], &[], &[], &[], &[]);
    assert_eq!(
        extract(&r, &c, 10),
        vec![Fact::Country { id: "Q183".to_string(), iso: "dd".to_string() }]
    );
}

#[test]
fn official_language_index_skips_non_survivors() {
    let mut expired = stmt(entity("Q1"));
    expired.qualifiers.push(qual("P582", Some(5)));
    let r = record(
        "Q183",
        vec![
            claims("P297", vec![stmt(text("FR"))]),
            claims("P37", vec![stmt(entity("Q150")), expired, stmt(entity("Q7"))]),
        ],
        vec![],
    );
    let c = classes(&[], &[], &[], &[], &[], &[]);
    assert_eq!(
        extract(&r, &c, 10),
        vec![
            Fact::Country { id: "Q183".to_string(), iso: "fr".to_string() },
            Fact::ObjectLanguage { id: "Q183".to_string(), lang_id: "Q150".to_string(), index: 0 },
            Fact::ObjectLanguage { id: "Q183".to_string(), lang_id: "Q7".to_string(), index: 1 },
        ]
    );
}

#[test]
fn territorial_entity_second_level() {
    let mut expired_parent = stmt(entity("Q12"));
    expired_parent.qualifiers.push(qual("P582", Some(5)));
    let r = record(
        "Q1000",
        vec![
            claims("P31", vec![stmt(entity("Q56061")), stmt(entity("Q13220204"))]),
            claims("P300", vec![stmt(text("US-NY"))]),
            claims(
                "P131",
                vec![stmt(entity("Q11")), expired_parent, stmt(Snak::NoValue)],
            ),
            claims("P2936", vec![stmt(entity("Q1860"))]),
        ],
        vec![("en", "New York")],
    );
    let c = classes(&["Q56061"], &[], &[], &[], &["Q13220204"], &[]);
    assert_eq!(
        extract(&r, &c, 10),
        vec![
            Fact::TerritorialEntity {
                id: "Q1000".to_string(),
                is_second_level: true,
                iso: Some("US-NY".to_string()),
            },
            Fact::TerritorialEntityParent {
                id: "Q1000".to_string(),
                parent_id: "Q11".to_string(),
            },
            Fact::ObjectLanguage { id: "Q1000".to_string(), lang_id: "Q1860".to_string(), index: 0 },
            Fact::ObjectLabel {
                id: "Q1000".to_string(),
                lang: "en".to_string(),
                label: "New York".to_string(),
                native_order: None,
            },
        ]
    );
}

#[test]
fn territorial_entity_first_level_has_no_iso() {
    let r = record(
        "Q1000",
        vec![
            claims("P31", vec![stmt(entity("Q56061"))]),
            claims("P300", vec![stmt(text("US-NY"))]),
        ],
        vec![],
    );
    let c = classes(&["Q56061"], &[], &[], &[], &[], &[]);
    assert_eq!(
        extract(&r, &c, 10),
        vec![Fact::TerritorialEntity { id: "Q1000".to_string(), is_second_level: false, iso: None }]
    );
}

#[test]
fn excluded_class_suppresses_handlers() {
    let r = record(
        "Q1000",
        vec![claims("P31", vec![stmt(entity("Q56061")), stmt(entity("Q4167410"))])],
        vec![],
    );
    let c = classes(&["Q56061"], &[], &["Q4167410"], &[], &[], &[]);
    assert_eq!(extract(&r, &c, 10), vec![]);
}

#[test]
fn excluded_settlement_suppresses_settlement_handler() {
    let r = record(
        "Q100",
        vec![
            claims("P31", vec![stmt(entity("Q486972")), stmt(entity("Q19953632"))]),
            claims("P17", vec![stmt(entity("Q183"))]),
        ],
        vec![],
    );
    let c = classes(&[], &["Q486972"], &[], &["Q19953632"], &[], &[]);
    assert_eq!(extract(&r, &c, 10), vec![]);
}

#[test]
fn missing_country_emits_single_fact() {
    let r = record(
        "Q100",
        vec![claims("P31", vec![stmt(entity("Q486972"))])],
        vec![("en", "Lost")],
    );
    let c = classes(&[], &["Q486972"], &[], &[], &[], &[]);
    assert_eq!(
        extract(&r, &c, 10),
        vec![Fact::MissingCountryProperty { id: "Q100".to_string() }]
    );
}

#[test]
fn language_record_emits_code() {
    let r = record(
        "Q1860",
        vec![
            claims("P31", vec![stmt(entity("Q34770"))]),
            claims("P424", vec![stmt(text("en"))]),
        ],
        vec![],
    );
    let c = classes(&[], &[], &[], &[], &[], &["Q34770"]);
    assert_eq!(
        extract(&r, &c, 10),
        vec![Fact::Language { id: "Q1860".to_string(), wikimedia_code: "en".to_string() }]
    );
}

#[test]
fn language_record_without_code_value_emits_nothing() {
    let r = record(
        "Q1860",
        vec![
            claims("P31", vec![stmt(entity("Q34770"))]),
            claims("P424", vec![stmt(Snak::NoValue)]),
        ],
        vec![],
    );
    let c = classes(&[], &[], &[], &[], &[], &["Q34770"]);
    assert_eq!(extract(&r, &c, 10), vec![]);
}

fn population_statement(time: Option<i64>, amount: &str, unit: &str) -> Statement {
    let mut s = stmt(quantity(amount, unit));
    if let Some(t) = time {
        s.qualifiers.push(qual("P585", Some(t)));
    }
    s
}

#[test]
fn population_prefers_later_time() {
    let r = record(
        "Q100",
        vec![
            claims("P31", vec![stmt(entity("Q486972"))]),
            claims("P17", vec![stmt(entity("Q183"))]),
            claims(
                "P1082",
                vec![
                    population_statement(Some(100), "+1,000", "1"),
                    population_statement(Some(200), "+2000", "1"),
                ],
            ),
        ],
        vec![],
    );
    let c = classes(&[], &["Q486972"], &[], &[], &[], &[]);
    let facts = extract(&r, &c, 10);
    assert!(facts.contains(&Fact::City {
        id: "Q100".to_string(),
        population: Some(2000),
        lat: None,
        lon: None,
    }));
}

#[test]
fn population_partial_statement_cannot_override() {
    let mut female = population_statement(Some(300), "+9999", "1");
    female.qualifiers.push(qual("P1539", None));
    let r = record(
        "Q100",
        vec![
            claims("P31", vec![stmt(entity("Q486972"))]),
            claims("P17", vec![stmt(entity("Q183"))]),
            claims(
                "P1082",
                vec![
                    population_statement(Some(100), "+1000", "1"),
                    population_statement(Some(200), "+2000", "1"),
                    female,
                ],
            ),
        ],
        vec![],
    );
    let c = classes(&[], &["Q486972"], &[], &[], &[], &[]);
    let facts = extract(&r, &c, 10);
    assert!(facts.contains(&Fact::City {
        id: "Q100".to_string(),
        population: Some(2000),
        lat: None,
        lon: None,
    }));
}

#[test]
fn population_tie_favors_later_statement() {
    let r = record(
        "Q100",
        vec![
            claims("P31", vec![stmt(entity("Q486972"))]),
            claims("P17", vec![stmt(entity("Q183"))]),
            claims(
                "P1082",
                vec![
                    population_statement(Some(100), "+1000", "1"),
                    population_statement(Some(100), "+1500", "1"),
                ],
            ),
        ],
        vec![],
    );
    let c = classes(&[], &["Q486972"], &[], &[], &[], &[]);
    let facts = extract(&r, &c, 10);
    assert!(facts.contains(&Fact::City {
        id: "Q100".to_string(),
        population: Some(1500),
        lat: None,
        lon: None,
    }));
}

#[test]
fn languages_emitted_even_without_active_country_code() {
    let mut expired = stmt(text("XX"));
    expired.qualifiers.push(qual("P582", Some(5)));
    let r = record(
        "Q183",
        vec![
            claims("P297", vec![expired]),
            claims("P37", vec![stmt(entity("Q150"))]),
        ],
        vec![],
    );
    let c = classes(&[], &[], &[], &[], &[], &[]);
    assert_eq!(
        extract(&r, &c, 10),
        vec![Fact::ObjectLanguage { id: "Q183".to_string(), lang_id: "Q150".to_string(), index: 0 }]
    );
}

#[test]
fn population_with_unit_is_rejected() {
    let r = record(
        "Q100",
        vec![
            claims("P31", vec![stmt(entity("Q486972"))]),
            claims("P17", vec![stmt(entity("Q183"))]),
            claims("P1082", vec![population_statement(Some(100), "+1000", "Q11573")]),
        ],
        vec![],
    );
    let c = classes(&[], &["Q486972"], &[], &[], &[], &[]);
    let facts = extract(&r, &c, 10);
    assert!(facts.contains(&Fact::City {
        id: "Q100".to_string(),
        population: None,
        lat: None,
        lon: None,
    }));
}

#[test]
fn settlement_end_to_end() {
    let mut dated_country = stmt(entity("Q183"));
    dated_country.qualifiers.push(qual("P580", Some(5)));
    let undated_country = stmt(entity("Q39"));
    let lat = 52.5_f64.to_bits();
    let lon = 13.4_f64.to_bits();
    let r = record(
        "Q64",
        vec![
            claims("P31", vec![stmt(entity("Q486972"))]),
            claims("P17", vec![dated_country, undated_country]),
            claims(
                "P1082",
                vec![
                    population_statement(Some(100), "+1,000", "1"),
                    population_statement(Some(200), "+2000", "1"),
                ],
            ),
            claims(
                "P625",
                vec![stmt(Snak::Value(DataValue::Coordinate { lat_bits: lat, lon_bits: lon }))],
            ),
            claims("P1705", vec![stmt(mono("de", "Berlin")), stmt(mono("en", "Berlin"))]),
            claims("P1448", vec![stmt(mono("fr", "Officiel"))]),
        ],
        vec![("en", "Berlin")],
    );
    let c = classes(&[], &["Q486972"], &[], &[], &[], &[]);
    assert_eq!(
        extract(&r, &c, 10),
        vec![
            Fact::CityCountry { id: "Q64".to_string(), country_id: "Q183".to_string(), priority: 0 },
            Fact::CityCountry {
                id: "Q64".to_string(),
                country_id: "Q39".to_string(),
                priority: 1001,
            },
            Fact::City {
                id: "Q64".to_string(),
                population: Some(2000),
                lat: Some(lat),
                lon: Some(lon),
            },
            Fact::ObjectLabel {
                id: "Q64".to_string(),
                lang: "en".to_string(),
                label: "Berlin".to_string(),
                native_order: None,
            },
            Fact::ObjectLabel {
                id: "Q64".to_string(),
                lang: "de".to_string(),
                label: "Berlin".to_string(),
                native_order: Some(0),
            },
            Fact::ObjectLabel {
                id: "Q64".to_string(),
                lang: "en".to_string(),
                label: "Berlin".to_string(),
                native_order: Some(1),
            },
        ]
    );
}

#[test]
fn settlement_inactive_country_is_skipped_but_consumes_index() {
    let mut expired = stmt(entity("Q29999"));
    expired.qualifiers.push(qual("P582", Some(5)));
    let r = record(
        "Q64",
        vec![
            claims("P31", vec![stmt(entity("Q486972"))]),
            claims("P17", vec![expired, stmt(entity("Q183"))]),
        ],
        vec![],
    );
    let c = classes(&[], &["Q486972"], &[], &[], &[], &[]);
    let facts = extract(&r, &c, 10);
    assert!(facts.contains(&Fact::CityCountry {
        id: "Q64".to_string(),
        country_id: "Q183".to_string(),
        priority: 1001,
    }));
    assert!(!facts.iter().any(|f| matches!(f, Fact::CityCountry { priority: 0, .. })));
}

#[test]
fn official_name_fallback_filters_by_active() {
    let mut expired_name = stmt(mono("de", "Alt"));
    expired_name.qualifiers.push(qual("P582", Some(5)));
    let r = record(
        "Q64",
        vec![
            claims("P31", vec![stmt(entity("Q486972"))]),
            claims("P17", vec![stmt(entity("Q183"))]),
            claims("P1448", vec![expired_name, stmt(mono("de", "Neu"))]),
        ],
        vec![],
    );
    let c = classes(&[], &["Q486972"], &[], &[], &[], &[]);
    let facts = extract(&r, &c, 10);
    assert!(facts.contains(&Fact::ObjectLabel {
        id: "Q64".to_string(),
        lang: "de".to_string(),
        label: "Neu".to_string(),
        native_order: Some(0),
    }));
    assert!(!facts
        .iter()
        .any(|f| matches!(f, Fact::ObjectLabel { label, .. } if label == "Alt")));
}

#[test]
fn empty_native_label_property_blocks_fallback() {
    let r = record(
        "Q64",
        vec![
            claims("P31", vec![stmt(entity("Q486972"))]),
            claims("P17", vec![stmt(entity("Q183"))]),
            claims("P1705", vec![]),
            claims("P1448", vec![stmt(mono("de", "Neu"))]),
        ],
        vec![],
    );
    let c = classes(&[], &["Q486972"], &[], &[], &[], &[]);
    let facts = extract(&r, &c, 10);
    assert!(!facts.iter().any(|f| matches!(f, Fact::ObjectLabel { native_order: Some(_), .. })));
}
