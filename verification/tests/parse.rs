//! The parse scenarios: each tag is parsed against an in-memory
//! terminology table and the resulting concept and diagnostics are
//! compared with the expected decomposition.

use bcp47::Concept;
use bcp47::Guest;
use bcp47::LookupRequest;
use bcp47::LookupResponse;
use bcp47::ParseDetail;
use bcp47::ParseRequest;
use bcp47::ParseResponse;
use bcp47::Property;
use bcp47::Severity;
use bcp47::SubsumesRequest;
use bcp47::SubsumesResponse;
use bcp47::TerminologyDb;
use bcp47::TerminologyEngine;
use bcp47::ValueX;

pub struct MockTerminologyDb {
    concepts: Vec<(String, Concept)>,
}

impl MockTerminologyDb {
    pub fn new() -> Self {
        MockTerminologyDb { concepts: Vec::new() }
    }

    /// Registers a concept under the key `class-code`, the key shape
    /// the validator looks subtags up with; the class is read from the
    /// concept's `type` property.
    pub fn insert(&mut self, concept: Concept) {
        let class = concept
            .properties
            .iter()
            .find(|p| p.code == "type")
            .and_then(|p| match &p.value {
                ValueX::ValueString(s) => Some(s.clone()),
                _ => None,
            })
            .unwrap_or_default();
        let key = format!("{}-{}", class, concept.code);
        self.concepts.push((key, concept));
    }
}

impl TerminologyDb for MockTerminologyDb {
    fn db_lookup(&self, req: LookupRequest) -> LookupResponse {
        LookupResponse {
            concept: self.concepts.iter().find(|(k, _)| *k == req.code).map(|(_, c)| c.clone()),
        }
    }

    fn db_subsumes(&self, _req: SubsumesRequest) -> SubsumesResponse {
        panic!("not implemented");
    }
}

fn create_concept(code: &str, property_type: &str, display: Option<&str>) -> Concept {
    let mut properties = vec![Property {
        code: "type".to_string(),
        value: ValueX::ValueString(property_type.to_string()),
    }];
    if let Some(display) = display {
        properties.push(Property {
            code: "display".to_string(),
            value: ValueX::ValueString(display.to_string()),
        });
    }
    Concept { code: code.to_string(), display: None, properties }
}

fn assert_parse_result(result: ParseResponse, expected: ParseResponse) {
    println!("{:#?}", result);
    assert_eq!(result.concept.is_some(), expected.concept.is_some());
    if let (Some(actual), Some(wanted)) = (&result.concept, &expected.concept) {
        assert_eq!(actual.code, wanted.code);
        assert_eq!(actual.properties, wanted.properties);
    }
    assert_eq!(result.details.len(), expected.details.len());
    for (actual_detail, expected_detail) in result.details.iter().zip(expected.details.iter()) {
        assert_eq!(actual_detail.severity, expected_detail.severity);
        assert_eq!(actual_detail.key, expected_detail.key);
    }
}

fn create_expected_result(
    code: &str,
    property_types: Vec<(&str, &str)>,
    details: Vec<ParseDetail>,
) -> ParseResponse {
    let mut properties = Vec::new();
    for (pn, pv) in property_types {
        properties.push(Property {
            code: pn.to_string(),
            value: ValueX::ValueString(pv.to_string()),
        });
    }
    ParseResponse {
        details,
        concept: Some(Concept { code: code.to_string(), display: None, properties }),
    }
}

#[test]
fn test_parse_simple_language_code() {
    let mut db = MockTerminologyDb::new();
    db.insert(create_concept("en", "language", Some("English")));
    let parser = Guest::new(db);

    let code = "en".to_string();
    let result = parser.parse(ParseRequest { code: code.clone(), properties: None });
    let expected = create_expected_result(&code, vec![("language", "en")], vec![]);
    assert_parse_result(result, expected);
}

#[test]
fn test_parse_language_with_script() {
    let mut db = MockTerminologyDb::new();
    db.insert(create_concept("zh", "language", Some("Chinese")));
    db.insert(create_concept("Hant", "script", Some("Traditional")));
    let parser = Guest::new(db);

    let code = "zh-Hant".to_string();
    let result = parser.parse(ParseRequest { code: code.clone(), properties: None });
    let expected =
        create_expected_result(&code, vec![("language", "zh"), ("script", "Hant")], vec![]);
    assert_parse_result(result, expected);
}

#[test]
fn test_parse_language_with_region() {
    let mut db = MockTerminologyDb::new();
    db.insert(create_concept("en", "language", Some("English")));
    db.insert(create_concept("US", "region", Some("United States")));
    let parser = Guest::new(db);

    let code = "en-US".to_string();
    let result = parser.parse(ParseRequest { code: code.clone(), properties: None });
    let expected =
        create_expected_result(&code, vec![("language", "en"), ("region", "US")], vec![]);
    assert_parse_result(result, expected);
}

#[test]
fn test_parse_multiple_variants() {
    let mut db = MockTerminologyDb::new();
    db.insert(create_concept("sl", "language", Some("Slovenian")));
    db.insert(create_concept("IT", "region", Some("Italy")));
    db.insert(create_concept("nedis", "variant", Some("Nadiza dialect")));
    db.insert(create_concept("rozaj", "variant", Some("Resian dialect")));
    let parser = Guest::new(db);

    let code = "sl-IT-nedis-rozaj".to_string();
    let result = parser.parse(ParseRequest { code: code.clone(), properties: None });
    let expected = create_expected_result(
        &code,
        vec![
            ("language", "sl"),
            ("region", "IT"),
            ("variant", "nedis"),
            ("variant", "rozaj"),
        ],
        vec![],
    );
    assert_parse_result(result, expected);
}

#[test]
fn test_parse_with_extension() {
    let mut db = MockTerminologyDb::new();
    db.insert(create_concept("en", "language", Some("English")));
    db.insert(create_concept("US", "region", Some("United States")));
    let parser = Guest::new(db);

    let code = "en-US-u-co-phonebk".to_string();
    let result = parser.parse(ParseRequest { code: code.clone(), properties: None });
    let expected = create_expected_result(
        &code,
        vec![
            ("language", "en"),
            ("region", "US"),
            ("extension", "u-co-phonebk"),
        ],
        vec![],
    );
    assert_parse_result(result, expected);
}

#[test]
fn test_parse_with_private_use() {
    let mut db = MockTerminologyDb::new();
    db.insert(create_concept("en", "language", Some("English")));
    db.insert(create_concept("US", "region", Some("United States")));
    let parser = Guest::new(db);

    let code = "en-x-shhabc".to_string();
    let result = parser.parse(ParseRequest { code: code.clone(), properties: None });
    let expected = create_expected_result(
        &code,
        vec![("language", "en"), ("privateUse", "shhabc")],
        vec![],
    );
    assert_parse_result(result, expected);
}

#[test]
fn test_parse_with_invalid_language() {
    let db = MockTerminologyDb::new();
    let parser = Guest::new(db);

    let code = "invalid".to_string();
    let result = parser.parse(ParseRequest { code: code.clone(), properties: None });
    let expected = create_expected_result(
        &code,
        vec![("language", "invalid")],
        vec![ParseDetail {
            severity: Severity::Error,
            key: "language".to_string(),
            value: ValueX::ValueString("Invalid language code: invalid".to_string()),
        }],
    );
    assert_parse_result(result, expected);
}

#[test]
fn test_parse_with_invalid_extlang() {
    let mut db = MockTerminologyDb::new();
    db.insert(create_concept("en", "language", Some("English")));
    let parser = Guest::new(db);

    let code = "en-abc".to_string();
    let result = parser.parse(ParseRequest { code: code.clone(), properties: None });
    println!("{:#?}", result);
    assert!(result.concept.is_some());
    assert!(result
        .details
        .iter()
        .any(|d| d.severity == Severity::Warning && d.key == "extLang"));
}

#[test]
fn test_parse_with_multiple_extensions() {
    let mut db = MockTerminologyDb::new();
    db.insert(create_concept("en", "language", Some("English")));
    db.insert(create_concept("US", "region", Some("United States")));
    let parser = Guest::new(db);

    let code = "en-US-u-co-phonebk-x-priv".to_string();
    let result = parser.parse(ParseRequest { code: code.clone(), properties: None });
    let expected = create_expected_result(
        &code,
        vec![
            ("language", "en"),
            ("region", "US"),
            ("extension", "u-co-phonebk"),
            ("privateUse", "priv"),
        ],
        vec![],
    );
    assert_parse_result(result, expected);
}

#[test]
fn test_parse_with_extension_and_private_use() {
    let mut db = MockTerminologyDb::new();
    db.insert(create_concept("en", "language", Some("English")));
    db.insert(create_concept("US", "region", Some("United States")));
    db.insert(create_concept("u", "extension", Some("Extension")));
    db.insert(create_concept("co", "extension", Some("Collation")));
    db.insert(create_concept("phonebk", "extension", Some("Phonebook sort order")));
    let parser = Guest::new(db);

    let code = "en-US-u-co-phonebk-x-private".to_string();
    let result = parser.parse(ParseRequest { code: code.clone(), properties: None });
    let expected = create_expected_result(
        &code,
        vec![
            ("language", "en"),
            ("region", "US"),
            ("extension", "u-co-phonebk"),
            ("privateUse", "private"),
        ],
        vec![],
    );
    assert_parse_result(result, expected);
}

#[test]
fn test_parse_with_invalid_extension() {
    let mut db = MockTerminologyDb::new();
    db.insert(create_concept("en", "language", Some("English")));
    db.insert(create_concept("US", "region", Some("United States")));
    let parser = Guest::new(db);

    let code = "en-US-u-be-abcdefghi".to_string();
    let result = parser.parse(ParseRequest { code: code.clone(), properties: None });
    assert!(result.concept.is_none());
}
