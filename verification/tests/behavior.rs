//! Behavioral checks beyond the basic parse scenarios: display
//! synthesis, the fatal conditions, diagnostic normalization,
//! idempotence, and the engine's auxiliary operations.

use bcp47::CODE_SYSTEM;
use bcp47::Concept;
use bcp47::Guest;
use bcp47::LookupRequest;
use bcp47::LookupResponse;
use bcp47::ParseRequest;
use bcp47::Property;
use bcp47::Severity;
use bcp47::SubsumesRequest;
use bcp47::SubsumesResponse;
use bcp47::TerminologyDb;
use bcp47::TerminologyEngine;
use bcp47::ValueX;

/// A table keyed directly by the lookup code, whose concepts carry
/// their display text in the display field.
struct TableDb {
    entries: Vec<(String, Concept)>,
}

impl TableDb {
    fn new() -> Self {
        TableDb { entries: Vec::new() }
    }

    fn with_display(mut self, key: &str, display: &str) -> Self {
        self.entries.push((
            key.to_string(),
            Concept {
                code: key.to_string(),
                display: Some(display.to_string()),
                properties: Vec::new(),
            },
        ));
        self
    }

    fn with_display_property(mut self, key: &str, display: &str) -> Self {
        self.entries.push((
            key.to_string(),
            Concept {
                code: key.to_string(),
                display: None,
                properties: vec![Property {
                    code: "display".to_string(),
                    value: ValueX::ValueString(display.to_string()),
                }],
            },
        ));
        self
    }
}

impl TerminologyDb for TableDb {
    fn db_lookup(&self, req: LookupRequest) -> LookupResponse {
        LookupResponse {
            concept: self.entries.iter().find(|(k, _)| *k == req.code).map(|(_, c)| c.clone()),
        }
    }

    fn db_subsumes(&self, _req: SubsumesRequest) -> SubsumesResponse {
        panic!("not implemented");
    }
}

fn parse(db: TableDb, code: &str) -> bcp47::ParseResponse {
    Guest::new(db).parse(ParseRequest { code: code.to_string(), properties: None })
}

#[test]
fn all_resolved_yields_no_details() {
    let db = TableDb::new()
        .with_display("language-en", "English")
        .with_display("region-US", "United States");
    let r = parse(db, "en-US");
    assert!(r.details.is_empty());
    assert_eq!(r.concept.as_ref().unwrap().code, "en-US");
}

#[test]
fn display_is_synthesized_from_resolved_subtags() {
    let db = TableDb::new()
        .with_display("language-en", "English")
        .with_display("script-Latn", "Latin")
        .with_display("region-US", "United States");
    let r = parse(db, "en-Latn-US");
    assert_eq!(
        r.concept.unwrap().display.unwrap(),
        "Language: English (Region: United States, Script: Latin)"
    );
}

#[test]
fn display_lists_variants() {
    let db = TableDb::new().with_display("language-sl", "Slovenian");
    let r = parse(db, "sl-nedis-rozaj");
    assert_eq!(
        r.concept.unwrap().display.unwrap(),
        "Language: Slovenian (Variant: nedis, rozaj)"
    );
}

#[test]
fn display_falls_back_to_raw_tag() {
    let r = parse(TableDb::new(), "en-US");
    assert_eq!(r.concept.unwrap().display.unwrap(), "Language tag: en-US");
}

#[test]
fn unresolved_language_display_uses_its_code() {
    let db = TableDb::new().with_display("language-en", "");
    let r = parse(db, "en");
    assert_eq!(r.concept.unwrap().display.unwrap(), "Language: ");
}

#[test]
fn empty_input_is_fatal_under_language() {
    let r = parse(TableDb::new(), "");
    assert!(r.concept.is_none());
    assert_eq!(r.details.len(), 1);
    assert_eq!(r.details[0].severity, Severity::Error);
    assert_eq!(r.details[0].key, "language");
    assert_eq!(
        r.details[0].value,
        ValueX::ValueString("Invalid language subtag: ".to_string())
    );
}

#[test]
fn digit_token_fails_the_language_shape() {
    let r = parse(TableDb::new(), "1");
    assert!(r.concept.is_none());
    assert_eq!(r.details.len(), 1);
    assert_eq!(r.details[0].severity, Severity::Error);
    assert_eq!(r.details[0].key, "language");
}

#[test]
fn reserved_four_letter_language_is_fatal() {
    let r = parse(TableDb::new(), "Hant");
    assert!(r.concept.is_none());
    assert_eq!(r.details.len(), 1);
    assert_eq!(r.details[0].key, "language");
}

#[test]
fn registered_long_language_subtag_parses() {
    let db = TableDb::new().with_display("language-abcde", "Some tongue");
    let r = parse(db, "abcde");
    assert!(r.details.is_empty());
    assert_eq!(
        r.concept.unwrap().properties,
        vec![Property {
            code: "language".to_string(),
            value: ValueX::ValueString("Some tongue".to_string()),
        }]
    );
}

#[test]
fn bare_singleton_is_a_fatal_extension() {
    let db = TableDb::new()
        .with_display("language-en", "English")
        .with_display("region-US", "United States");
    let r = parse(db, "en-US-u");
    assert!(r.concept.is_none());
    assert_eq!(r.details.len(), 1);
    assert_eq!(r.details[0].severity, Severity::Error);
    assert_eq!(r.details[0].key, "extension");
    assert_eq!(
        r.details[0].value,
        ValueX::ValueString("Invalid extension subtag: u".to_string())
    );
}

#[test]
fn digit_singleton_opens_an_extension() {
    let db = TableDb::new().with_display("language-en", "English");
    let r = parse(db, "en-9-abc");
    assert!(r.details.is_empty());
    let props = r.concept.unwrap().properties;
    assert_eq!(props[1].code, "extension");
    assert_eq!(props[1].value, ValueX::ValueString("9-abc".to_string()));
}

#[test]
fn overlong_private_use_part_is_fatal() {
    let db = TableDb::new().with_display("language-en", "English");
    let r = parse(db, "en-x-abcdefghi");
    assert!(r.concept.is_none());
    assert_eq!(r.details.len(), 1);
    assert_eq!(r.details[0].key, "privateUse");
    assert_eq!(
        r.details[0].value,
        ValueX::ValueString("Invalid private use subtag: abcdefghi".to_string())
    );
}

#[test]
fn bare_private_use_marker_parses_with_no_parts() {
    let db = TableDb::new().with_display("language-en", "English");
    let r = parse(db, "en-x");
    assert!(r.details.is_empty());
    let props = r.concept.unwrap().properties;
    assert_eq!(props.len(), 1);
    assert_eq!(props[0].code, "language");
}

#[test]
fn leftover_token_rejects_the_whole_tag() {
    let db = TableDb::new()
        .with_display("language-en", "English")
        .with_display("region-US", "United States");
    let r = parse(db, "en-US-US");
    assert!(r.concept.is_none());
    assert_eq!(r.details.len(), 1);
    assert_eq!(r.details[0].key, "language");
    assert_eq!(
        r.details[0].value,
        ValueX::ValueString("Invalid language tag: en-US-US".to_string())
    );
}

#[test]
fn sixth_variant_cannot_be_consumed() {
    let db = TableDb::new().with_display("language-en", "English");
    let r = parse(db, "en-1aaa-2aaa-3aaa-4aaa-5aaa-6aaa");
    assert!(r.concept.is_none());
    assert_eq!(r.details.len(), 1);
    assert_eq!(r.details[0].key, "language");
}

#[test]
fn details_are_sorted_and_deduplicated() {
    let r = parse(TableDb::new(), "en-abc-abc");
    assert!(r.concept.is_some());
    assert_eq!(r.details.len(), 2);
    assert_eq!(r.details[0].severity, Severity::Error);
    assert_eq!(r.details[0].key, "language");
    assert_eq!(r.details[1].severity, Severity::Warning);
    assert_eq!(r.details[1].key, "extLang");
    assert_ne!(r.details[0], r.details[1]);
}

#[test]
fn warnings_sort_by_key_within_a_severity() {
    let r = parse(TableDb::new(), "en-abc-Latn-US-1aaa");
    assert!(r.concept.is_some());
    let keys: Vec<&str> = r.details.iter().map(|d| d.key.as_str()).collect();
    assert_eq!(keys, vec!["language", "extLang", "region", "script", "variant"]);
    assert_eq!(r.details[0].severity, Severity::Error);
    for d in &r.details[1..] {
        assert_eq!(d.severity, Severity::Warning);
    }
}

#[test]
fn parsing_twice_gives_identical_results() {
    let db = TableDb::new()
        .with_display("language-en", "English")
        .with_display("region-US", "United States");
    let parser = Guest::new(db);
    let req = ParseRequest { code: "en-US-u-co-phonebk-x-private".to_string(), properties: None };
    let first = parser.parse(req.clone());
    let second = parser.parse(req);
    assert_eq!(first, second);
}

#[test]
fn metadata_returns_the_code_system_document() {
    let engine = Guest::new(TableDb::new());
    let doc = engine.metadata();
    assert_eq!(doc, CODE_SYSTEM);
    assert!(doc.contains("\"urn:ietf:bcp:47\""));
}

#[test]
fn subsumes_is_not_implemented() {
    let engine = Guest::new(TableDb::new());
    let answer = engine.subsumes(SubsumesRequest {
        ancestor: "en".to_string(),
        descendant: "en-US".to_string(),
    });
    assert!(answer.is_none());
}

#[test]
fn lookup_display_takes_the_display_property() {
    let db = TableDb::new().with_display_property("en", "English");
    assert_eq!(db.lookup_display("en"), "English");
    assert_eq!(db.lookup_display("fr"), "fr");
}

#[test]
fn lookup_display_ignores_the_display_field() {
    let db = TableDb::new().with_display("en", "English");
    assert_eq!(db.lookup_display("en"), "en");
}
