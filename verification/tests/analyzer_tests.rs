use dfx_canister_counter::{
    analyze_canisters, canister_type_label, canisters_of, entry_labels, parse_manifest, Json,
    ManifestError,
};

fn parse(text: &str) -> Json {
    parse_manifest(text).expect("well-formed JSON must parse")
}

fn count_of(tally: &[(String, usize)], label: &str) -> Option<usize> {
    tally.iter().find(|(k, _)| k == label).map(|(_, c)| *c)
}

#[test]
fn three_typed_entries() {
    let doc = parse(
        "{\"canisters\": {
          \"web3disk\": {\"type\": \"custom\", \"candid\": \"x.did\"},
          \"web3disk_service_backend\": {\"type\": \"motoko\", \"main\": \"main.mo\"},
          \"internet-identity\": {\"type\": \"pull\", \"id\": \"rdmx6-jaaaa-aaaaa-aaadq-cai\"}
        }}",
    );
    let (total, tally) = analyze_canisters(&doc).expect("canisters object is present");
    assert_eq!(total, 3);
    assert_eq!(tally.len(), 3);
    assert_eq!(count_of(&tally, "custom"), Some(1));
    assert_eq!(count_of(&tally, "motoko"), Some(1));
    assert_eq!(count_of(&tally, "pull"), Some(1));
}

#[test]
fn entry_without_type_is_unknown() {
    let doc = parse("{\"canisters\": {\"foo\": {}}}");
    let (total, tally) = analyze_canisters(&doc).expect("canisters object is present");
    assert_eq!(total, 1);
    assert_eq!(tally, vec![("unknown".to_string(), 1)]);
}

#[test]
fn null_type_is_unknown() {
    let doc = parse("{\"canisters\": {\"foo\": {\"type\": null}}}");
    let (total, tally) = analyze_canisters(&doc).expect("canisters object is present");
    assert_eq!(total, 1);
    assert_eq!(count_of(&tally, "unknown"), Some(1));
}

#[test]
fn non_string_type_is_unknown() {
    let doc = parse(
        "{\"canisters\": {
          \"a\": {\"type\": 5},
          \"b\": {\"type\": true},
          \"c\": {\"type\": [\"motoko\"]},
          \"d\": {\"type\": {\"inner\": \"motoko\"}}
        }}",
    );
    let (total, tally) = analyze_canisters(&doc).expect("canisters object is present");
    assert_eq!(total, 4);
    assert_eq!(tally, vec![("unknown".to_string(), 4)]);
}

#[test]
fn repeated_type_shares_a_bucket() {
    let doc = parse(
        "{\"canisters\": {
          \"a\": {\"type\": \"motoko\"},
          \"b\": {\"type\": \"motoko\"},
          \"c\": {\"type\": \"rust\"},
          \"d\": {}
        }}",
    );
    let (total, tally) = analyze_canisters(&doc).expect("canisters object is present");
    assert_eq!(total, 4);
    assert_eq!(tally.len(), 3);
    assert_eq!(count_of(&tally, "motoko"), Some(2));
    assert_eq!(count_of(&tally, "rust"), Some(1));
    assert_eq!(count_of(&tally, "unknown"), Some(1));
    let sum: usize = tally.iter().map(|(_, c)| *c).sum();
    assert_eq!(sum, total);
}

#[test]
fn sum_of_counts_equals_total() {
    let doc = parse(
        "{\"canisters\": {
          \"a\": {\"type\": \"motoko\"},
          \"b\": {\"type\": \"custom\"},
          \"c\": {\"type\": \"motoko\"},
          \"d\": {\"type\": \"pull\"},
          \"e\": {\"type\": 7},
          \"f\": {}
        }}",
    );
    let (total, tally) = analyze_canisters(&doc).expect("canisters object is present");
    assert_eq!(total, 6);
    let sum: usize = tally.iter().map(|(_, c)| *c).sum();
    assert_eq!(sum, total);
    assert!(tally.len() <= total);
}

#[test]
fn empty_canisters_object() {
    let doc = parse("{\"canisters\": {}}");
    let (total, tally) = analyze_canisters(&doc).expect("an empty object is not an error");
    assert_eq!(total, 0);
    assert!(tally.is_empty());
}

#[test]
fn missing_canisters_field() {
    let doc = parse("{\"defaults\": {}}");
    assert_eq!(analyze_canisters(&doc), Err(ManifestError::MissingField));
    assert_eq!(entry_labels(&doc), Err(ManifestError::MissingField));
    assert!(canisters_of(&doc).is_err());
}

#[test]
fn canisters_not_an_object() {
    let as_array = parse("{\"canisters\": [\"a\", \"b\"]}");
    assert_eq!(analyze_canisters(&as_array), Err(ManifestError::MissingField));
    let as_scalar = parse("{\"canisters\": 3}");
    assert_eq!(analyze_canisters(&as_scalar), Err(ManifestError::MissingField));
    let as_null = parse("{\"canisters\": null}");
    assert_eq!(analyze_canisters(&as_null), Err(ManifestError::MissingField));
}

#[test]
fn top_level_not_an_object() {
    let doc = parse("[1, 2, 3]");
    assert_eq!(analyze_canisters(&doc), Err(ManifestError::MissingField));
}

#[test]
fn malformed_json_is_a_parse_error() {
    assert_eq!(parse_manifest("{\"canisters\": "), Err(ManifestError::Parse));
    assert_eq!(parse_manifest(""), Err(ManifestError::Parse));
    assert_eq!(parse_manifest("{canisters: {}}"), Err(ManifestError::Parse));
}

#[test]
fn parse_builds_the_expected_document() {
    let doc = parse("{\"a\": [1, true, null, \"x\"], \"b\": {}}");
    let expected = Json::Object(vec![
        (
            "a".to_string(),
            Json::Array(vec![Json::Number, Json::Bool(true), Json::Null, Json::Str("x".to_string())]),
        ),
        ("b".to_string(), Json::Object(vec![])),
    ]);
    assert_eq!(doc, expected);
}

#[test]
fn entry_labels_reports_names_and_labels() {
    let doc = parse(
        "{\"canisters\": {
          \"web\": {\"type\": \"custom\"},
          \"api\": {},
          \"ledger\": {\"type\": \"pull\"}
        }}",
    );
    let pairs = entry_labels(&doc).expect("canisters object is present");
    // serde_json's map keeps its members sorted by key
    assert_eq!(
        pairs,
        vec![
            ("api".to_string(), "unknown".to_string()),
            ("ledger".to_string(), "pull".to_string()),
            ("web".to_string(), "custom".to_string()),
        ]
    );
}

#[test]
fn type_label_of_single_definitions() {
    let def = parse("{\"type\": \"motoko\"}");
    assert_eq!(canister_type_label(&def), "motoko");
    assert_eq!(canister_type_label(&Json::Null), "unknown");
    assert_eq!(canister_type_label(&Json::Object(vec![])), "unknown");
}

#[test]
fn duplicate_manifest_keys_collapse() {
    // serde_json keeps the last of two members with the same key
    let doc = parse("{\"canisters\": {\"a\": {\"type\": \"rust\"}, \"a\": {\"type\": \"motoko\"}}}");
    let (total, tally) = analyze_canisters(&doc).expect("canisters object is present");
    assert_eq!(total, 1);
    assert_eq!(tally, vec![("motoko".to_string(), 1)]);
}
