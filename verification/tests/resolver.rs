use punlock::json::JsonValue;
use punlock::resolver::{resolve, ResolveError};

fn sample_doc() -> JsonValue {
    JsonValue::Object(vec![(
        "a".to_string(),
        JsonValue::Object(vec![("b".to_string(), JsonValue::Str("value".to_string()))]),
    )])
}

#[test]
fn resolves_dotted_field_access() {
    let doc = sample_doc();
    assert_eq!(resolve(&doc, "a.b").unwrap(), "value".to_string());
}

#[test]
fn missing_field_fails_extraction() {
    let doc = sample_doc();
    assert_eq!(resolve(&doc, "a.c").unwrap_err(), ResolveError::Extraction);
}

#[test]
fn non_scalar_node_fails_extraction() {
    let doc = sample_doc();
    assert_eq!(resolve(&doc, "a").unwrap_err(), ResolveError::Extraction);
}

#[test]
fn numbers_booleans_null_and_arrays_fail_extraction() {
    let doc = JsonValue::Object(vec![
        ("n".to_string(), JsonValue::Number("42".to_string())),
        ("b".to_string(), JsonValue::Bool(true)),
        ("z".to_string(), JsonValue::Null),
        ("a".to_string(), JsonValue::Array(vec![JsonValue::Str("x".to_string())])),
    ]);
    assert_eq!(resolve(&doc, "n").unwrap_err(), ResolveError::Extraction);
    assert_eq!(resolve(&doc, "b").unwrap_err(), ResolveError::Extraction);
    assert_eq!(resolve(&doc, "z").unwrap_err(), ResolveError::Extraction);
    assert_eq!(resolve(&doc, "a").unwrap_err(), ResolveError::Extraction);
}

#[test]
fn bracket_indexing_navigates_arrays() {
    let doc = JsonValue::Object(vec![(
        "fields".to_string(),
        JsonValue::Array(vec![
            JsonValue::Object(vec![("value".to_string(), JsonValue::Str("first".to_string()))]),
            JsonValue::Object(vec![("value".to_string(), JsonValue::Str("second".to_string()))]),
        ]),
    )]);
    assert_eq!(resolve(&doc, "fields[0].value").unwrap(), "first".to_string());
    assert_eq!(resolve(&doc, "fields[1].value").unwrap(), "second".to_string());
    assert_eq!(resolve(&doc, "fields[2].value").unwrap_err(), ResolveError::Extraction);
}

#[test]
fn index_on_non_array_fails_extraction() {
    let doc = sample_doc();
    assert_eq!(resolve(&doc, "a[0]").unwrap_err(), ResolveError::Extraction);
}

#[test]
fn ill_formed_queries_fail_compilation() {
    let doc = sample_doc();
    for q in ["", "a..b", "a.", ".a", "a[", "a[]", "a[x]", "[0]", "a[0", "a b", "a[0]b"] {
        assert_eq!(resolve(&doc, q).unwrap_err(), ResolveError::Query, "query {:?}", q);
    }
}

#[test]
fn duplicate_keys_resolve_to_last_binding() {
    let doc = JsonValue::Object(vec![
        ("k".to_string(), JsonValue::Str("old".to_string())),
        ("k".to_string(), JsonValue::Str("new".to_string())),
    ]);
    assert_eq!(resolve(&doc, "k").unwrap(), "new".to_string());
}

#[test]
fn identifier_grammar_accepts_underscores_and_digits() {
    let doc = JsonValue::Object(vec![(
        "field_2".to_string(),
        JsonValue::Str("ok".to_string()),
    )]);
    assert_eq!(resolve(&doc, "field_2").unwrap(), "ok".to_string());
}
