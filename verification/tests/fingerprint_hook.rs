use fold_ingestion::fingerprint_hook::collect_string_fields;
use fold_ingestion::json::Json;

fn s(t: &str) -> Json {
    Json::Str(t.to_string())
}

fn num(t: &str) -> Json {
    Json::Number(t.to_string())
}

fn obj(members: Vec<(&str, Json)>) -> Json {
    Json::Object(members.into_iter().map(|(k, v)| (k.to_string(), v)).collect())
}

fn fields_with(values: Vec<(&str, Json)>) -> Vec<(String, Json)> {
    values.into_iter().map(|(k, v)| (k.to_string(), v)).collect()
}

#[test]
fn collect_string_fields_concatenates_top_level_strings() {
    let fields = fields_with(vec![
        ("name", s("Margaret Johnson")),
        ("email", s("margaret@example.com")),
        ("age", num("62")), // non-string ignored
    ]);
    let text = collect_string_fields(&fields);
    assert!(text.contains("Margaret Johnson"));
    assert!(text.contains("margaret@example.com"));
    assert!(!text.contains("62"));
}

#[test]
fn collect_string_fields_walks_nested_objects() {
    let fields = fields_with(vec![
        ("address", obj(vec![("city", s("Springfield")), ("street", s("42 Oak Street"))])),
        ("contact", obj(vec![("primary", s("tom@acme.com"))])),
    ]);
    let text = collect_string_fields(&fields);
    assert!(text.contains("42 Oak Street"));
    assert!(text.contains("Springfield"));
    assert!(text.contains("tom@acme.com"));
}

#[test]
fn collect_string_fields_walks_arrays_of_objects() {
    let fields = fields_with(vec![(
        "attendees",
        Json::Array(vec![
            obj(vec![("email", s("alice@example.com")), ("name", s("Alice"))]),
            obj(vec![("email", s("bob@example.com")), ("name", s("Bob"))]),
        ]),
    )]);
    let text = collect_string_fields(&fields);
    assert!(text.contains("alice@example.com"));
    assert!(text.contains("bob@example.com"));
}

#[test]
fn collect_string_fields_returns_empty_for_no_strings() {
    let fields = fields_with(vec![("count", num("7")), ("active", Json::Bool(true)), ("ratio", num("0.5"))]);
    let text = collect_string_fields(&fields);
    assert!(text.trim().is_empty());
}

#[test]
fn collect_string_fields_skips_nulls() {
    let fields = fields_with(vec![("name", s("Tom")), ("optional", Json::Null)]);
    let text = collect_string_fields(&fields);
    assert!(text.contains("Tom"));
}

#[test]
fn collected_text_puts_each_leaf_on_its_own_line_in_order() {
    let fields = fields_with(vec![
        ("a", s("one")),
        ("b", Json::Array(vec![s("two"), obj(vec![("c", s("three"))])])),
    ]);
    assert_eq!(collect_string_fields(&fields), "one\ntwo\nthree");
    // an empty first leaf leaves the text empty, so no line break follows it
    let fields = fields_with(vec![("a", s("")), ("b", s("x"))]);
    assert_eq!(collect_string_fields(&fields), "x");
}
