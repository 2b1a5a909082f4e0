use fold_ingestion::ai_schema::{
    backfill_missing_mappers, descriptive_name_to_check, extract_content_hint, flatten_value_to_string,
    sanitize_string_map_fields, truncate_long_strings, validate_and_convert_response,
    validate_schema_has_classifications, validate_schema_has_descriptive_name, AISchemaResponse,
};
use fold_ingestion::error::IngestionError;
use fold_ingestion::json::{copy_json, Json};

// Objects are written with their keys in the order a `serde_json` map walks
// them (sorted), as the library receives them.

fn s(t: &str) -> Json {
    Json::Str(t.to_string())
}

fn num(t: &str) -> Json {
    Json::Number(t.to_string())
}

fn arr(items: Vec<Json>) -> Json {
    Json::Array(items)
}

fn obj(members: Vec<(&str, Json)>) -> Json {
    Json::Object(members.into_iter().map(|(k, v)| (k.to_string(), v)).collect())
}

fn strs(items: &[&str]) -> Json {
    arr(items.iter().map(|t| s(t)).collect())
}

fn field<'a>(j: &'a Json, key: &str) -> &'a Json {
    match j {
        Json::Object(ms) => &ms.iter().find(|(k, _)| k == key).expect("member").1,
        _ => panic!("not an object: {:?}", j),
    }
}

fn text(j: &Json) -> &str {
    match j {
        Json::Str(t) => t.as_str(),
        _ => panic!("not a string: {:?}", j),
    }
}

fn mappers(pairs: &[(&str, &str)]) -> Vec<(String, String)> {
    pairs.iter().map(|(a, b)| (a.to_string(), b.to_string())).collect()
}

fn mapper<'a>(m: &'a [(String, String)], key: &str) -> Option<&'a str> {
    m.iter().find(|(k, _)| k == key).map(|(_, v)| v.as_str())
}

/// The reply checked with the verdict that its schema's name is specific.
fn validate(reply: Json) -> Result<AISchemaResponse, IngestionError> {
    validate_and_convert_response(reply, false)
}

// ---- truncate_long_strings ----

#[test]
fn test_truncate_long_strings_leaves_short_values() {
    let input = obj(vec![("age", num("30")), ("name", s("Alice"))]);
    let result = truncate_long_strings(&input);
    assert_eq!(result, input);
}

#[test]
fn test_truncate_long_strings_truncates_long_value() {
    let long = "x".repeat(500);
    let input = obj(vec![("markdown", s(&long)), ("source", s("test.pdf"))]);
    let result = truncate_long_strings(&input);
    let md = text(field(&result, "markdown"));
    assert!(md.len() <= 300 + 3); // +3 for "..."
    assert!(md.ends_with("..."));
    assert_eq!(text(field(&result, "source")), "test.pdf");
}

#[test]
fn test_truncate_long_strings_recurses_into_arrays() {
    let long = "y".repeat(500);
    let input = arr(vec![obj(vec![("content", s(&long))])]);
    let result = truncate_long_strings(&input);
    let first = match &result {
        Json::Array(items) => &items[0],
        _ => panic!("expected an array"),
    };
    let content = text(field(first, "content"));
    assert!(content.len() <= 300 + 3);
    assert!(content.ends_with("..."));
}

#[test]
fn test_truncate_long_strings_preserves_non_strings() {
    let input = obj(vec![("active", Json::Bool(true)), ("count", num("42")), ("data", Json::Null)]);
    let result = truncate_long_strings(&input);
    assert_eq!(result, input);
}

#[test]
fn truncation_counts_characters() {
    // 200 two-byte characters: 400 bytes but only 200 characters, so kept
    let wide = "é".repeat(200);
    assert_eq!(truncate_long_strings(&s(&wide)), s(&wide));
    let wide_over = "é".repeat(301);
    assert_eq!(truncate_long_strings(&s(&wide_over)), s(&format!("{}...", "é".repeat(300))));
    let exact = "z".repeat(300);
    assert_eq!(truncate_long_strings(&s(&exact)), s(&exact));
    let over = "z".repeat(301);
    assert_eq!(truncate_long_strings(&s(&over)), s(&format!("{}...", "z".repeat(300))));
}

// ---- backfill_missing_mappers ----

#[test]
fn test_backfill_adds_missing_array_field_mappers() {
    let m = mappers(&[("name", "vacation_prefs.name")]);
    let schema = Some(obj(vec![
        ("fields", strs(&["name", "must_see", "avoid", "interests"])),
        ("name", s("vacation_prefs")),
    ]));

    let result = backfill_missing_mappers(m, &schema);
    assert_eq!(result.len(), 4);
    assert_eq!(mapper(&result, "name").unwrap(), "vacation_prefs.name");
    assert_eq!(mapper(&result, "must_see").unwrap(), "vacation_prefs.must_see");
    assert_eq!(mapper(&result, "avoid").unwrap(), "vacation_prefs.avoid");
    assert_eq!(mapper(&result, "interests").unwrap(), "vacation_prefs.interests");
}

#[test]
fn test_backfill_no_op_when_all_mapped() {
    let m = mappers(&[("name", "s.name"), ("age", "s.age")]);
    let schema = Some(obj(vec![("fields", strs(&["name", "age"])), ("name", s("s"))]));
    let result = backfill_missing_mappers(m, &schema);
    assert_eq!(result.len(), 2);
}

#[test]
fn test_backfill_no_op_when_no_schema() {
    let result = backfill_missing_mappers(Vec::new(), &None);
    assert!(result.is_empty());
}

#[test]
fn test_backfill_respects_existing_target_mapping() {
    // AI mapped "creator" -> "schema.artist" — "artist" is already covered
    let m = mappers(&[("creator", "schema.artist")]);
    let schema = Some(obj(vec![("fields", strs(&["artist", "title"])), ("name", s("schema"))]));
    let result = backfill_missing_mappers(m, &schema);
    // "artist" is already a target, so only "title" should be added
    assert_eq!(result.len(), 2);
    assert_eq!(mapper(&result, "creator").unwrap(), "schema.artist");
    assert!(mapper(&result, "title").is_some());
}

#[test]
fn backfill_without_schema_name_maps_fields_to_themselves() {
    let schema = Some(obj(vec![("fields", arr(vec![s("a"), num("1"), s("a"), s("b")]))]));
    let result = backfill_missing_mappers(Vec::new(), &schema);
    assert_eq!(result, mappers(&[("a", "a"), ("b", "b")]));
}

#[test]
fn test_backfill_end_to_end_with_validate() {
    // Simulates AI response that declares array fields but omits them from mappers
    let ai_json = obj(vec![
        (
            "mutation_mappers",
            obj(vec![
                ("destination", s("travel_preferences.destination")),
                ("traveler", s("travel_preferences.traveler")),
            ]),
        ),
        (
            "new_schemas",
            obj(vec![
                ("descriptive_name", s("Travel Preferences")),
                (
                    "field_descriptions",
                    obj(vec![
                        ("destination", s("Travel destination")),
                        ("dietary_restrictions", s("Dietary restrictions")),
                        ("must_see", s("Must-see attractions")),
                        ("traveler", s("Name of the traveler")),
                    ]),
                ),
                ("fields", strs(&["traveler", "destination", "must_see", "dietary_restrictions"])),
                ("key", obj(vec![("hash_field", s("traveler")), ("range_field", s("destination"))])),
                ("name", s("travel_preferences")),
                ("schema_type", s("HashRange")),
            ]),
        ),
    ]);

    let result = validate(ai_json).unwrap();
    // All 4 fields should have mappers now
    assert_eq!(result.mutation_mappers.len(), 4);
    assert!(mapper(&result.mutation_mappers, "must_see").is_some());
    assert!(mapper(&result.mutation_mappers, "dietary_restrictions").is_some());
}

// ---- sanitize_string_map_fields ----

#[test]
fn test_sanitize_flattens_nested_objects_in_field_descriptions() {
    let schema = obj(vec![
        (
            "field_descriptions",
            obj(vec![
                ("amount", obj(vec![("description", s("the dollar amount")), ("type", s("number"))])),
                ("date", obj(vec![("description", s("the transaction date"))])),
                ("memo", s("a plain string already")),
            ]),
        ),
        ("name", s("bank_statement")),
    ]);

    let result = sanitize_string_map_fields(schema);
    let descs = field(&result, "field_descriptions");
    assert_eq!(text(field(descs, "date")), "the transaction date");
    assert_eq!(text(field(descs, "amount")), "the dollar amount");
    assert_eq!(text(field(descs, "memo")), "a plain string already");
}

#[test]
fn test_sanitize_leaves_valid_strings_unchanged() {
    let schema = obj(vec![
        (
            "field_descriptions",
            obj(vec![("servings", s("number of servings")), ("title", s("the recipe title"))]),
        ),
        ("name", s("recipes")),
    ]);
    let copy = obj(vec![
        (
            "field_descriptions",
            obj(vec![("servings", s("number of servings")), ("title", s("the recipe title"))]),
        ),
        ("name", s("recipes")),
    ]);
    let result = sanitize_string_map_fields(schema);
    assert_eq!(result, copy);
}

#[test]
fn test_sanitize_handles_missing_field_descriptions() {
    let result = sanitize_string_map_fields(obj(vec![("name", s("test"))]));
    assert_eq!(result, obj(vec![("name", s("test"))]));
}

#[test]
fn test_sanitize_handles_array_values() {
    let schema = obj(vec![
        ("field_descriptions", obj(vec![("tags", strs(&["topic", "category"]))])),
        ("name", s("test")),
    ]);
    let result = sanitize_string_map_fields(schema);
    assert_eq!(text(field(field(&result, "field_descriptions"), "tags")), "topic, category");
}

#[test]
fn test_sanitize_handles_number_values() {
    let schema = obj(vec![("field_descriptions", obj(vec![("count", num("42"))])), ("name", s("test"))]);
    let result = sanitize_string_map_fields(schema);
    assert_eq!(text(field(field(&result, "field_descriptions"), "count")), "42");
}

#[test]
fn test_sanitize_end_to_end_with_validate() {
    // Simulates Ollama returning nested objects in field_descriptions
    let ai_json = obj(vec![
        (
            "mutation_mappers",
            obj(vec![
                ("amount", s("bank_transactions.amount")),
                ("date", s("bank_transactions.date")),
                ("description", s("bank_transactions.description")),
                ("id", s("bank_transactions.id")),
            ]),
        ),
        (
            "new_schemas",
            obj(vec![
                ("descriptive_name", s("Bank Transactions")),
                (
                    "field_descriptions",
                    obj(vec![
                        ("amount", s("transaction amount in dollars")),
                        (
                            "date",
                            obj(vec![
                                ("description", s("date of the transaction")),
                                ("format", s("ISO 8601")),
                            ]),
                        ),
                        (
                            "description",
                            obj(vec![("description", s("merchant or transaction description"))]),
                        ),
                        ("id", obj(vec![("description", s("unique transaction identifier"))])),
                    ]),
                ),
                ("fields", strs(&["id", "date", "amount", "description"])),
                ("key", obj(vec![("hash_field", s("id")), ("range_field", s("date"))])),
                ("name", s("bank_transactions")),
            ]),
        ),
    ]);

    let result = validate(ai_json).unwrap();
    let schema = result.new_schemas.unwrap();
    let descs = field(&schema, "field_descriptions");
    match descs {
        Json::Object(ms) => {
            for (key, val) in ms {
                assert!(matches!(val, Json::Str(_)), "field_descriptions['{}'] should be a string, got: {:?}", key, val);
            }
        }
        _ => panic!("expected an object"),
    }
    assert_eq!(text(field(descs, "id")), "unique transaction identifier");
    assert_eq!(text(field(descs, "amount")), "transaction amount in dollars");
}

#[test]
fn test_single_element_array_unwrapped() {
    let ai_json = obj(vec![
        ("mutation_mappers", obj(vec![("amount", s("expenses.amount"))])),
        (
            "new_schemas",
            arr(vec![obj(vec![
                ("descriptive_name", s("Monthly Expenses")),
                ("field_descriptions", obj(vec![("amount", s("dollar amount"))])),
                ("fields", strs(&["amount"])),
                ("name", s("expenses")),
            ])]),
        ),
    ]);

    let result = validate(ai_json).unwrap();
    let schema = result.new_schemas.unwrap();
    // Should be unwrapped from array to object
    assert!(matches!(schema, Json::Object(_)), "expected object, got: {:?}", schema);
    assert_eq!(text(field(&schema, "name")), "expenses");
}

#[test]
fn test_multi_element_array_rejected() {
    let ai_json = obj(vec![
        ("mutation_mappers", obj(vec![])),
        (
            "new_schemas",
            arr(vec![
                obj(vec![("descriptive_name", s("S1")), ("fields", strs(&["a"])), ("name", s("s1"))]),
                obj(vec![("descriptive_name", s("S2")), ("fields", strs(&["b"])), ("name", s("s2"))]),
            ]),
        ),
    ]);

    let result = validate(ai_json);
    assert!(result.is_err());
    let err = result.unwrap_err().message();
    assert!(err.contains("2 schemas"), "got: {}", err);
}

#[test]
fn test_sanitize_flattens_top_level_name() {
    let schema = obj(vec![
        ("descriptive_name", obj(vec![("text", s("Bank Statement"))])),
        ("name", obj(vec![("value", s("bank_statement"))])),
    ]);
    let result = sanitize_string_map_fields(schema);
    assert_eq!(text(field(&result, "name")), "bank_statement");
    assert_eq!(text(field(&result, "descriptive_name")), "Bank Statement");
}

#[test]
fn test_sanitize_flattens_key_fields() {
    let schema = obj(vec![
        (
            "key",
            obj(vec![
                ("hash_field", obj(vec![("name", s("category")), ("type", s("string"))])),
                ("range_field", obj(vec![("name", s("date")), ("type", s("date"))])),
            ]),
        ),
        ("name", s("test")),
    ]);
    let result = sanitize_string_map_fields(schema);
    let key = field(&result, "key");
    assert_eq!(text(field(key, "hash_field")), "category");
    assert_eq!(text(field(key, "range_field")), "date");
}

#[test]
fn test_sanitize_leaves_valid_key_fields_unchanged() {
    let make = || {
        obj(vec![
            ("key", obj(vec![("hash_field", s("id")), ("range_field", s("date"))])),
            ("name", s("test")),
        ])
    };
    let result = sanitize_string_map_fields(make());
    assert_eq!(result, make());
}

// ---- validate_and_convert_response ----

fn plain_reply() -> Json {
    obj(vec![
        (
            "mutation_mappers",
            obj(vec![("field1", s("schema.field1")), ("nested.field", s("schema.nested_field"))]),
        ),
        ("new_schemas", Json::Null),
    ])
}

#[test]
fn helpers_test_validate_and_convert_response() {
    let result = validate(plain_reply());
    assert!(result.is_ok());
    let response = result.unwrap();
    assert_eq!(response.mutation_mappers.len(), 2);
}

#[test]
fn ai_helpers_test_validate_and_convert_response() {
    let result = validate(plain_reply());
    assert!(result.is_ok());
    let response = result.unwrap();
    assert_eq!(response.mutation_mappers.len(), 2);
}

fn validation_message(r: Result<AISchemaResponse, IngestionError>) -> String {
    match r {
        Err(IngestionError::AIResponseValidationError(m)) => m,
        other => panic!("expected a validation error, got {:?}", other),
    }
}

#[test]
fn validation_errors_name_the_first_failed_check() {
    assert_eq!(validation_message(validate(arr(vec![]))), "Response must be a JSON object");
    assert_eq!(
        validation_message(validate(obj(vec![("new_schemas", s("x\"y"))]))),
        "new_schemas must be an object or array, got: \"x\\\"y\""
    );
    assert_eq!(
        validation_message(validate(obj(vec![("new_schemas", num("7"))]))),
        "new_schemas must be an object or array, got: 7"
    );
    assert_eq!(
        validation_message(validate(obj(vec![("new_schemas", obj(vec![("name", s("a"))]))]))),
        "Schema must have a non-empty 'descriptive_name'. ALWAYS include \"descriptive_name\": a clear, human-readable description."
    );
    let generic = obj(vec![("new_schemas", obj(vec![("descriptive_name", s("  Documents "))]))]);
    assert_eq!(descriptive_name_to_check(&generic), Some("Documents".to_string()));
    assert!(validation_message(validate_and_convert_response(generic, true))
        .starts_with("Schema descriptive_name is too generic"));
    assert_eq!(
        validation_message(validate(obj(vec![("mutation_mappers", strs(&["a"]))]))),
        "mutation_mappers must be an object with string values"
    );
}

#[test]
fn mappers_keep_string_members_only() {
    let reply = obj(vec![("mutation_mappers", obj(vec![("a", s("s.a")), ("b", num("1")), ("c", Json::Null)]))]);
    let r = validate(reply).unwrap();
    assert!(r.new_schemas.is_none());
    assert_eq!(r.mutation_mappers, mappers(&[("a", "s.a")]));
}

#[test]
fn flatten_gives_the_string_a_value_holds() {
    assert_eq!(flatten_value_to_string(&s("a")), Some("a".to_string()));
    assert_eq!(flatten_value_to_string(&obj(vec![("n", num("1")), ("t", s("x"))])), Some("x".to_string()));
    assert_eq!(flatten_value_to_string(&arr(vec![num("1"), s("a"), s("b")])), Some("a, b".to_string()));
    assert_eq!(flatten_value_to_string(&arr(vec![num("1")])), None);
    assert_eq!(flatten_value_to_string(&Json::Bool(false)), Some("false".to_string()));
    assert_eq!(flatten_value_to_string(&Json::Null), None);
}

#[test]
fn schema_checks_need_an_object() {
    assert!(validate_schema_has_classifications(&obj(vec![])).is_ok());
    assert!(validate_schema_has_classifications(&s("x")).is_err());
    assert!(validate_schema_has_descriptive_name(&obj(vec![("descriptive_name", s("Trips"))]), false).is_ok());
    assert!(validate_schema_has_descriptive_name(&obj(vec![("descriptive_name", s("   "))]), false).is_err());
    assert!(validate_schema_has_descriptive_name(&s("x"), false).is_err());
}

#[test]
fn content_hint_previews_text_file_wrappers() {
    let wrapper = obj(vec![
        ("category", s("recipes")),
        ("content", s("Mix flour and water.")),
        ("file_type", s("txt")),
        ("source_file", s("recipes/bread.txt")),
    ]);
    assert_eq!(
        extract_content_hint(&wrapper).unwrap(),
        "\n\nCONTENT PREVIEW (use this to determine the schema name topic):\n\"Mix flour and water.\"\nCategory hint: \"recipes\"\nSource file: \"recipes/bread.txt\"\n\nName the schema based on the CONTENT TOPIC above (e.g., \"recipes\", \"journal_entries\", \"medical_records\"), NOT based on the data format."
    );
    // the first object of an array, markdown in place of content, long text cut
    let long = "é".repeat(501);
    let md = arr(vec![obj(vec![("file_type", s("pdf")), ("markdown", s(&long)), ("source", s("a.pdf"))])]);
    let hint = extract_content_hint(&md).unwrap();
    assert!(hint.contains(&format!("\"{}...\"", "é".repeat(500))));
    assert!(hint.contains("\nSource file: \"a.pdf\""));
    assert!(!hint.contains("Category hint"));
    // no file_type, a non-string content, or other data: no hint
    assert!(extract_content_hint(&obj(vec![("content", s("x"))])).is_none());
    assert!(extract_content_hint(&obj(vec![("content", num("1")), ("file_type", s("t")), ("markdown", s("m"))])).is_none());
    assert!(extract_content_hint(&arr(vec![])).is_none());
    assert!(extract_content_hint(&s("x")).is_none());
}

#[test]
fn sanitizing_twice_is_sanitizing_once() {
    let schema = obj(vec![
        ("name", arr(vec![s("a"), s("b")])),
        ("field_descriptions", obj(vec![("x", obj(vec![("k", num("1")), ("t", s("text"))])), ("y", num("2"))])),
        ("key", obj(vec![("hash_field", arr(vec![s("h")])), ("other", num("3"))])),
        ("fields", arr(vec![s("x")])),
    ]);
    let once = sanitize_string_map_fields(schema);
    let twice = sanitize_string_map_fields(copy_json(&once));
    assert_eq!(twice, once);
    assert_eq!(
        once,
        obj(vec![
            ("name", s("a, b")),
            ("field_descriptions", obj(vec![("x", s("text")), ("y", s("2"))])),
            ("key", obj(vec![("hash_field", s("h")), ("other", num("3"))])),
            ("fields", arr(vec![s("x")])),
        ])
    );
}
