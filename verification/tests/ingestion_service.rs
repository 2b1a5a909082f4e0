use fold_ingestion::ai_schema::AISchemaResponse;
use fold_ingestion::ingestion_service::{
    apply_image_schema_override, check_has_nested_children, enrich_with_source_context, extract_lookup_entry,
    field_description_sample, inject_content_hash, inject_content_hashes, merge_field_descriptions,
    missing_field_descriptions, validate_input, SchemaLookupEntry,
};
use fold_ingestion::json::{copy_json, to_json_text, Json};
use sha2::{Digest, Sha256};

fn s(t: &str) -> Json {
    Json::Str(t.to_string())
}

fn strs(items: &[&str]) -> Json {
    Json::Array(items.iter().map(|t| s(t)).collect())
}

fn obj(members: Vec<(&str, Json)>) -> Json {
    Json::Object(members.into_iter().map(|(k, v)| (k.to_string(), v)).collect())
}

fn get<'a>(j: &'a Json, key: &str) -> &'a Json {
    match j {
        Json::Object(ms) => &ms.iter().find(|(k, _)| k == key).expect("member").1,
        _ => panic!("not an object"),
    }
}

fn mapped(m: &[(String, String)], key: &str) -> bool {
    m.iter().any(|(k, _)| k == key)
}

#[test]
fn test_apply_image_schema_override_includes_visibility() {
    let mut response = AISchemaResponse {
        new_schemas: Some(obj(vec![
            ("field_classifications", obj(vec![("image_type", strs(&["word"])), ("markdown", strs(&["word"]))])),
            ("field_descriptions", obj(vec![("image_type", s("type")), ("markdown", s("description"))])),
            ("fields", strs(&["markdown", "image_type"])),
            ("name", s("social_photos")),
        ])),
        mutation_mappers: Vec::new(),
    };
    apply_image_schema_override(&mut response, Some("Photos"));

    let schema = response.new_schemas.unwrap();
    let fields = match get(&schema, "fields") {
        Json::Array(items) => items.clone(),
        _ => panic!("fields must be an array"),
    };
    assert!(fields.contains(&s("visibility")), "visibility must be in fields");
    assert!(fields.contains(&s("source_file_name")), "source_file_name must be in fields");
    assert!(
        matches!(get(get(&schema, "field_classifications"), "visibility"), Json::Array(_)),
        "visibility must have field_classifications"
    );
    assert!(
        matches!(get(get(&schema, "field_descriptions"), "visibility"), Json::Str(_)),
        "visibility must have field_descriptions"
    );
    assert!(mapped(&response.mutation_mappers, "visibility"), "visibility must be in mutation_mappers");
    assert!(
        mapped(&response.mutation_mappers, "source_file_name"),
        "source_file_name must be in mutation_mappers"
    );
}

#[test]
fn image_override_keys_on_the_file_name() {
    let mut response = AISchemaResponse {
        new_schemas: Some(obj(vec![
            ("field_classifications", obj(vec![("caption", strs(&["word"]))])),
            ("key", obj(vec![("range_field", s("date"))])),
            ("schema_type", s("Range")),
        ])),
        mutation_mappers: vec![("visibility".to_string(), "s.vis".to_string())],
    };
    apply_image_schema_override(&mut response, None);
    let schema = response.new_schemas.unwrap();
    assert_eq!(
        schema,
        obj(vec![
            (
                "field_classifications",
                obj(vec![
                    ("caption", strs(&["word"])),
                    ("source_file_name", strs(&["word"])),
                    ("visibility", strs(&["word"])),
                ]),
            ),
            ("key", obj(vec![("hash_field", s("source_file_name"))])),
            ("schema_type", s("Hash")),
            ("fields", strs(&["caption", "source_file_name", "visibility"])),
        ])
    );
    assert_eq!(
        response.mutation_mappers,
        vec![
            ("visibility".to_string(), "s.vis".to_string()),
            ("source_file_name".to_string(), "source_file_name".to_string()),
        ]
    );
}

#[test]
fn image_override_without_schema_only_adds_mappers() {
    let mut response = AISchemaResponse { new_schemas: None, mutation_mappers: Vec::new() };
    apply_image_schema_override(&mut response, Some("x"));
    assert!(response.new_schemas.is_none());
    assert_eq!(response.mutation_mappers.len(), 2);
}

#[test]
fn nested_children_are_found_in_the_representative_record() {
    let posts = Json::Array(vec![obj(vec![("t", s("a"))])]);
    assert!(check_has_nested_children(&obj(vec![("posts", Json::Array(vec![obj(vec![("t", s("a"))])]))])));
    assert!(check_has_nested_children(&Json::Array(vec![obj(vec![("posts", posts)]), obj(vec![])])));
    assert!(!check_has_nested_children(&Json::Array(vec![obj(vec![]), obj(vec![("p", Json::Array(vec![obj(vec![])]))])])));
    assert!(!check_has_nested_children(&Json::Array(vec![])));
    assert!(!check_has_nested_children(&obj(vec![("tags", strs(&["a"]))])));
    assert!(!check_has_nested_children(&s("x")));
}

#[test]
fn source_context_sets_the_full_path_and_category() {
    let mut data = obj(vec![
        ("content", s("text")),
        ("file_type", s("txt")),
        ("source_file", s("cookies.txt")),
    ]);
    enrich_with_source_context(&mut data, Some("recipes/cookies.txt"));
    assert_eq!(
        data,
        obj(vec![
            ("content", s("text")),
            ("file_type", s("txt")),
            ("source_file", s("recipes/cookies.txt")),
            ("category", s("recipes")),
        ])
    );
    // an existing category is kept; objects without file_type are left alone
    let mut list = Json::Array(vec![
        obj(vec![("category", s("mine")), ("file_type", s("rs")), ("source_file", s("a.rs"))]),
        obj(vec![("content", s("x"))]),
        s("plain"),
    ]);
    enrich_with_source_context(&mut list, Some("src/a.rs"));
    assert_eq!(
        list,
        Json::Array(vec![
            obj(vec![("category", s("mine")), ("file_type", s("rs")), ("source_file", s("src/a.rs"))]),
            obj(vec![("content", s("x"))]),
            s("plain"),
        ])
    );
    // no path, or an empty one: unchanged
    let mut same = obj(vec![("content", s("x")), ("file_type", s("txt"))]);
    enrich_with_source_context(&mut same, Some(""));
    enrich_with_source_context(&mut same, None);
    assert_eq!(same, obj(vec![("content", s("x")), ("file_type", s("txt"))]));
}

#[test]
fn lookup_entry_uses_fields_or_classification_names() {
    let with_fields = AISchemaResponse {
        new_schemas: Some(obj(vec![("descriptive_name", s("Trips")), ("fields", strs(&["a", "b"]))])),
        mutation_mappers: Vec::new(),
    };
    assert_eq!(
        extract_lookup_entry(&with_fields),
        Some(SchemaLookupEntry { descriptive_name: "Trips".to_string(), fields: vec!["a".to_string(), "b".to_string()] })
    );
    let with_classes = AISchemaResponse {
        new_schemas: Some(obj(vec![
            ("descriptive_name", s("Trips")),
            ("field_classifications", obj(vec![("x", strs(&["word"]))])),
        ])),
        mutation_mappers: Vec::new(),
    };
    assert_eq!(extract_lookup_entry(&with_classes).unwrap().fields, vec!["x".to_string()]);
    let unnamed = AISchemaResponse { new_schemas: Some(obj(vec![("fields", strs(&["a"]))])), mutation_mappers: Vec::new() };
    assert!(extract_lookup_entry(&unnamed).is_none());
    let bare = AISchemaResponse { new_schemas: Some(obj(vec![("descriptive_name", s("T"))])), mutation_mappers: Vec::new() };
    assert!(extract_lookup_entry(&bare).is_none());
}

#[test]
fn missing_descriptions_are_the_undescribed_fields_in_order() {
    let schema = obj(vec![
        ("fields", strs(&["title", "body", "date"])),
        ("field_descriptions", obj(vec![("body", s("The text"))])),
    ]);
    assert_eq!(missing_field_descriptions(&schema), vec!["title".to_string(), "date".to_string()]);

    let bare = obj(vec![("fields", strs(&["a", "b"]))]);
    assert_eq!(missing_field_descriptions(&bare), vec!["a".to_string(), "b".to_string()]);

    let none = obj(vec![("name", s("x"))]);
    assert!(missing_field_descriptions(&none).is_empty());
    assert!(missing_field_descriptions(&s("not an object")).is_empty());
}

#[test]
fn description_sample_keeps_two_items() {
    let data = Json::Array(vec![s("a"), s("b"), s("c")]);
    assert_eq!(field_description_sample(&data), Json::Array(vec![s("a"), s("b")]));
    let one = obj(vec![("k", s("v"))]);
    assert_eq!(field_description_sample(&one), one);
}

#[test]
fn merged_descriptions_keep_existing_ones_and_skip_non_strings() {
    let mut schema = obj(vec![
        ("fields", strs(&["title", "body"])),
        ("field_descriptions", obj(vec![("body", s("The text"))])),
    ]);
    let answer = vec![
        ("title".to_string(), s("The title")),
        ("body".to_string(), s("Replaced?")),
        ("date".to_string(), Json::Number("1".to_string())),
    ];
    assert!(merge_field_descriptions(&mut schema, &answer).is_ok());
    let fd = get(&schema, "field_descriptions");
    assert_eq!(get(fd, "body"), &s("The text"));
    assert_eq!(get(fd, "title"), &s("The title"));
    match fd {
        Json::Object(ms) => assert_eq!(ms.len(), 2),
        _ => panic!("not an object"),
    }

    let mut bare = obj(vec![("fields", strs(&["a"]))]);
    assert!(merge_field_descriptions(&mut bare, &vec![("a".to_string(), s("first"))]).is_ok());
    assert_eq!(get(get(&bare, "field_descriptions"), "a"), &s("first"));

    let mut not_obj = strs(&["a"]);
    assert!(merge_field_descriptions(&mut not_obj, &answer).is_err());
    assert_eq!(not_obj, strs(&["a"]));
}

fn members(pairs: Vec<(&str, Json)>) -> Vec<(String, Json)> {
    pairs.into_iter().map(|(k, v)| (k.to_string(), v)).collect()
}

fn hash_of(obj: &[(String, Json)]) -> &str {
    match &obj.iter().find(|(k, _)| k == "content_hash").expect("content_hash").1 {
        Json::Str(h) => h.as_str(),
        _ => panic!("content_hash is not a string"),
    }
}

fn from_value(v: &serde_json::Value) -> Json {
    match v {
        serde_json::Value::Null => Json::Null,
        serde_json::Value::Bool(b) => Json::Bool(*b),
        serde_json::Value::Number(n) => Json::Number(n.to_string()),
        serde_json::Value::String(t) => Json::Str(t.clone()),
        serde_json::Value::Array(a) => Json::Array(a.iter().map(from_value).collect()),
        serde_json::Value::Object(m) => Json::Object(m.iter().map(|(k, x)| (k.clone(), from_value(x))).collect()),
    }
}

fn sha_prefix(text: &str) -> String {
    let mut hasher = Sha256::new();
    hasher.update(text.as_bytes());
    format!("{:x}", hasher.finalize())[..16].to_string()
}

#[test]
fn test_inject_content_hash_with_content_field() {
    let mut obj = members(vec![("title", s("Note")), ("content", s("Hello world"))]);
    inject_content_hash(&mut obj);
    assert!(obj.iter().any(|(k, _)| k == "content_hash"));
    let hash = hash_of(&obj);
    assert_eq!(hash.len(), 16);
    assert_eq!(hash, "64ec88ca00b268e5");
}

#[test]
fn test_inject_content_hash_without_content_field() {
    let mut obj = members(vec![
        ("flight_id", s("AA100")),
        ("airline", s("American Airlines")),
        ("departure_date", s("2026-04-01")),
    ]);
    inject_content_hash(&mut obj);
    assert!(
        obj.iter().any(|(k, _)| k == "content_hash"),
        "Structured data without content/body should still get a content_hash"
    );
    let hash = hash_of(&obj);
    assert_eq!(hash.len(), 16);
    assert_eq!(
        hash,
        sha_prefix("airline:\"American Airlines\"\ndeparture_date:\"2026-04-01\"\nflight_id:\"AA100\"\n")
    );
}

#[test]
fn test_inject_content_hash_different_data_produces_different_hashes() {
    let mut obj1 = members(vec![("flight_id", s("AA100")), ("departure_date", s("2026-04-01"))]);
    let mut obj2 = members(vec![("flight_id", s("AA200")), ("departure_date", s("2026-04-01"))]);
    inject_content_hash(&mut obj1);
    inject_content_hash(&mut obj2);
    assert_ne!(hash_of(&obj1), hash_of(&obj2), "Different records should produce different content hashes");
}

#[test]
fn content_hash_prefers_content_then_body() {
    let mut body = members(vec![("body", s("Hello world")), ("x", Json::Number("1".to_string()))]);
    inject_content_hash(&mut body);
    assert_eq!(hash_of(&body), "64ec88ca00b268e5");
    // A `content` member that is not a string does not fall back to `body`.
    let mut odd = members(vec![("content", Json::Number("5".to_string())), ("body", s("Hello world"))]);
    inject_content_hash(&mut odd);
    assert_eq!(hash_of(&odd), sha_prefix("body:\"Hello world\"\ncontent:5\n"));
    // An existing hash is replaced in place.
    let mut again = members(vec![("content", s("Hello world")), ("content_hash", s("old"))]);
    inject_content_hash(&mut again);
    assert_eq!(again.len(), 2);
    assert_eq!(again[1].1, s("64ec88ca00b268e5"));
}

#[test]
fn content_hash_ignores_member_order_and_matches_serde_text() {
    let value: serde_json::Value = serde_json::from_str(
        r#"{"b": [1, 2.5, {"z": null, "a": true}], "a": "q\"uote\n", "c": {"k": []}}"#,
    )
    .expect("valid JSON");
    let map = value.as_object().expect("object");
    let mut expected_input = String::new();
    let mut keys: Vec<&String> = map.keys().collect();
    keys.sort();
    for k in keys {
        expected_input.push_str(k);
        expected_input.push(':');
        expected_input.push_str(&map[k].to_string());
        expected_input.push('\n');
    }
    let mut ours = match from_value(&value) {
        Json::Object(ms) => ms,
        _ => panic!("object"),
    };
    let mut reversed: Vec<(String, Json)> = ours.iter().rev().map(|(k, v)| (k.clone(), copy_json(v))).collect();
    inject_content_hash(&mut ours);
    inject_content_hash(&mut reversed);
    assert_eq!(hash_of(&ours), sha_prefix(&expected_input));
    assert_eq!(hash_of(&ours), hash_of(&reversed));
}

#[test]
fn compact_json_text_matches_serde() {
    let text = r#"{"a":[1,-2.5e3,"x\ty",null,false],"b":{},"c":[]}"#;
    let value: serde_json::Value = serde_json::from_str(text).expect("valid JSON");
    assert_eq!(to_json_text(&from_value(&value)), value.to_string());
}

#[test]
fn content_hashes_reach_every_object_of_an_array() {
    let mut data = Json::Array(vec![obj(vec![("content", s("Hello world"))]), s("plain"), obj(vec![])]);
    inject_content_hashes(&mut data);
    match &data {
        Json::Array(items) => {
            assert_eq!(get(&items[0], "content_hash"), &s("64ec88ca00b268e5"));
            assert_eq!(items[1], s("plain"));
            assert_eq!(get(&items[2], "content_hash"), &s(&sha_prefix("")));
        },
        _ => panic!("array"),
    }
    let mut single = obj(vec![("content", s("Hello world"))]);
    inject_content_hashes(&mut single);
    assert_eq!(get(&single, "content_hash"), &s("64ec88ca00b268e5"));
}

#[test]
fn input_must_be_an_object_or_array() {
    assert!(validate_input(&obj(vec![])).is_ok());
    assert!(validate_input(&Json::Array(vec![])).is_ok());
    match validate_input(&Json::Null) {
        Err(e) => assert_eq!(e.message(), "Invalid input data: Input data cannot be null"),
        Ok(()) => panic!("null accepted"),
    }
    match validate_input(&s("text")) {
        Err(e) => assert_eq!(e.message(), "Invalid input data: Input data must be a JSON object or array"),
        Ok(()) => panic!("string accepted"),
    }
    assert!(validate_input(&Json::Number("3".to_string())).is_err());
}

#[test]
fn string_escapes_match_serde() {
    for t in ["plain", "q\"uote", "back\\slash", "\u{8}\u{c}\n\r\t", "\u{0}\u{1}\u{1f}\u{7f}", "é/€😀", ""] {
        let expected = serde_json::Value::String(t.to_string()).to_string();
        assert_eq!(to_json_text(&Json::Str(t.to_string())), expected);
    }
    assert_eq!(to_json_text(&Json::Str("\u{1}a".to_string())), "\"\\u0001a\"");
}
