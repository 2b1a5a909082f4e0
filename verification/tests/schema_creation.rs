use fold_ingestion::json::Json;
use fold_ingestion::error::IngestionError;
use fold_ingestion::schema_creation::{
    backfill_field_data_classifications, fill_schema_defaults, resolve_schema_name, validate_field_mapper_compatibility,
    InheritedField, SchemaDraft, SchemaKey, SchemaType,
};

fn s(t: &str) -> Json {
    Json::Str(t.to_string())
}

fn num(t: &str) -> Json {
    Json::Number(t.to_string())
}

fn strs(items: &[&str]) -> Json {
    Json::Array(items.iter().map(|t| s(t)).collect())
}

fn obj(members: Vec<(&str, Json)>) -> Json {
    Json::Object(members.into_iter().map(|(k, v)| (k.to_string(), v)).collect())
}

fn get<'a>(j: &'a Json, key: &str) -> Option<&'a Json> {
    match j {
        Json::Object(ms) => ms.iter().find(|(k, _)| k == key).map(|(_, v)| v),
        _ => None,
    }
}

fn default_dc() -> Json {
    obj(vec![("data_domain", s("general")), ("sensitivity_level", num("1"))])
}

#[test]
fn backfill_inserts_map_when_absent() {
    // Mirrors the on-wire shape returned for legacy schemas: the
    // `field_data_classifications` key is missing entirely.
    let mut v = obj(vec![("fields", strs(&["a", "b"])), ("name", s("legacy"))]);
    backfill_field_data_classifications(&mut v);
    let fdc = get(&v, "field_data_classifications").unwrap();
    assert_eq!(get(fdc, "a").unwrap(), &default_dc());
    assert_eq!(get(fdc, "b").unwrap(), &default_dc());
}

#[test]
fn backfill_only_fills_missing_entries() {
    // Existing classifications must be preserved as-is; only fields without
    // an entry get the default.
    let health = || obj(vec![("data_domain", s("health")), ("sensitivity_level", num("3"))]);
    let mut v = obj(vec![
        ("field_data_classifications", obj(vec![("a", health())])),
        ("fields", strs(&["a", "b", "c"])),
    ]);
    backfill_field_data_classifications(&mut v);
    let fdc = get(&v, "field_data_classifications").unwrap();
    assert_eq!(get(fdc, "a").unwrap(), &health());
    assert_eq!(get(fdc, "b").unwrap(), &default_dc());
    assert_eq!(get(fdc, "c").unwrap(), &default_dc());
}

#[test]
fn backfill_replaces_null_value_with_object() {
    // Treat null as "no classifications" rather than panicking or skipping.
    let mut v = obj(vec![("field_data_classifications", Json::Null), ("fields", strs(&["a"]))]);
    backfill_field_data_classifications(&mut v);
    assert_eq!(get(get(&v, "field_data_classifications").unwrap(), "a").unwrap(), &default_dc());
}

#[test]
fn backfill_no_op_when_all_fields_classified() {
    let original = || {
        obj(vec![
            (
                "field_data_classifications",
                obj(vec![("a", obj(vec![("data_domain", s("general")), ("sensitivity_level", num("0"))]))]),
            ),
            ("fields", strs(&["a"])),
        ])
    };
    let mut v = original();
    backfill_field_data_classifications(&mut v);
    assert_eq!(v, original());
}

#[test]
fn backfill_no_op_on_non_object_value() {
    let mut v = strs(&["not", "an", "object"]);
    backfill_field_data_classifications(&mut v);
    assert_eq!(v, strs(&["not", "an", "object"]));
}

#[test]
fn backfill_no_op_when_fields_missing() {
    let mut v = obj(vec![("name", s("x"))]);
    backfill_field_data_classifications(&mut v);
    // No fields → nothing to classify; the map shouldn't get inserted just
    // to stay empty.
    assert!(get(&v, "field_data_classifications").is_none());
}

#[test]
fn backfill_leaves_a_map_of_another_kind_alone() {
    let make = || obj(vec![("field_data_classifications", s("odd")), ("fields", strs(&["a"]))]);
    let mut v = make();
    backfill_field_data_classifications(&mut v);
    assert_eq!(v, make());
}

#[test]
fn backfill_classifies_each_name_once() {
    let mut v = obj(vec![("fields", Json::Array(vec![s("a"), num("1"), s("a")]))]);
    backfill_field_data_classifications(&mut v);
    assert_eq!(
        v,
        obj(vec![
            ("fields", Json::Array(vec![s("a"), num("1"), s("a")])),
            ("field_data_classifications", obj(vec![("a", default_dc())])),
        ])
    );
}

fn draft(fields: Option<&[&str]>) -> SchemaDraft {
    SchemaDraft {
        name: "notes".to_string(),
        fields: fields.map(|f| f.iter().map(|x| x.to_string()).collect()),
        field_descriptions: Vec::new(),
        field_classifications: Vec::new(),
        key: None,
    }
}

#[test]
fn defaults_fill_descriptions_classifications_and_key() {
    let mut d = draft(Some(&["first_name", "age", "tags"]));
    d.field_descriptions.push(("tags".to_string(), "The tags".to_string()));
    d.field_classifications.push(("age".to_string(), Vec::new()));
    d.field_classifications.push(("tags".to_string(), vec!["hashtag".to_string()]));
    let sample = Json::Array(vec![Json::Object(vec![
        ("first_name".to_string(), Json::Str("Ann".to_string())),
        ("age".to_string(), Json::Number("41".to_string())),
    ])]);
    assert!(fill_schema_defaults(&mut d, &sample).is_ok());
    assert_eq!(
        d.field_descriptions,
        vec![
            ("tags".to_string(), "The tags".to_string()),
            ("first_name".to_string(), "first name field".to_string()),
            ("age".to_string(), "age field".to_string()),
        ]
    );
    assert_eq!(
        d.field_classifications,
        vec![
            ("age".to_string(), vec!["number".to_string()]),
            ("tags".to_string(), vec!["hashtag".to_string()]),
            ("first_name".to_string(), vec!["word".to_string()]),
        ]
    );
    assert_eq!(d.key, Some(SchemaKey { hash_field: Some("first_name".to_string()), range_field: None }));
    assert_eq!(d.name, "notes");
}

#[test]
fn an_existing_key_is_kept_and_a_schema_without_fields_is_refused() {
    let mut keyed = draft(Some(&[]));
    keyed.key = Some(SchemaKey { hash_field: None, range_field: Some("date".to_string()) });
    assert!(fill_schema_defaults(&mut keyed, &Json::Null).is_ok());
    assert_eq!(keyed.key, Some(SchemaKey { hash_field: None, range_field: Some("date".to_string()) }));

    let mut empty = draft(Some(&[]));
    empty.field_classifications.push(("x".to_string(), vec!["word".to_string()]));
    match fill_schema_defaults(&mut empty, &Json::Null) {
        Err(IngestionError::SchemaCreationError(m)) => {
            assert_eq!(m, "Cannot create schema without at least one field for key configuration")
        },
        other => panic!("unexpected {other:?}"),
    }
    assert_eq!(empty.key, None);

    let mut undeclared = draft(None);
    undeclared.field_classifications.push(("x".to_string(), vec!["word".to_string()]));
    assert!(fill_schema_defaults(&mut undeclared, &Json::Null).is_ok());
    assert_eq!(undeclared.key, Some(SchemaKey { hash_field: Some("x".to_string()), range_field: None }));
    assert!(undeclared.field_descriptions.is_empty());
}

#[test]
fn placeholder_names_give_way_to_the_identity_hash() {
    assert_eq!(resolve_schema_name("customer_orders", "abc123"), "customer_orders");
    assert_eq!(resolve_schema_name("  Schema ", "abc123"), "abc123");
    assert_eq!(resolve_schema_name("SCHEMA", "abc123"), "abc123");
    assert_eq!(resolve_schema_name("   ", "abc123"), "abc123");
    assert_eq!(resolve_schema_name("", "abc123"), "abc123");
    assert_eq!(resolve_schema_name(" schemas", "abc123"), " schemas");
    assert_eq!(resolve_schema_name(" orders ", "abc123"), " orders ");
}

fn inherits(target: &str, schema: &str, field: &str) -> InheritedField {
    InheritedField { target_field: target.to_string(), source_schema: schema.to_string(), source_field: field.to_string() }
}

#[test]
fn hash_to_hashrange_field_mapper_carry_over_is_refused() {
    let mappers = vec![inherits("content", "RecipesV1", "content"), inherits("file_type", "RecipesV1", "file_type")];
    let types = vec![("RecipesV1".to_string(), Some(SchemaType::Hash))];
    match validate_field_mapper_compatibility("RecipesV2", SchemaType::HashRange, &mappers, &types) {
        Err(IngestionError::SchemaCreationError(msg)) => {
            assert!(msg.contains("Schema expansion rejected"), "unexpected message: {msg}");
            assert!(msg.contains("RecipesV1") && msg.contains("RecipesV2"), "unexpected message: {msg}");
            assert!(msg.contains("Hash") && msg.contains("HashRange"), "unexpected message: {msg}");
            assert_eq!(
                msg,
                "Schema expansion rejected: cross-schema_type field_mapper(s) would corrupt molecule storage on read. \
                 Incompatibilities: [field 'content' inherits from 'RecipesV1.content' (schema_type=Hash) but target \
                 schema 'RecipesV2' has schema_type=HashRange; field 'file_type' inherits from 'RecipesV1.file_type' \
                 (schema_type=Hash) but target schema 'RecipesV2' has schema_type=HashRange]. The schema service must \
                 not propose expansion across {Single, Hash, Range, HashRange} boundaries \u{2014} each schema_type \
                 stores molecules in a different on-disk shape."
            );
        },
        other => panic!("expected a refusal, got {other:?}"),
    }
}

#[test]
fn same_type_missing_source_and_no_mappers_pass() {
    let mappers = vec![inherits("name", "ContactsV1", "name")];
    let same = vec![("ContactsV1".to_string(), Some(SchemaType::Hash))];
    assert!(validate_field_mapper_compatibility("ContactsV2", SchemaType::Hash, &mappers, &same).is_ok());
    assert!(validate_field_mapper_compatibility("Quotes", SchemaType::Single, &vec![], &vec![]).is_ok());
    let orphan = vec![inherits("content", "GoneV1", "content")];
    let missing = vec![("GoneV1".to_string(), None)];
    assert!(validate_field_mapper_compatibility("OrphanedExpansion", SchemaType::HashRange, &orphan, &missing).is_ok());
    assert!(validate_field_mapper_compatibility("OrphanedExpansion", SchemaType::HashRange, &orphan, &vec![]).is_ok());
    assert_eq!(SchemaType::Range.name(), "Range");
    assert_eq!(SchemaType::Single.name(), "Single");
}
