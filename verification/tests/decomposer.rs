use fold_ingestion::decomposer::{compute_structure_hash, decompose};
use fold_ingestion::json::Json;

// Objects list their keys in the order a `serde_json` map walks them
// (sorted), as the library receives them.

fn s(t: &str) -> Json {
    Json::Str(t.to_string())
}

fn num(t: &str) -> Json {
    Json::Number(t.to_string())
}

fn arr(items: Vec<Json>) -> Json {
    Json::Array(items)
}

fn obj(members: Vec<(&str, Json)>) -> Json {
    Json::Object(members.into_iter().map(|(k, v)| (k.to_string(), v)).collect())
}

fn has_key(j: &Json, key: &str) -> bool {
    match j {
        Json::Object(ms) => ms.iter().any(|(k, _)| k == key),
        _ => false,
    }
}

#[test]
fn test_object_with_no_arrays() {
    let data = obj(vec![("age", num("30")), ("name", s("Alice"))]);
    let result = decompose(&data);

    assert_eq!(result.parent, obj(vec![("age", num("30")), ("name", s("Alice"))]));
    assert!(result.children.is_empty());
}

#[test]
fn test_object_with_array_of_objects() {
    let data = obj(vec![
        ("name", s("Alice")),
        (
            "posts",
            arr(vec![
                obj(vec![("body", s("Hello world")), ("title", s("Hi"))]),
                obj(vec![("body", s("See ya")), ("title", s("Bye"))]),
            ]),
        ),
    ]);
    let result = decompose(&data);

    // Parent should have "posts" removed
    assert_eq!(result.parent, obj(vec![("name", s("Alice"))]));
    assert_eq!(result.children.len(), 1);

    let group = &result.children[0];
    assert_eq!(group.field_name, "posts");
    assert_eq!(group.items.len(), 2);
    assert!(!group.structure_hash.is_empty());
}

#[test]
fn test_object_with_array_of_primitives_left_in_parent() {
    let make = || obj(vec![("name", s("Alice")), ("tags", arr(vec![s("rust"), s("database"), s("ai")]))]);
    let result = decompose(&make());

    // Primitive arrays stay in the parent
    assert_eq!(result.parent, make());
    assert!(result.children.is_empty());
}

#[test]
fn test_mixed_fields() {
    let data = obj(vec![
        ("age", num("30")),
        ("comments", arr(vec![obj(vec![("text", s("Great!"))]), obj(vec![("text", s("Thanks!"))])])),
        ("name", s("Alice")),
        ("posts", arr(vec![obj(vec![("title", s("Post1"))]), obj(vec![("title", s("Post2"))])])),
        ("tags", arr(vec![s("a"), s("b")])),
    ]);
    let result = decompose(&data);

    // Parent should keep name, age, tags but not posts or comments
    assert!(has_key(&result.parent, "name"));
    assert!(has_key(&result.parent, "age"));
    assert!(has_key(&result.parent, "tags"));
    assert!(!has_key(&result.parent, "posts"));
    assert!(!has_key(&result.parent, "comments"));

    assert_eq!(result.children.len(), 2);
}

#[test]
fn test_nested_object_left_in_parent() {
    let make = || {
        obj(vec![
            ("address", obj(vec![("city", s("Portland")), ("state", s("OR"))])),
            ("name", s("Alice")),
        ])
    };
    let result = decompose(&make());

    // Nested objects (not arrays) stay in the parent
    assert_eq!(result.parent, make());
    assert!(result.children.is_empty());
}

#[test]
fn test_empty_array_left_in_parent() {
    let make = || obj(vec![("name", s("Alice")), ("posts", arr(vec![]))]);
    let result = decompose(&make());

    // Empty arrays have no representative to hash, so left in parent
    assert_eq!(result.parent, make());
    assert!(result.children.is_empty());
}

#[test]
fn test_non_object_input_returned_unchanged() {
    let result = decompose(&s("just a string"));
    assert_eq!(result.parent, s("just a string"));
    assert!(result.children.is_empty());

    let result = decompose(&num("42"));
    assert_eq!(result.parent, num("42"));
    assert!(result.children.is_empty());

    let list = || arr(vec![num("1"), num("2"), num("3")]);
    let result = decompose(&list());
    assert_eq!(result.parent, list());
    assert!(result.children.is_empty());
}

#[test]
fn test_structure_hash_consistency() {
    // Two arrays with the same field structure should produce the same hash,
    // even though they have different parent field names and different values.
    let data1 = obj(vec![("items", arr(vec![obj(vec![("a", num("1")), ("b", s("x"))])]))]);
    let data2 = obj(vec![("things", arr(vec![obj(vec![("a", num("2")), ("b", s("y"))])]))]);

    let r1 = decompose(&data1);
    let r2 = decompose(&data2);

    assert_eq!(r1.children[0].structure_hash, r2.children[0].structure_hash);
}

#[test]
fn test_different_structures_produce_different_hashes() {
    let data1 = obj(vec![("items", arr(vec![obj(vec![("a", num("1")), ("b", s("x"))])]))]);
    let data2 = obj(vec![("items", arr(vec![obj(vec![("c", Json::Bool(true)), ("d", num("3.15"))])]))]);

    let r1 = decompose(&data1);
    let r2 = decompose(&data2);

    assert_ne!(r1.children[0].structure_hash, r2.children[0].structure_hash);
}

#[test]
fn test_array_of_numbers_not_extracted() {
    let make = || obj(vec![("scores", arr(vec![num("1"), num("2"), num("3"), num("4"), num("5")]))]);
    let result = decompose(&make());

    assert_eq!(result.parent, make());
    assert!(result.children.is_empty());
}

#[test]
fn test_deeply_nested_array_of_objects_in_child() {
    // The decomposer only looks at the top level — nested arrays inside
    // child items will be handled by recursive decomposition.
    let data = obj(vec![
        (
            "posts",
            arr(vec![obj(vec![
                ("comments", arr(vec![obj(vec![("author", s("Bob")), ("text", s("Great!"))])])),
                ("title", s("Hi")),
            ])]),
        ),
        ("user", s("Alice")),
    ]);
    let result = decompose(&data);

    assert_eq!(result.parent, obj(vec![("user", s("Alice"))]));
    assert_eq!(result.children.len(), 1);
    assert_eq!(result.children[0].field_name, "posts");

    // The child items still contain their nested arrays — recursive
    // decomposition of each item is handled by the ingestion service.
    let post = &result.children[0].items[0];
    assert!(has_key(post, "comments"));
}

#[test]
fn structure_hash_is_sha256_of_sorted_names() {
    // SHA-256 of "a,b"
    let expected = "1eb7c54d52831bbfe8942af0b1c56b7409523a59ed6ca99c1174fef7eb32c1b5";
    let ab = obj(vec![("a", num("1")), ("b", num("2"))]);
    let ba = obj(vec![("b", num("2")), ("a", num("1"))]);
    assert_eq!(compute_structure_hash(&ab), compute_structure_hash(&ba));
    assert_eq!(compute_structure_hash(&ab), expected);
    // SHA-256 of the empty string, for values that are not objects
    assert_eq!(
        compute_structure_hash(&num("1")),
        "e3b0c44298fc1c149afbf4c8996fb92427ae41e4649b934ca495991b7852b855"
    );
}

#[test]
fn only_object_items_are_kept_in_a_group() {
    let data = obj(vec![("mixed", arr(vec![obj(vec![]), num("1"), obj(vec![("k", Json::Null)])]))]);
    let r = decompose(&data);
    assert_eq!(r.children[0].items, vec![obj(vec![]), obj(vec![("k", Json::Null)])]);
    assert_eq!(r.parent, obj(vec![]));
}
