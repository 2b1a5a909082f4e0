use fold_ingestion::json::Json;
use fold_ingestion::mutation_prep::{
    add_child_references, add_reference_mappers, child_with_parent_keys, descends, executes_mutations, flat_records_of,
    parent_keys_of, reuses_schema, writes_parent,
    reports_progress, retain_known_mappers, MAX_DECOMPOSITION_DEPTH,
};

fn s(t: &str) -> Json {
    Json::Str(t.to_string())
}

fn n(t: &str) -> Json {
    Json::Number(t.to_string())
}

fn obj(members: Vec<(&str, Json)>) -> Json {
    Json::Object(members.into_iter().map(|(k, v)| (k.to_string(), v)).collect())
}

fn pairs(items: &[(&str, &str)]) -> Vec<(String, String)> {
    items.iter().map(|(a, b)| (a.to_string(), b.to_string())).collect()
}

fn names(items: &[&str]) -> Vec<String> {
    items.iter().map(|t| t.to_string()).collect()
}

#[test]
fn mappers_for_fields_the_schema_lacks_are_dropped() {
    let mappers = pairs(&[("title", "Notes.title"), ("junk", "Notes.gone"), ("body", "body"), ("x", "a.b.c")]);
    let kept = retain_known_mappers(&mappers, &names(&["title", "body", "c"]));
    assert_eq!(kept, pairs(&[("title", "Notes.title"), ("body", "body"), ("x", "a.b.c")]));
    assert!(retain_known_mappers(&mappers, &names(&[])).is_empty());
}

#[test]
fn flat_records_are_the_objects_of_the_data() {
    let data = Json::Array(vec![obj(vec![("a", n("1"))]), s("skip"), obj(vec![])]);
    let records = flat_records_of(&data);
    assert_eq!(records.len(), 2);
    assert_eq!(records[0], vec![("a".to_string(), n("1"))]);
    assert!(records[1].is_empty());
    assert_eq!(flat_records_of(&obj(vec![("k", s("v"))])).len(), 1);
    assert!(flat_records_of(&s("text")).is_empty());
    assert!(flat_records_of(&Json::Null).is_empty());
}

#[test]
fn progress_is_reported_every_tenth_record_and_at_the_end() {
    assert!(!reports_progress(0, 1));
    assert!(!reports_progress(0, 25));
    assert!(reports_progress(9, 25));
    assert!(reports_progress(19, 25));
    assert!(!reports_progress(20, 25));
    assert!(reports_progress(24, 25));
    assert!(reports_progress(1, 2));
    assert_eq!(MAX_DECOMPOSITION_DEPTH, 10);
}

#[test]
fn parents_hand_down_their_scalar_fields() {
    let parent = obj(vec![
        ("user_id", s("alice")),
        ("age", n("30")),
        ("active", Json::Bool(true)),
        ("tags", Json::Array(vec![])),
    ]);
    let keys = parent_keys_of(&parent);
    assert_eq!(keys, vec![("parent_user_id".to_string(), s("alice")), ("parent_age".to_string(), n("30"))]);
    assert!(parent_keys_of(&s("not an object")).is_empty());
}

#[test]
fn children_keep_their_own_fields() {
    let keys = vec![("parent_user_id".to_string(), s("alice")), ("parent_age".to_string(), n("30"))];
    let child = obj(vec![("title", s("post")), ("parent_age", n("5"))]);
    let given = child_with_parent_keys(&child, &keys);
    assert_eq!(
        given,
        obj(vec![("title", s("post")), ("parent_age", n("5")), ("parent_user_id", s("alice"))])
    );
    assert_eq!(child_with_parent_keys(&s("x"), &keys), s("x"));
    assert_eq!(child_with_parent_keys(&child, &vec![]), child);
}

#[test]
fn parents_get_references_for_fields_with_any() {
    let reference = obj(vec![("schema", s("Post")), ("key", s("k1"))]);
    let refs = vec![("posts".to_string(), vec![obj(vec![("schema", s("Post")), ("key", s("k1"))])]), ("empty".to_string(), vec![])];
    let mut parent = obj(vec![("user_id", s("alice"))]);
    add_child_references(&mut parent, &refs);
    assert_eq!(parent, obj(vec![("user_id", s("alice")), ("posts", Json::Array(vec![reference]))]));
    let mut not_object = s("x");
    add_child_references(&mut not_object, &refs);
    assert_eq!(not_object, s("x"));

    let mut mappers = pairs(&[("user_id", "User.user_id"), ("posts", "User.posts_custom")]);
    add_reference_mappers(&mut mappers, &refs);
    assert_eq!(mappers, pairs(&[("user_id", "User.user_id"), ("posts", "User.posts_custom")]));
    let refs2 = vec![("comments".to_string(), vec![s("r")]), ("empty".to_string(), vec![])];
    add_reference_mappers(&mut mappers, &refs2);
    assert_eq!(
        mappers,
        pairs(&[("user_id", "User.user_id"), ("posts", "User.posts_custom"), ("comments", "comments")])
    );
}

#[test]
fn decomposition_decisions() {
    assert!(descends(0));
    assert!(descends(9));
    assert!(!descends(10));
    assert!(writes_parent(&obj(vec![("a", n("1"))])));
    assert!(!writes_parent(&obj(vec![])));
    assert!(!writes_parent(&s("x")));
    assert!(executes_mutations(true, 2));
    assert!(!executes_mutations(true, 0));
    assert!(!executes_mutations(false, 2));
    assert!(reuses_schema(Some(true)));
    assert!(!reuses_schema(Some(false)));
    assert!(!reuses_schema(None));
}
