use fold_ingestion::decomposer::ChildGroup;
use fold_ingestion::error::IngestionError;
use fold_ingestion::schema_cache::{link_child_schemas, merge_mappers, CachedSchema, SchemaCache, SchemaStore};

fn pair(a: &str, b: &str) -> (String, String) {
    (a.to_string(), b.to_string())
}

fn cached(name: &str) -> CachedSchema {
    CachedSchema { schema_name: name.to_string(), mutation_mappers: vec![pair("a", "b")] }
}

#[test]
fn schema_cache_local_scope_shadows_shared_store() {
    let mut shared = SchemaStore::new();
    let mut first = SchemaCache::new();
    first.insert("h1".to_string(), cached("Shared"));
    first.commit(&mut shared);

    let mut cache = SchemaCache::new();
    assert_eq!(cache.get(&shared, "h1").unwrap().schema_name, "Shared");
    assert!(cache.contains_key(&shared, "h1"));
    cache.insert("h1".to_string(), cached("Local"));
    assert_eq!(cache.get(&shared, "h1").unwrap().schema_name, "Local");
    assert_eq!(shared.get("h1").unwrap().schema_name, "Shared");
    assert!(cache.get(&shared, "h2").is_none());
    assert!(!cache.contains_key(&shared, "h2"));
}

#[test]
fn schema_cache_insert_replaces_and_commit_flushes() {
    let mut shared = SchemaStore::new();
    let mut cache = SchemaCache::new();
    cache.insert("h".to_string(), cached("One"));
    cache.insert("h".to_string(), cached("Two"));
    assert_eq!(cache.local.len(), 1);
    assert_eq!(cache.local_schema_names(), vec!["Two".to_string()]);
    assert!(shared.get("h").is_none());
    cache.commit(&mut shared);
    assert_eq!(shared.get("h").unwrap().schema_name, "Two");
    assert_eq!(shared.entries.len(), 1);
}

#[test]
fn schema_cache_remap_to_org_renames_known_schemas() {
    let mut cache = SchemaCache::new();
    cache.insert("h1".to_string(), cached("Contacts"));
    cache.insert("h2".to_string(), cached("Other"));
    cache.remap_to_org(&vec![pair("Contacts", "org_Contacts")]);
    let shared = SchemaStore::new();
    assert_eq!(cache.get(&shared, "h1").unwrap().schema_name, "org_Contacts");
    assert_eq!(cache.get(&shared, "h2").unwrap().schema_name, "Other");
    assert_eq!(cache.get(&shared, "h1").unwrap().mutation_mappers, vec![pair("a", "b")]);
}

#[test]
fn merge_mappers_lets_renames_win() {
    let ai = vec![pair("x", "ai_x"), pair("y", "ai_y")];
    let merged = merge_mappers(&ai, vec![pair("y", "svc_y"), pair("z", "svc_z"), pair("z", "svc_z2")]);
    let get = |k: &str| merged.iter().find(|(a, _)| a == k).map(|(_, b)| b.clone());
    assert_eq!(get("x").as_deref(), Some("ai_x"));
    assert_eq!(get("y").as_deref(), Some("svc_y"));
    assert_eq!(get("z").as_deref(), Some("svc_z2"));
    assert_eq!(merged.len(), 3);
}

fn group(field: &str, hash: &str) -> ChildGroup {
    ChildGroup { field_name: field.to_string(), structure_hash: hash.to_string(), items: Vec::new() }
}

#[test]
fn children_are_linked_to_their_cached_schemas() {
    let mut shared = SchemaStore::new();
    let mut earlier = SchemaCache::new();
    earlier.insert("hc".to_string(), cached("Comments"));
    earlier.commit(&mut shared);
    let mut cache = SchemaCache::new();
    cache.insert("hp".to_string(), cached("Posts"));

    let mut refs = vec![pair("posts", "OldPosts")];
    let mut fields = Some(vec!["name".to_string(), "posts".to_string()]);
    let children = vec![group("posts", "hp"), group("comments", "hc")];
    link_child_schemas(&mut refs, &mut fields, &children, &cache, &shared).unwrap();
    assert_eq!(refs, vec![pair("posts", "Posts"), pair("comments", "Comments")]);
    assert_eq!(fields, Some(vec!["name".to_string(), "posts".to_string(), "comments".to_string()]));

    let mut refs = Vec::new();
    let mut fields = None;
    link_child_schemas(&mut refs, &mut fields, &vec![group("posts", "hp")], &cache, &shared).unwrap();
    assert_eq!(fields, Some(vec!["posts".to_string()]));
}

#[test]
fn an_uncached_child_structure_is_an_error() {
    let shared = SchemaStore::new();
    let cache = SchemaCache::new();
    let mut refs = Vec::new();
    let mut fields = None;
    match link_child_schemas(&mut refs, &mut fields, &vec![group("items", "h9")], &cache, &shared) {
        Err(IngestionError::SchemaCreationError(m)) => {
            assert_eq!(m, "No cached schema for child structure hash 'h9' (field 'items')")
        }
        other => panic!("unexpected {:?}", other),
    }
}
