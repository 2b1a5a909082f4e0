use fold_ingestion::known_schemas::{known_schemas, render_for_prompt};

#[test]
fn known_schemas_are_non_empty_and_unique() {
    let schemas = known_schemas();
    assert!(!schemas.is_empty());
    let names: Vec<_> = schemas.iter().map(|s| s.descriptive_name).collect();
    let mut sorted = names.clone();
    sorted.sort();
    sorted.dedup();
    assert_eq!(sorted.len(), names.len(), "KNOWN_SCHEMAS contains duplicate descriptive_names");
}

#[test]
fn every_known_schema_has_at_least_one_field() {
    for s in known_schemas() {
        assert!(
            !s.fields.is_empty(),
            "schema '{}' must declare at least one field",
            s.descriptive_name
        );
    }
}

#[test]
fn render_includes_every_descriptive_name() {
    let rendered = render_for_prompt();
    for s in known_schemas() {
        assert!(
            rendered.contains(s.descriptive_name),
            "rendered prompt block missing '{}'",
            s.descriptive_name
        );
    }
    assert!(rendered.contains("EXACT descriptive_name"));
}

#[test]
fn render_lists_fields_comma_separated() {
    let rendered = render_for_prompt();
    assert!(rendered.starts_with("\n\nEXISTING SCHEMAS"));
    assert!(rendered.contains(
        "  - CalendarEvent: A calendar event or meeting with attendees. (fields: title, start_at, end_at, attendees, location, description)\n"
    ));
}
