use fold_ingestion::apple::records::{contact_hash_input, contact_record_hash};
use fold_ingestion::apple::contacts::Contact;
use fold_ingestion::apple::contacts::{build_script, parse_multi, parse_output};

#[test]
fn contacts_parse_output_basic() {
    let raw = "<<<CON_START>>>Alice Example<<<SEP>>>Acme Corp<<<SEP>>>alice@example.com<<<SEP>>>+1-555-0100<<<SEP>>>1990-01-15<<<SEP>>>met at conference<<<CON_END>>>";
    let contacts = parse_output(raw).unwrap();
    assert_eq!(contacts.len(), 1);
    assert_eq!(contacts[0].full_name, "Alice Example");
    assert_eq!(contacts[0].organization, "Acme Corp");
    assert_eq!(contacts[0].emails, vec!["alice@example.com"]);
    assert_eq!(contacts[0].phones, vec!["+1-555-0100"]);
    assert_eq!(contacts[0].birthday, "1990-01-15");
    assert_eq!(contacts[0].note, "met at conference");
}

#[test]
fn parse_output_multiple_emails_and_phones() {
    let raw = "<<<CON_START>>>Bob Example<<<SEP>>><<<SEP>>>bob@work.com,bob@home.com<<<SEP>>>+1-555-0101,+1-555-0102<<<SEP>>><<<SEP>>><<<CON_END>>>";
    let contacts = parse_output(raw).unwrap();
    assert_eq!(contacts.len(), 1);
    assert_eq!(contacts[0].emails, vec!["bob@work.com", "bob@home.com"]);
    assert_eq!(contacts[0].phones, vec!["+1-555-0101", "+1-555-0102"]);
    assert!(contacts[0].organization.is_empty());
    assert!(contacts[0].birthday.is_empty());
    assert!(contacts[0].note.is_empty());
}

#[test]
fn parse_output_skips_empty_name() {
    let raw = "<<<CON_START>>><<<SEP>>>Acme<<<SEP>>>nobody@acme.com<<<SEP>>><<<SEP>>><<<SEP>>><<<CON_END>>>";
    let contacts = parse_output(raw).unwrap();
    assert!(contacts.is_empty());
}

#[test]
fn parse_output_skips_malformed_field_count() {
    let raw = "<<<CON_START>>>Short<<<SEP>>>Acme<<<SEP>>><<<SEP>>><<<SEP>>><<<CON_END>>>";
    let contacts = parse_output(raw).unwrap();
    assert!(contacts.is_empty());
}

#[test]
fn contacts_parse_output_multiple() {
    let raw = "<<<CON_START>>>Alice<<<SEP>>>A<<<SEP>>>a@x.com<<<SEP>>>+1<<<SEP>>><<<SEP>>><<<CON_END>>><<<CON_START>>>Bob<<<SEP>>>B<<<SEP>>>b@x.com<<<SEP>>>+2<<<SEP>>><<<SEP>>><<<CON_END>>>";
    let contacts = parse_output(raw).unwrap();
    assert_eq!(contacts.len(), 2);
    assert_eq!(contacts[0].full_name, "Alice");
    assert_eq!(contacts[1].full_name, "Bob");
}

#[test]
fn contacts_parse_output_empty() {
    let contacts = parse_output("").unwrap();
    assert!(contacts.is_empty());
}

#[test]
fn parse_multi_trims_whitespace_and_drops_empties() {
    assert_eq!(parse_multi(""), Vec::<String>::new());
    assert_eq!(
        parse_multi(" a@x.com , ,b@x.com ,"),
        vec!["a@x.com", "b@x.com"]
    );
}

#[test]
fn build_script_iterates_people_and_serialises_fields() {
    let script = build_script();
    assert!(script.contains(r#"tell application "Contacts""#));
    assert!(script.contains("repeat with p in every person"));
    assert!(script.contains("emails of p"));
    assert!(script.contains("phones of p"));
    assert!(script.contains("<<<CON_START>>>"));
    assert!(script.contains("<<<CON_END>>>"));
    assert!(script.contains("<<<SEP>>>"));
}

#[test]
fn build_script_skips_empty_name_rows_in_applescript_too() {
    let script = build_script();
    assert!(script.contains("if fullName is not \"\" then"));
}

#[test]
fn contacts_whitespace_only_name_is_skipped() {
    let raw = "<<<CON_START>>>   <<<SEP>>>Acme<<<SEP>>><<<SEP>>><<<SEP>>><<<SEP>>><<<CON_END>>>";
    assert!(parse_output(raw).unwrap().is_empty());
}

#[test]
fn contact_hash_input_joins_name_emails_and_phones() {
    let c = Contact {
        full_name: "Alice".to_string(),
        organization: String::new(),
        emails: vec!["a@x.com".to_string(), "b@x.com".to_string()],
        phones: vec!["+1".to_string()],
        birthday: String::new(),
        note: String::new(),
    };
    assert_eq!(contact_hash_input(&c), "Alice|a@x.com,b@x.com|+1");
    assert_eq!(contact_record_hash(&c), fold_ingestion::apple::content_hash("Alice|a@x.com,b@x.com|+1"));
    let d = Contact {
        full_name: "Bob".to_string(),
        organization: String::new(),
        emails: vec!["a@x.com".to_string(), "b@x.com".to_string()],
        phones: vec!["+1".to_string()],
        birthday: String::new(),
        note: String::new(),
    };
    assert_ne!(contact_record_hash(&c), contact_record_hash(&d));
}
