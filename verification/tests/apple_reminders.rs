use fold_ingestion::apple::reminders::{build_script, parse_output};

#[test]
fn reminders_parse_output_basic() {
    let raw = "<<<REM_START>>>Buy groceries<<<SEP>>>Shopping<<<SEP>>>false<<<SEP>>>2024-01-20 10:00:00<<<SEP>>>1<<<REM_END>>>";
    let reminders = parse_output(raw).unwrap();
    assert_eq!(reminders.len(), 1);
    assert_eq!(reminders[0].name, "Buy groceries");
    assert_eq!(reminders[0].list, "Shopping");
    assert!(!reminders[0].completed);
    assert_eq!(reminders[0].due_date, "2024-01-20 10:00:00");
    assert_eq!(reminders[0].priority, 1);
}

#[test]
fn parse_output_completed() {
    let raw = "<<<REM_START>>>Done task<<<SEP>>>Work<<<SEP>>>true<<<SEP>>>none<<<SEP>>>0<<<REM_END>>>";
    let reminders = parse_output(raw).unwrap();
    assert_eq!(reminders.len(), 1);
    assert!(reminders[0].completed);
}

#[test]
fn reminders_parse_output_multiple() {
    let raw = "<<<REM_START>>>Task 1<<<SEP>>>List A<<<SEP>>>false<<<SEP>>>none<<<SEP>>>0<<<REM_END>>><<<REM_START>>>Task 2<<<SEP>>>List B<<<SEP>>>true<<<SEP>>>none<<<SEP>>>5<<<REM_END>>>";
    let reminders = parse_output(raw).unwrap();
    assert_eq!(reminders.len(), 2);
    assert_eq!(reminders[1].priority, 5);
}

#[test]
fn reminders_parse_output_empty() {
    let reminders = parse_output("").unwrap();
    assert!(reminders.is_empty());
}

#[test]
fn build_script_all_lists_skips_completed() {
    let script = build_script(None);
    assert!(script.contains("whose completed is false"));
    assert!(script.contains("name of reminders of lst"));
    assert!(script.contains("due date of reminders of lst"));
    assert!(script.contains("priority of reminders of lst"));
    assert!(!script.contains("set reminderItems to every reminder"));
    assert!(!script.contains("repeat with r in reminderItems"));
}

#[test]
fn build_script_specific_list_uses_name_filter() {
    let script = build_script(Some("Shopping"));
    assert!(script.contains(r#"set targetFilter to "Shopping""#));
    assert!(script.contains("is equal to lstName"));
    assert!(!script.contains(r#"list "Shopping""#));
}

#[test]
fn build_script_escapes_list_name_quotes() {
    let script = build_script(Some(r#"My "Quoted" List"#));
    assert!(script.contains(r#"set targetFilter to "My \"Quoted\" List""#));
}

#[test]
fn reminders_unparsable_priority_defaults_to_zero() {
    let raw = "<<<REM_START>>>a<<<SEP>>>b<<<SEP>>>TRUE<<<SEP>>>d<<<SEP>>>high<<<REM_END>>><<<REM_START>>>c<<<SEP>>>d<<<SEP>>>x<<<SEP>>>e<<<SEP>>> -7 <<<REM_END>>>";
    let reminders = parse_output(raw).unwrap();
    assert_eq!(reminders.len(), 2);
    assert_eq!(reminders[0].priority, 0);
    assert!(reminders[0].completed);
    assert_eq!(reminders[1].priority, -7);
    assert!(!reminders[1].completed);
}

#[test]
fn reminders_all_lists_use_empty_filter() {
    let script = build_script(None);
    assert!(script.contains("set targetFilter to \"\"\n"));
}
