use fold_ingestion::apple::records::note_has_id;
use fold_ingestion::apple::notes::{build_script, parse_output};

#[test]
fn notes_parse_output_basic() {
    let raw = "<<<NOTE_START>>>x-coredata://AC8E/ICNote/p137<<<SEP>>>My Title<<<SEP>>>This is the body of the note with enough text<<<SEP>>>2024-01-15 10:30:00<<<SEP>>>2024-01-16 14:00:00<<<NOTE_END>>>";
    let notes = parse_output(raw).unwrap();
    assert_eq!(notes.len(), 1);
    assert_eq!(notes[0].id, "x-coredata://AC8E/ICNote/p137");
    assert_eq!(notes[0].title, "My Title");
    assert_eq!(notes[0].body, "This is the body of the note with enough text");
    assert_eq!(notes[0].created_at, "2024-01-15 10:30:00");
    assert_eq!(notes[0].modified_at, "2024-01-16 14:00:00");
}

#[test]
fn notes_parse_output_multiple() {
    let raw = "<<<NOTE_START>>>id1<<<SEP>>>Note 1<<<SEP>>>Body 1<<<SEP>>>Date1<<<SEP>>>Date2<<<NOTE_END>>><<<NOTE_START>>>id2<<<SEP>>>Note 2<<<SEP>>>Body 2<<<SEP>>>Date3<<<SEP>>>Date4<<<NOTE_END>>>";
    let notes = parse_output(raw).unwrap();
    assert_eq!(notes.len(), 2);
    assert_eq!(notes[0].id, "id1");
    assert_eq!(notes[0].title, "Note 1");
    assert_eq!(notes[1].id, "id2");
    assert_eq!(notes[1].title, "Note 2");
}

#[test]
fn notes_parse_output_empty() {
    let notes = parse_output("").unwrap();
    assert!(notes.is_empty());
}

#[test]
fn build_script_all_folders() {
    let script = build_script(None);
    assert!(script.contains("set noteList to every note"));
    assert!(!script.contains("targetFolder"));
}

#[test]
fn build_script_specific_folder() {
    let script = build_script(Some("Work"));
    assert!(script.contains(r#"folder "Work""#));
    assert!(script.contains("targetFolder"));
}

#[test]
fn build_script_includes_note_id_extraction() {
    let script = build_script(None);
    assert!(
        script.contains("(id of n) as string"),
        "script must extract the Apple-native note id: {script}"
    );
    assert!(
        script.contains("& noteId & \"<<<SEP>>>\" & noteTitle"),
        "id must be the first field in the serialized record so parse_output's regex matches",
    );
}

#[test]
fn notes_with_four_fields_are_skipped() {
    let raw = "<<<NOTE_START>>>a<<<SEP>>>b<<<SEP>>>c<<<SEP>>>d<<<NOTE_END>>>";
    assert!(parse_output(raw).unwrap().is_empty());
}

#[test]
fn notes_without_an_id_are_not_keyed() {
    let notes = parse_output("<<<NOTE_START>>> <<<SEP>>>t<<<SEP>>>b<<<SEP>>>c<<<SEP>>>m<<<NOTE_END>>><<<NOTE_START>>>id<<<SEP>>>t<<<SEP>>>b<<<SEP>>>c<<<SEP>>>m<<<NOTE_END>>>").unwrap();
    assert_eq!(notes.len(), 2);
    assert!(!note_has_id(&notes[0]));
    assert!(note_has_id(&notes[1]));
}
