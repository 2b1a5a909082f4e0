use fold_ingestion::apple::{
    after_attempt, app_name_from_label, content_hash, format_timeout_message,
    is_invalid_connection_error, parse_records, preflight_permission, preflight_verdict,
    tcc_probe_script, RunStep, TccPreflight,
};
use fold_ingestion::error::IngestionError;
use std::cell::Cell;

#[test]
fn app_name_from_label_strips_dot_app_suffix() {
    assert_eq!(app_name_from_label("Calendar.app"), "Calendar");
    assert_eq!(app_name_from_label("Contacts.app"), "Contacts");
    assert_eq!(app_name_from_label("Photos.app"), "Photos");
}

#[test]
fn app_name_from_label_passes_through_bare_names() {
    assert_eq!(app_name_from_label("Calendar"), "Calendar");
    assert_eq!(app_name_from_label(""), "");
}

#[test]
fn tcc_probe_script_registered_for_each_automation_app() {
    for (app_label, expected_app) in [
        ("Contacts.app", "Contacts"),
        ("Notes.app", "Notes"),
        ("Calendar.app", "Calendar"),
        ("Reminders.app", "Reminders"),
        ("Photos.app", "Photos"),
    ] {
        let probe = match tcc_probe_script(app_label) {
            Some(p) => p,
            None => panic!("{} probe registered", app_label),
        };
        assert!(
            probe.contains("count"),
            "{} probe must use count-style aggregate read, got: {}",
            app_label,
            probe,
        );
        assert!(
            probe.contains(&format!(r#"tell application "{}""#, expected_app)),
            "{} probe must address its app, got: {}",
            app_label,
            probe,
        );
    }
}

#[test]
fn tcc_probe_script_unregistered_apps_return_none() {
    assert!(tcc_probe_script("UnregisteredApp.app").is_none());
    assert!(tcc_probe_script("").is_none());
}

#[test]
fn preflight_permission_passes_through_for_unregistered_app() {
    let calls = Cell::new(0);
    let result = preflight_permission("UnregisteredApp.app", |_script: &str, _label: &str| {
        calls.set(calls.get() + 1);
        Err(IngestionError::Extraction("must not run".to_string()))
    });
    assert!(result.is_ok());
    assert_eq!(calls.get(), 0);
}

#[test]
fn preflight_permission_runs_registered_probe_and_wraps_errors() {
    for (app_label, expected_stem) in [
        ("Contacts.app", "Contacts"),
        ("Notes.app", "Notes"),
        ("Calendar.app", "Calendar"),
        ("Reminders.app", "Reminders"),
        ("Photos.app", "Photos"),
    ] {
        let result = preflight_permission(app_label, |script: &str, label: &str| {
            assert!(script.contains("count"));
            assert_eq!(label, app_label);
            Err(IngestionError::Extraction("osascript timed out after 5 seconds".to_string()))
        });
        match result {
            Ok(()) => panic!("a failed probe must not pass"),
            Err(IngestionError::Extraction(msg)) => {
                assert!(msg.contains(expected_stem), "{app_label} error must name the app stem: {msg}");
                assert!(msg.contains("Privacy & Security"), "{app_label}: {msg}");
                assert!(msg.contains("Automation"), "{app_label}: {msg}");
            }
            Err(other) => panic!("{app_label} returned unexpected error variant: {other:?}"),
        }
        let ok = preflight_permission(app_label, |_s: &str, _l: &str| Ok(String::from("3")));
        assert!(ok.is_ok());
    }
}

#[test]
fn is_invalid_connection_error_detects_dash_609() {
    assert!(is_invalid_connection_error(
        "AppleScript error (Calendar.app): 312:319: execution error: \
         Calendar got an error: Connection is invalid. (-609)"
    ));
    assert!(is_invalid_connection_error("anything (-609) anywhere"));
    assert!(!is_invalid_connection_error(
        "AppleScript error: Application isn't running. (-600)"
    ));
    assert!(!is_invalid_connection_error(
        "osascript timed out after 5 seconds talking to Calendar.app"
    ));
    assert!(!is_invalid_connection_error(""));
}

#[test]
fn format_timeout_message_passed_preflight_does_not_blame_permission() {
    let msg = format_timeout_message(
        std::time::Duration::from_secs(30).as_secs(),
        "Contacts.app",
        TccPreflight::Passed,
    );
    assert!(msg.contains("30 seconds"), "message must report the actual timeout for triage: {msg}");
    assert!(msg.contains("Contacts.app"), "message must name the app for triage: {msg}");
    assert!(!msg.contains("Automation permission"), "{msg}");
    assert!(!msg.contains("Privacy & Security"), "{msg}");
    assert!(msg.contains("open -a Contacts"), "{msg}");
}

#[test]
fn format_timeout_message_unknown_preflight_keeps_permission_hint() {
    let msg = format_timeout_message(
        std::time::Duration::from_secs(300).as_secs(),
        "Notes.app",
        TccPreflight::Unknown,
    );
    assert!(msg.contains("300 seconds"), "message must report the actual timeout: {msg}");
    assert!(msg.contains("Notes.app"), "message must name the app: {msg}");
    assert!(msg.contains("Automation permission"), "{msg}");
    assert!(msg.contains("Privacy & Security"), "{msg}");
}

#[test]
fn parse_records_iterates_record_boundaries_and_splits_on_sep() {
    let raw = "<<<X_START>>>a<<<SEP>>>b<<<SEP>>>c<<<X_END>>>\
               <<<X_START>>>d<<<SEP>>>e<<<SEP>>>f<<<X_END>>>";
    let out = parse_records(raw, "X", |fields: &[String]| {
        assert_eq!(fields.len(), 3);
        Some(format!("{}|{}|{}", fields[0], fields[1], fields[2]))
    })
    .unwrap();
    assert_eq!(out, vec!["a|b|c".to_string(), "d|e|f".to_string()]);
}

#[test]
fn parse_records_skips_records_when_closure_returns_none() {
    let raw = "<<<R_START>>>keep<<<SEP>>>1<<<R_END>>>\
               <<<R_START>>>drop<<<SEP>>>1<<<R_END>>>\
               <<<R_START>>>keep<<<SEP>>>2<<<R_END>>>";
    let out = parse_records(raw, "R", |fields: &[String]| {
        if fields[0] == "drop" {
            return None;
        }
        Some(fields[1].to_string())
    })
    .unwrap();
    assert_eq!(out, vec!["1".to_string(), "2".to_string()]);
}

#[test]
fn parse_records_returns_empty_for_empty_or_unmatched_input() {
    let invoked = Cell::new(0);
    let out = parse_records::<(), _>("", "X", |_: &[String]| {
        invoked.set(invoked.get() + 1);
        None
    })
    .unwrap();
    assert!(out.is_empty());
    assert_eq!(invoked.get(), 0);

    let out2 = parse_records::<(), _>("nothing useful here", "X", |_: &[String]| {
        invoked.set(invoked.get() + 1);
        None
    })
    .unwrap();
    assert!(out2.is_empty());
    assert_eq!(invoked.get(), 0);
}

#[test]
fn parse_records_passes_variable_field_counts_to_closure() {
    let raw = "<<<E_START>>>a<<<SEP>>>b<<<E_END>>>\
               <<<E_START>>>x<<<SEP>>>y<<<SEP>>>z<<<E_END>>>";
    let lengths: Vec<usize> = parse_records(raw, "E", |fields: &[String]| Some(fields.len())).unwrap();
    assert_eq!(lengths, vec![2, 3]);
}

#[test]
fn dash_609_first_attempt_is_retried_then_reported_as_unreachable() {
    let err = || Err(IngestionError::Extraction("execution error: Connection is invalid. (-609)".to_string()));
    assert!(matches!(after_attempt("Calendar.app", false, err()), RunStep::Revive));
    match after_attempt("Calendar.app", true, err()) {
        RunStep::Finish(Err(IngestionError::Extraction(m))) => {
            assert_eq!(
                m,
                "Calendar could not be reached. Open Calendar manually, wait for it to load, then retry."
            );
            assert!(!m.contains("(-609)"));
        }
        _ => panic!("second -609 must finish with the reachability message"),
    }
    match after_attempt("Calendar.app", false, Ok("out".to_string())) {
        RunStep::Finish(Ok(s)) => assert_eq!(s, "out"),
        _ => panic!("success is final"),
    }
    match after_attempt("Calendar.app", false, Err(IngestionError::Extraction("(-600)".to_string()))) {
        RunStep::Finish(Err(IngestionError::Extraction(m))) => assert_eq!(m, "(-600)"),
        _ => panic!("other errors are final"),
    }
}

#[test]
fn preflight_verdict_passes_other_errors_on() {
    let r = preflight_verdict("Notes.app", Err(IngestionError::InvalidInput("x".to_string())));
    assert!(matches!(r, Err(IngestionError::InvalidInput(m)) if m == "x"));
    let r = preflight_verdict("Notes.app", Err(IngestionError::Extraction("boom".to_string())));
    match r {
        Err(IngestionError::Extraction(m)) => assert_eq!(
            m,
            "Notes access not granted (probe: boom). Grant access in System Settings \u{2192} Privacy & Security \u{2192} Automation, then retry."
        ),
        _ => panic!("extraction failures become the Automation hint"),
    }
}

#[test]
fn content_hash_is_first_eight_digest_bytes_in_hex() {
    // SHA-256("abc") = ba7816bf8f01cfea414140de5dae2223...
    assert_eq!(content_hash("abc"), "ba7816bf8f01cfea");
    assert_eq!(content_hash("").len(), 16);
    assert_ne!(content_hash("a"), content_hash("b"));
}
