//! Apple data import: the AppleScript programs that export Notes,
//! Reminders, Photos, Contacts and Calendar data, and the parsers for the
//! framed text they print.

pub mod calendar;
pub mod contacts;
pub mod framing;
pub mod import_job;
pub mod notes;
pub mod photos;
pub mod records;
pub mod reminders;
pub mod sync_config;

use crate::apple::framing::{field_lists_all, field_strings, framed_field_lists_all, records};
pub use crate::digest::content_hash;
use crate::error::IngestionError;
use crate::text::{chars_of, contains_exec, contains_seq, decimal, decimal_string, owned, push_str, str_eq, string_views, strip_suffix_or_self, strip_suffix_or_self_exec};
use vstd::prelude::*;

verus! {

/// `c` is a letter, digit or underscore in ASCII: it stands for itself in
/// a record pattern.
pub open spec fn is_word_char(c: char) -> bool {
    ('a' <= c <= 'z') || ('A' <= c <= 'Z') || ('0' <= c <= '9') || c == '_'
}

/// A record marker made only of word characters.
pub open spec fn literal_marker(m: Seq<char>) -> bool {
    forall|i: int| 0 <= i < m.len() ==> is_word_char(#[trigger] m[i])
}

/// `<<<{marker}_START>>>`
pub open spec fn marker_start(m: Seq<char>) -> Seq<char> {
    "<<<"@ + m + "_START>>>"@
}

/// `<<<{marker}_END>>>`
pub open spec fn marker_end(m: Seq<char>) -> Seq<char> {
    "<<<"@ + m + "_END>>>"@
}

/// The field lists of every `marker` record of `raw`.
pub open spec fn marked_field_lists(raw: Seq<char>, m: Seq<char>) -> Seq<Seq<Seq<char>>> {
    field_lists_all(records(raw, marker_start(m), marker_end(m)), "<<<SEP>>>"@)
}

/// The values of the `Some` entries, in order.
pub open spec fn somes<T>(rets: Seq<Option<T>>) -> Seq<T>
    decreases rets.len(),
{
    if rets.len() == 0 {
        seq![]
    } else {
        match rets.last() {
            Some(v) => somes(rets.drop_last()).push(v),
            None => somes(rets.drop_last()),
        }
    }
}

/// `ret` is what `f` may return on a slice holding the strings `fields`.
pub open spec fn produced_by<T, F: Fn(&[String]) -> Option<T>>(
    f: F,
    fields: Seq<Seq<char>>,
    ret: Option<T>,
) -> bool {
    exists|a: &[String]| string_views(a@) == fields && call_ensures(f, (a,), ret)
}

fn wrap_marker(prefix: &str, m: &str, suffix: &str) -> (r: Vec<char>)
    ensures
        r@ == prefix@ + m@ + suffix@,
{
    let mut s = owned(prefix);
    push_str(&mut s, m);
    push_str(&mut s, suffix);
    chars_of(s.as_str())
}

/// Iterate the `<<<{marker}_START>>>…<<<{marker}_END>>>` records of `raw`,
/// split each on `<<<SEP>>>`, and let `parse_record` turn the fields into a
/// value (or `None` to skip the record). Never fails.
pub fn parse_records<T, F: Fn(&[String]) -> Option<T>>(
    raw: &str,
    record_marker: &str,
    parse_record: F,
) -> (r: Result<Vec<T>, IngestionError>)
    requires
        literal_marker(record_marker@),
        forall|a: &[String]| call_requires(parse_record, (a,)),
    ensures
        r matches Ok(out) && exists|rets: Seq<Option<T>>|
            {
                &&& rets.len() == marked_field_lists(raw@, record_marker@).len()
                &&& forall|j: int|
                    0 <= j < rets.len() ==> produced_by(
                        parse_record,
                        marked_field_lists(raw@, record_marker@)[j],
                        #[trigger] rets[j],
                    )
                &&& out@ == somes(rets)
            },
{
    let rv = chars_of(raw);
    let start = wrap_marker("<<<", record_marker, "_START>>>");
    let end = wrap_marker("<<<", record_marker, "_END>>>");
    let sepv = chars_of("<<<SEP>>>");
    proof {
        reveal_strlit("<<<SEP>>>");
    }
    let lists = framed_field_lists_all(&rv, &start, &end, &sepv);
    let ghost fl = marked_field_lists(raw@, record_marker@);
    let ghost mut rets: Seq<Option<T>> = seq![];
    let mut out: Vec<T> = Vec::new();
    let mut k: usize = 0;
    while k < lists.len()
        invariant
            k <= lists.len(),
            crate::apple::framing::lists_view(lists@, fl),
            forall|a: &[String]| call_requires(parse_record, (a,)),
            rets.len() == k,
            forall|j: int| 0 <= j < k ==> produced_by(parse_record, fl[j], #[trigger] rets[j]),
            out@ == somes(rets),
        decreases lists.len() - k,
    {
        let strs = field_strings(&lists[k]);
        let slice = strs.as_slice();
        let v = parse_record(slice);
        proof {
            assert(string_views(slice@) == fl[k as int]);
            let old_rets = rets;
            rets = rets.push(v);
            assert(rets.drop_last() =~= old_rets);
            assert(produced_by(parse_record, fl[k as int], v));
            assert forall|j: int| 0 <= j < k + 1 implies produced_by(
                parse_record,
                fl[j],
                #[trigger] rets[j],
            ) by {
                if j < k {
                    assert(rets[j] == old_rets[j]);
                }
            }
        }
        match v {
            Some(x) => {
                out.push(x);
            },
            None => {},
        }
        k += 1;
    }
    Ok(out)
}

// ---------------------------------------------------------------------------
// Running osascript: probes, retries and error messages
// ---------------------------------------------------------------------------

/// Whether the caller has just verified TCC Automation permission for the
/// target app. It only changes the wording of a timeout message.
#[derive(Clone, Copy, Debug, PartialEq, Eq, Structural)]
pub enum TccPreflight {
    Unknown,
    Passed,
}

/// The bare app name of a `"X.app"` label; other labels are unchanged.
pub open spec fn app_name(label: Seq<char>) -> Seq<char> {
    strip_suffix_or_self(label, ".app"@)
}

/// Translate a `"X.app"` label into the bare `"X"` form expected by
/// `open -a`. Labels without the `.app` suffix pass through unchanged.
pub fn app_name_from_label(app_label: &str) -> (r: String)
    ensures
        r@ == app_name(app_label@),
{
    strip_suffix_or_self_exec(app_label, ".app")
}

/// The permission probe registered for the app labelled `label`: a
/// `count`-style aggregate read that finishes in milliseconds.
pub open spec fn probe_for(label: Seq<char>) -> Option<Seq<char>> {
    if label == "Contacts.app"@ {
        Some(r#"tell application "Contacts" to count people"#@)
    } else if label == "Notes.app"@ {
        Some(r#"tell application "Notes" to count notes"#@)
    } else if label == "Calendar.app"@ {
        Some(r#"tell application "Calendar" to count calendars"#@)
    } else if label == "Reminders.app"@ {
        Some(r#"tell application "Reminders" to count lists"#@)
    } else if label == "Photos.app"@ {
        Some(r#"tell application "Photos" to count albums"#@)
    } else {
        None
    }
}

/// The side-effect-free AppleScript that confirms Automation access for
/// `app_label`, or `None` for apps without a registered probe.
pub fn tcc_probe_script(app_label: &str) -> (r: Option<&'static str>)
    ensures
        r matches Some(s) ==> probe_for(app_label@) == Some(s@),
        r is None <==> probe_for(app_label@) is None,
{
    if str_eq(app_label, "Contacts.app") {
        Some(r#"tell application "Contacts" to count people"#)
    } else if str_eq(app_label, "Notes.app") {
        Some(r#"tell application "Notes" to count notes"#)
    } else if str_eq(app_label, "Calendar.app") {
        Some(r#"tell application "Calendar" to count calendars"#)
    } else if str_eq(app_label, "Reminders.app") {
        Some(r#"tell application "Reminders" to count lists"#)
    } else if str_eq(app_label, "Photos.app") {
        Some(r#"tell application "Photos" to count albums"#)
    } else {
        None
    }
}

/// The runner's message carries AppleScript error -609 ("Connection is
/// invalid").
pub open spec fn is_invalid_connection(msg: Seq<char>) -> bool {
    contains_seq(msg, "(-609)"@)
}

/// Recognise osascript's `-609 Connection is invalid` failure marker in a
/// runner error message.
pub fn is_invalid_connection_error(msg: &str) -> (r: bool)
    ensures
        r == is_invalid_connection(msg@),
{
    contains_exec(msg, "(-609)")
}

/// Message text: the start of a timeout message.
pub open spec fn timeout_lead() -> Seq<char> {
    r#"osascript timed out after "#@
}

/// Message text: the text between the timeout and the app label.
pub open spec fn timeout_mid() -> Seq<char> {
    r#" seconds talking to "#@
}

/// Message text: the explanation after a passed probe, up to the app name.
pub open spec fn passed_mid() -> Seq<char> {
    r#". The TCC permission probe just before this run reported access was granted, so the most likely cause is the app being unresponsive (often iCloud sync on a fresh install). Try `open -a "#@
}

/// Message text: the end of the message after a passed probe.
pub open spec fn passed_tail() -> Seq<char> {
    r#"` and wait for sync to settle, then retry the import."#@
}

/// Message text: the end of the message when no probe ran.
pub open spec fn unknown_tail() -> Seq<char> {
    r#". The app may be unresponsive, syncing with iCloud, or missing Automation permission. Grant access in System Settings → Privacy & Security → Automation (and Full Disk Access for Photos.app)."#@
}

/// Message text: the text after the app name when the app cannot be reached.
pub open spec fn unreachable_mid() -> Seq<char> {
    r#" could not be reached. Open "#@
}

/// Message text: the end of the message when the app cannot be reached.
pub open spec fn unreachable_tail() -> Seq<char> {
    r#" manually, wait for it to load, then retry."#@
}

/// Message text: the text after the app name when the probe failed.
pub open spec fn denied_mid() -> Seq<char> {
    r#" access not granted (probe: "#@
}

/// Message text: the end of the message when the probe failed.
pub open spec fn denied_tail() -> Seq<char> {
    r#"). Grant access in System Settings → Privacy & Security → Automation, then retry."#@
}

/// The user-facing message for an osascript timeout after `secs` seconds
/// talking to `label`.
pub open spec fn timeout_message(secs: nat, label: Seq<char>, preflight: TccPreflight) -> Seq<
    char,
> {
    let lead = timeout_lead() + decimal(secs) + timeout_mid() + label;
    match preflight {
        TccPreflight::Passed => lead + passed_mid() + app_name(label) + passed_tail(),
        TccPreflight::Unknown => lead + unknown_tail(),
    }
}

/// Format the user-facing message for an osascript timeout. After a passed
/// permission probe it names app unresponsiveness and a recovery step;
/// otherwise it keeps the permission hint.
pub fn format_timeout_message(timeout_secs: u64, app_label: &str, preflight: TccPreflight) -> (r:
    String)
    ensures
        r@ == timeout_message(timeout_secs as nat, app_label@, preflight),
{
    let mut s = owned(timeout_lead_str());
    let digits = decimal_string(timeout_secs);
    push_str(&mut s, digits.as_str());
    push_str(&mut s, timeout_mid_str());
    push_str(&mut s, app_label);
    match preflight {
        TccPreflight::Passed => {
            push_str(&mut s, passed_mid_str());
            let name = app_name_from_label(app_label);
            push_str(&mut s, name.as_str());
            push_str(&mut s, passed_tail_str());
        },
        TccPreflight::Unknown => {
            push_str(&mut s, unknown_tail_str());
        },
    }
    s
}

/// The message that replaces a second -609 failure.
pub open spec fn unreachable_message(label: Seq<char>) -> Seq<char> {
    app_name(label) + unreachable_mid() + app_name(label) + unreachable_tail()
}

/// What to do after one osascript attempt.
pub enum RunStep {
    /// Re-launch the app through Apple Events and run the script once more.
    Revive,
    /// Hand this result to the caller.
    Finish(Result<String, IngestionError>),
}

/// The step that follows an attempt whose outcome is `result`: a first
/// attempt that failed with -609 is retried once; a retried attempt that
/// fails with -609 again is reported as an unreachable app; any other
/// outcome is final as it is.
pub fn after_attempt(app_label: &str, retried: bool, result: Result<String, IngestionError>) -> (r:
    RunStep)
    ensures
        (result matches Err(IngestionError::Extraction(m)) && is_invalid_connection(m@)) ==> (
        if retried {
            r matches RunStep::Finish(Err(IngestionError::Extraction(u))) && u@
                == unreachable_message(app_label@)
        } else {
            r is Revive
        }),
        !(result matches Err(IngestionError::Extraction(m)) && is_invalid_connection(m@)) ==> r
            == RunStep::Finish(result),
{
    let dash_609 = match &result {
        Err(IngestionError::Extraction(m)) => is_invalid_connection_error(m.as_str()),
        _ => false,
    };
    if !dash_609 {
        return RunStep::Finish(result);
    }
    if !retried {
        return RunStep::Revive;
    }
    let name = app_name_from_label(app_label);
    let mut s = owned(name.as_str());
    push_str(&mut s, unreachable_mid_str());
    push_str(&mut s, name.as_str());
    push_str(&mut s, unreachable_tail_str());
    RunStep::Finish(Err(IngestionError::Extraction(s)))
}

/// The message for a failed permission probe whose runner said `inner`.
pub open spec fn denied_message(label: Seq<char>, inner: Seq<char>) -> Seq<char> {
    app_name(label) + denied_mid() + inner + denied_tail()
}

/// `r` is the verdict on a permission probe that returned `probe`: success
/// passes, an extraction failure becomes an actionable Automation hint that
/// quotes it, any other error is passed on.
pub open spec fn preflight_verdict_of(
    label: Seq<char>,
    probe: Result<String, IngestionError>,
    r: Result<(), IngestionError>,
) -> bool {
    match probe {
        Ok(_) => r is Ok,
        Err(IngestionError::Extraction(inner)) => r matches Err(IngestionError::Extraction(m))
            && m@ == denied_message(label, inner@),
        Err(other) => r == Err::<(), IngestionError>(other),
    }
}

/// The verdict on the permission probe of `app_label` that returned
/// `probe`.
pub fn preflight_verdict(app_label: &str, probe: Result<String, IngestionError>) -> (r: Result<
    (),
    IngestionError,
>)
    ensures
        preflight_verdict_of(app_label@, probe, r),
{
    match probe {
        Ok(_) => Ok(()),
        Err(IngestionError::Extraction(inner)) => {
            let name = app_name_from_label(app_label);
            let mut s = owned(name.as_str());
            push_str(&mut s, denied_mid_str());
            push_str(&mut s, inner.as_str());
            push_str(&mut s, denied_tail_str());
            Err(IngestionError::Extraction(s))
        },
        Err(other) => Err(other),
    }
}

/// Verify that the calling process has Automation access for `app_label`
/// before running a long extract. Apps without a registered probe pass at
/// once, without a call of `run_probe`; otherwise `run_probe` runs the
/// probe script for the app and its outcome is judged by
/// [`preflight_verdict`].
pub fn preflight_permission<F: Fn(&str, &str) -> Result<String, IngestionError>>(
    app_label: &str,
    run_probe: F,
) -> (r: Result<(), IngestionError>)
    requires
        forall|s: &str, l: &str| call_requires(run_probe, (s, l)),
    ensures
        probe_for(app_label@) is None ==> r is Ok,
        probe_for(app_label@) matches Some(script) ==> exists|s: &str, probe: Result<
            String,
            IngestionError,
        >|
            s@ == script && call_ensures(run_probe, (s, app_label), probe)
                && preflight_verdict_of(app_label@, probe, r),
{
    match tcc_probe_script(app_label) {
        None => Ok(()),
        Some(script) => {
            let probe = run_probe(script, app_label);
            preflight_verdict(app_label, probe)
        },
    }
}

fn timeout_lead_str() -> (s: &'static str)
    ensures
        s@ == timeout_lead(),
{
    r#"osascript timed out after "#
}

fn timeout_mid_str() -> (s: &'static str)
    ensures
        s@ == timeout_mid(),
{
    r#" seconds talking to "#
}

fn passed_mid_str() -> (s: &'static str)
    ensures
        s@ == passed_mid(),
{
    r#". The TCC permission probe just before this run reported access was granted, so the most likely cause is the app being unresponsive (often iCloud sync on a fresh install). Try `open -a "#
}

fn passed_tail_str() -> (s: &'static str)
    ensures
        s@ == passed_tail(),
{
    r#"` and wait for sync to settle, then retry the import."#
}

fn unknown_tail_str() -> (s: &'static str)
    ensures
        s@ == unknown_tail(),
{
    r#". The app may be unresponsive, syncing with iCloud, or missing Automation permission. Grant access in System Settings → Privacy & Security → Automation (and Full Disk Access for Photos.app)."#
}

fn unreachable_mid_str() -> (s: &'static str)
    ensures
        s@ == unreachable_mid(),
{
    r#" could not be reached. Open "#
}

fn unreachable_tail_str() -> (s: &'static str)
    ensures
        s@ == unreachable_tail(),
{
    r#" manually, wait for it to load, then retry."#
}

fn denied_mid_str() -> (s: &'static str)
    ensures
        s@ == denied_mid(),
{
    r#" access not granted (probe: "#
}

fn denied_tail_str() -> (s: &'static str)
    ensures
        s@ == denied_tail(),
{
    r#"). Grant access in System Settings → Privacy & Security → Automation, then retry."#
}

} // verus!
