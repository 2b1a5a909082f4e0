//! Calendar events exported from Apple Calendar.

use crate::apple::framing::{
    lemma_field_lists_within_counts,
    comma_list, comma_list_exec, field_lists_within, framed_field_lists, lists_view, records,
    trimmed_field,
};
use crate::error::IngestionError;
use crate::text::{
    chars_of, escape_quotes, escape_quotes_exec, push_str, str_eq, string_views, to_lowercase,
    trim_seq, unicode_lowercase, views,
};
use vstd::prelude::*;

verus! {

/// A single event extracted from Apple Calendar.
pub struct CalendarEvent {
    pub summary: String,
    pub start_time: String,
    pub end_time: String,
    pub location: String,
    pub description: String,
    pub calendar: String,
    pub all_day: bool,
    pub recurring: bool,
    /// Attendee email addresses extracted from the event; empty when the
    /// event has none or Calendar refuses access to the attendees list.
    pub attendees: Vec<String>,
}

/// Literal part of the Calendar script.
pub open spec fn specific_head() -> Seq<char> {
    r#"set targetCalendar to calendar ""#@
}

/// Literal part of the Calendar script.
pub open spec fn specific_mid() -> Seq<char> {
    r#""
    set calName to name of targetCalendar
    set eventList to (every event of targetCalendar whose start date ≥ (current date) - 30 * days and start date ≤ (current date) + 90 * days)
    "#@
}

/// Literal part of the Calendar script.
pub open spec fn all_head() -> Seq<char> {
    r#"repeat with cal in calendars
        set calName to name of cal
        set eventList to (every event of cal whose start date ≥ (current date) - 30 * days and start date ≤ (current date) + 90 * days)
        "#@
}

/// Literal part of the Calendar script.
pub open spec fn all_tail() -> Seq<char> {
    r#"
    end repeat"#@
}

/// Literal part of the Calendar script.
pub open spec fn script_head() -> Seq<char> {
    r#"tell application "Calendar"
    set output to ""
    "#@
}

/// Literal part of the Calendar script.
pub open spec fn script_tail() -> Seq<char> {
    r#"
    return output
end tell"#@
}

/// Literal part of the Calendar script.
pub open spec fn body_head() -> Seq<char> {
    r#"repeat with e in eventList
        set eSummary to summary of e
        set eStart to (start date of e) as string
        set eEnd to (end date of e) as string
        set eAllDay to allday event of e
        set eRecurring to false
        try
            set eRecurrence to recurrence of e
            if eRecurrence is not missing value then set eRecurring to true
        end try
        try
            set eLocation to location of e
            if eLocation is missing value then set eLocation to ""
        on error
            set eLocation to ""
        end try
        try
            set eDescription to description of e
            if eDescription is missing value then set eDescription to ""
        on error
            set eDescription to ""
        end try
        -- Attendees. Some account types (especially Exchange) block
        -- AppleScript access to the attendees list; we swallow the
        -- error and emit an empty string in that case. Attendee
        -- emails are comma-separated; the Rust parser splits and
        -- trims them.
        set eAttendees to ""
        try
            set attendeeList to attendees of e
            repeat with anAttendee in attendeeList
                try
                    set attendeeEmail to email of anAttendee
                    if attendeeEmail is not missing value and attendeeEmail is not "" then
                        if eAttendees is "" then
                            set eAttendees to attendeeEmail
                        else
                            set eAttendees to eAttendees & "," & attendeeEmail
                        end if
                    end if
                end try
            end repeat
        end try
        set eCalName to "#@
}

/// Literal part of the Calendar script.
pub open spec fn body_tail() -> Seq<char> {
    r#"
        set output to output & "<<<EVT_START>>>" & eSummary & "<<<SEP>>>" & eStart & "<<<SEP>>>" & eEnd & "<<<SEP>>>" & eLocation & "<<<SEP>>>" & eDescription & "<<<SEP>>>" & eCalName & "<<<SEP>>>" & eAllDay & "<<<SEP>>>" & eRecurring & "<<<SEP>>>" & eAttendees & "<<<EVT_END>>>"
    end repeat"#@
}

/// The per-event AppleScript block, reading the calendar name from the
/// variable `cal_name_var`.
pub open spec fn event_body(cal_name_var: Seq<char>) -> Seq<char> {
    body_head() + cal_name_var + body_tail()
}

/// The Calendar export script for one calendar (`Some`) or all of them.
pub open spec fn calendar_script(calendar: Option<Seq<char>>) -> Seq<char> {
    let calendars_loop = match calendar {
        Some(name) => specific_head() + escape_quotes(name) + specific_mid() + event_body(
            "calName"@,
        ),
        None => all_head() + event_body("calName"@) + all_tail(),
    };
    script_head() + calendars_loop + script_tail()
}

/// The start marker of an event record.
pub open spec fn evt_start() -> Seq<char> {
    "<<<EVT_START>>>"@
}

/// The end marker of an event record.
pub open spec fn evt_end() -> Seq<char> {
    "<<<EVT_END>>>"@
}

/// The field separator of all records.
pub open spec fn sep() -> Seq<char> {
    "<<<SEP>>>"@
}

/// A flag field reads `true` once trimmed and lowercased.
pub open spec fn is_true_flag(f: Seq<char>) -> bool {
    unicode_lowercase(trim_seq(f)) == "true"@
}

/// The field lists of the well-formed (8 or 9 field) event records of `raw`.
pub open spec fn event_field_lists(raw: Seq<char>) -> Seq<Seq<Seq<char>>> {
    field_lists_within(records(raw, evt_start(), evt_end()), sep(), 8, 9)
}

/// `e` is the event read from the fields `f`.
pub open spec fn event_from_fields(e: CalendarEvent, f: Seq<Seq<char>>) -> bool {
    &&& e.summary@ == trim_seq(f[0])
    &&& e.start_time@ == trim_seq(f[1])
    &&& e.end_time@ == trim_seq(f[2])
    &&& e.location@ == trim_seq(f[3])
    &&& e.description@ == trim_seq(f[4])
    &&& e.calendar@ == trim_seq(f[5])
    &&& e.all_day == is_true_flag(f[6])
    &&& e.recurring == is_true_flag(f[7])
    &&& string_views(e.attendees@) == if f.len() == 9 {
        comma_list(trim_seq(f[8]))
    } else {
        seq![]
    }
}

/// The inner AppleScript snippet that iterates `eventList` and appends one
/// `<<<EVT_START>>>…<<<EVT_END>>>` record per event to `output`.
pub fn event_body_block(cal_name_var: &str) -> (s: String)
    ensures
        s@ == event_body(cal_name_var@),
{
    let mut s = crate::text::owned(body_head_str());
    push_str(&mut s, cal_name_var);
    push_str(&mut s, body_tail_str());
    s
}

/// The AppleScript that exports the events of `calendar` (or of every
/// calendar) from 30 days back to 90 days ahead.
pub fn build_script(calendar: Option<&str>) -> (s: String)
    ensures
        s@ == calendar_script(
            match calendar {
                Some(n) => Some(n@),
                None => None,
            },
        ),
{
    let body = event_body_block("calName");
    let mut s = crate::text::owned(script_head_str());
    match calendar {
        Some(name) => {
            push_str(&mut s, specific_head_str());
            let escaped = escape_quotes_exec(name);
            push_str(&mut s, escaped.as_str());
            push_str(&mut s, specific_mid_str());
            push_str(&mut s, body.as_str());
        },
        None => {
            push_str(&mut s, all_head_str());
            push_str(&mut s, body.as_str());
            push_str(&mut s, all_tail_str());
        },
    }
    push_str(&mut s, script_tail_str());
    s
}

/// The comma-separated attendee list: empty input gives no attendee;
/// entries are trimmed and empty ones dropped; order and duplicates kept.
pub fn parse_attendees(raw: &str) -> (out: Vec<String>)
    ensures
        string_views(out@) == comma_list(raw@),
{
    let v = chars_of(raw);
    comma_list_exec(&v)
}

/// Whether the trimmed, lowercased field reads `true`.
pub fn flag_field(f: &Vec<char>) -> (b: bool)
    ensures
        b == is_true_flag(f@),
{
    let t = trimmed_field(f);
    let l = to_lowercase(t.as_str());
    str_eq(l.as_str(), "true")
}

/// Parse the framed AppleScript output into events. Records with other
/// than 8 or 9 fields are skipped; 8 fields is the format without
/// attendees.
pub fn parse_output(raw: &str) -> (r: Result<Vec<CalendarEvent>, IngestionError>)
    ensures
        r matches Ok(events) && events@.len() == event_field_lists(raw@).len() && forall|k: int|
            0 <= k < events@.len() ==> event_from_fields(
                #[trigger] events@[k],
                event_field_lists(raw@)[k],
            ),
{
    let rv = chars_of(raw);
    let start = chars_of("<<<EVT_START>>>");
    let end = chars_of("<<<EVT_END>>>");
    let sepv = chars_of("<<<SEP>>>");
    proof {
        reveal_strlit("<<<SEP>>>");
    }
    let lists = framed_field_lists(&rv, &start, &end, &sepv, 8, 9);
    let ghost fl = event_field_lists(raw@);
    proof {
        assert forall|k: int| 0 <= k < lists@.len() implies 8 <= (#[trigger] lists@[k]).len() <= 9 by {
            assert(views(lists@[k]@) == fl[k]);
            lemma_field_lists_within_counts(records(raw@, evt_start(), evt_end()), sep(), 8, 9, k);
        }
    }
    let mut events: Vec<CalendarEvent> = Vec::new();
    let mut k: usize = 0;
    while k < lists.len()
        invariant
            k <= lists.len(),
            lists_view(lists@, fl),
            forall|j: int| 0 <= j < lists@.len() ==> 8 <= (#[trigger] lists@[j]).len() <= 9,
            events@.len() == k,
            forall|j: int| 0 <= j < k ==> event_from_fields(#[trigger] events@[j], fl[j]),
        decreases lists.len() - k,
    {
        let f = &lists[k];
        proof {
            assert(views(f@) == fl[k as int]);
        }
        let attendees = if f.len() == 9 {
            let t = trimmed_field(&f[8]);
            parse_attendees(t.as_str())
        } else {
            Vec::new()
        };
        let e = CalendarEvent {
            summary: trimmed_field(&f[0]),
            start_time: trimmed_field(&f[1]),
            end_time: trimmed_field(&f[2]),
            location: trimmed_field(&f[3]),
            description: trimmed_field(&f[4]),
            calendar: trimmed_field(&f[5]),
            all_day: flag_field(&f[6]),
            recurring: flag_field(&f[7]),
            attendees,
        };
        proof {
            if f.len() != 9 {
                assert(string_views(e.attendees@) =~= seq![]);
            }
        }
        events.push(e);
        k += 1;
    }
    Ok(events)
}

fn specific_head_str() -> (s: &'static str)
    ensures
        s@ == specific_head(),
{
    r#"set targetCalendar to calendar ""#
}

fn specific_mid_str() -> (s: &'static str)
    ensures
        s@ == specific_mid(),
{
    r#""
    set calName to name of targetCalendar
    set eventList to (every event of targetCalendar whose start date ≥ (current date) - 30 * days and start date ≤ (current date) + 90 * days)
    "#
}

fn all_head_str() -> (s: &'static str)
    ensures
        s@ == all_head(),
{
    r#"repeat with cal in calendars
        set calName to name of cal
        set eventList to (every event of cal whose start date ≥ (current date) - 30 * days and start date ≤ (current date) + 90 * days)
        "#
}

fn all_tail_str() -> (s: &'static str)
    ensures
        s@ == all_tail(),
{
    r#"
    end repeat"#
}

fn script_head_str() -> (s: &'static str)
    ensures
        s@ == script_head(),
{
    r#"tell application "Calendar"
    set output to ""
    "#
}

fn script_tail_str() -> (s: &'static str)
    ensures
        s@ == script_tail(),
{
    r#"
    return output
end tell"#
}

fn body_head_str() -> (s: &'static str)
    ensures
        s@ == body_head(),
{
    r#"repeat with e in eventList
        set eSummary to summary of e
        set eStart to (start date of e) as string
        set eEnd to (end date of e) as string
        set eAllDay to allday event of e
        set eRecurring to false
        try
            set eRecurrence to recurrence of e
            if eRecurrence is not missing value then set eRecurring to true
        end try
        try
            set eLocation to location of e
            if eLocation is missing value then set eLocation to ""
        on error
            set eLocation to ""
        end try
        try
            set eDescription to description of e
            if eDescription is missing value then set eDescription to ""
        on error
            set eDescription to ""
        end try
        -- Attendees. Some account types (especially Exchange) block
        -- AppleScript access to the attendees list; we swallow the
        -- error and emit an empty string in that case. Attendee
        -- emails are comma-separated; the Rust parser splits and
        -- trims them.
        set eAttendees to ""
        try
            set attendeeList to attendees of e
            repeat with anAttendee in attendeeList
                try
                    set attendeeEmail to email of anAttendee
                    if attendeeEmail is not missing value and attendeeEmail is not "" then
                        if eAttendees is "" then
                            set eAttendees to attendeeEmail
                        else
                            set eAttendees to eAttendees & "," & attendeeEmail
                        end if
                    end if
                end try
            end repeat
        end try
        set eCalName to "#
}

fn body_tail_str() -> (s: &'static str)
    ensures
        s@ == body_tail(),
{
    r#"
        set output to output & "<<<EVT_START>>>" & eSummary & "<<<SEP>>>" & eStart & "<<<SEP>>>" & eEnd & "<<<SEP>>>" & eLocation & "<<<SEP>>>" & eDescription & "<<<SEP>>>" & eCalName & "<<<SEP>>>" & eAllDay & "<<<SEP>>>" & eRecurring & "<<<SEP>>>" & eAttendees & "<<<EVT_END>>>"
    end repeat"#
}
} // verus!
