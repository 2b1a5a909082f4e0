//! Reminders exported from Apple Reminders.
//!
//! The export script walks each list and reads the name, due date and
//! priority of its open reminders in bulk (one round-trip per property),
//! skipping completed ones.

use crate::apple::calendar::{flag_field, is_true_flag};
use crate::apple::framing::{
    field_records_from, find_field_records, lemma_field_records_len, trimmed_field,
};
use crate::error::IngestionError;
use crate::text::{
    chars_of, escape_quotes, escape_quotes_exec, owned, parse_i64, parse_i64_spec, push_str,
    trim_seq, trim_vec, views,
};
use vstd::prelude::*;

verus! {

/// A single reminder extracted from Apple Reminders.
pub struct Reminder {
    pub name: String,
    pub list: String,
    pub completed: bool,
    pub due_date: String,
    pub priority: i64,
}

/// Literal part of the Reminders script.
pub open spec fn reminders_head() -> Seq<char> {
    r#"tell application "Reminders"
    set output to ""
    set targetFilter to "#@
}

/// Literal part of the Reminders script.
pub open spec fn reminders_tail() -> Seq<char> {
    r#"
    repeat with lst in lists
        set lstName to name of lst
        if targetFilter is "" or targetFilter is equal to lstName then
            set allNames to name of reminders of lst whose completed is false
            set remCount to count of allNames
            if remCount > 0 then
                set allDues to due date of reminders of lst whose completed is false
                set allPrios to priority of reminders of lst whose completed is false
                repeat with i from 1 to remCount
                    set rName to item i of allNames
                    set rDue to item i of allDues
                    set rPrio to item i of allPrios
                    if rDue is missing value then
                        set rDueStr to "none"
                    else
                        set rDueStr to rDue as string
                    end if
                    if rPrio is missing value then set rPrio to 0
                    set output to output & "<<<REM_START>>>" & rName & "<<<SEP>>>" & lstName & "<<<SEP>>>false<<<SEP>>>" & rDueStr & "<<<SEP>>>" & rPrio & "<<<REM_END>>>"
                end repeat
            end if
        end if
    end repeat
    return output
end tell"#@
}

/// The Reminders export script: every list, or only the list named `list`.
pub open spec fn reminders_script(list: Option<Seq<char>>) -> Seq<char> {
    let target_filter = match list {
        Some(name) => seq!['"'] + escape_quotes(name) + seq!['"'],
        None => seq!['"', '"'],
    };
    reminders_head() + target_filter + reminders_tail()
}

/// The five fields of each reminder record of `raw`, each field ending at
/// the first separator (the last at the first end marker).
pub open spec fn reminder_field_lists(raw: Seq<char>) -> Seq<Seq<Seq<char>>> {
    field_records_from(raw, "<<<REM_START>>>"@, "<<<SEP>>>"@, "<<<REM_END>>>"@, 5, 0)
}

/// The priority field's value: its trimmed text parsed as `i64`, else 0.
pub open spec fn priority_of(f: Seq<char>) -> i64 {
    match parse_i64_spec(trim_seq(f)) {
        Some(v) => v,
        None => 0,
    }
}

/// `r` is the reminder read from the five fields `f`.
pub open spec fn reminder_from(r: Reminder, f: Seq<Seq<char>>) -> bool {
    &&& r.name@ == trim_seq(f[0])
    &&& r.list@ == trim_seq(f[1])
    &&& r.completed == is_true_flag(f[2])
    &&& r.due_date@ == trim_seq(f[3])
    &&& r.priority == priority_of(f[4])
}

/// The AppleScript that exports the open reminders of every list, or of the
/// list named `list` (matched by name inside the loop, so a missing list
/// yields nothing instead of an error).
pub fn build_script(list: Option<&str>) -> (s: String)
    ensures
        s@ == reminders_script(
            match list {
                Some(n) => Some(n@),
                None => None,
            },
        ),
{
    let mut s = owned(reminders_head_str());
    match list {
        Some(name) => {
            let escaped = escape_quotes_exec(name);
            let mut q = String::new();
            crate::text::push_char(&mut q, '"');
            push_str(&mut q, escaped.as_str());
            crate::text::push_char(&mut q, '"');
            push_str(&mut s, q.as_str());
        },
        None => {
            let mut q = String::new();
            crate::text::push_char(&mut q, '"');
            crate::text::push_char(&mut q, '"');
            push_str(&mut s, q.as_str());
        },
    }
    push_str(&mut s, reminders_tail_str());
    s
}

/// Parse the framed AppleScript output into reminders.
pub fn parse_output(raw: &str) -> (r: Result<Vec<Reminder>, IngestionError>)
    ensures
        r matches Ok(rems) && rems@.len() == reminder_field_lists(raw@).len() && forall|k: int|
            0 <= k < rems@.len() ==> reminder_from(#[trigger] rems@[k], reminder_field_lists(raw@)[k]),
{
    let rv = chars_of(raw);
    let start = chars_of("<<<REM_START>>>");
    let sepv = chars_of("<<<SEP>>>");
    let end = chars_of("<<<REM_END>>>");
    let lists = find_field_records(&rv, &start, &sepv, &end, 5);
    let ghost fl = reminder_field_lists(raw@);
    proof {
        assert(rv@ == raw@);
        assert(field_records_from(rv@, start@, sepv@, end@, 5, 0) == fl);
    }
    let mut rems: Vec<Reminder> = Vec::new();
    let mut k: usize = 0;
    while k < lists.len()
        invariant
            k <= lists.len(),
            fl == reminder_field_lists(raw@),
            lists@.len() == fl.len(),
            forall|j: int| 0 <= j < lists@.len() ==> views(#[trigger] lists@[j]@) == fl[j],
            rems@.len() == k,
            forall|j: int| 0 <= j < k ==> reminder_from(#[trigger] rems@[j], fl[j]),
        decreases lists.len() - k,
    {
        let f = &lists[k];
        proof {
            assert(views(f@) == fl[k as int]);
            assert(views(f@).len() == f@.len());
            lemma_field_records_len(
                raw@,
                "<<<REM_START>>>"@,
                "<<<SEP>>>"@,
                "<<<REM_END>>>"@,
                5,
                0,
                k as int,
            );
        }
        let prio_text = trim_vec(&f[4]);
        let priority = match parse_i64(&prio_text) {
            Some(v) => v,
            None => 0,
        };
        let rem = Reminder {
            name: trimmed_field(&f[0]),
            list: trimmed_field(&f[1]),
            completed: flag_field(&f[2]),
            due_date: trimmed_field(&f[3]),
            priority,
        };
        rems.push(rem);
        k += 1;
    }
    Ok(rems)
}

fn reminders_head_str() -> (s: &'static str)
    ensures
        s@ == reminders_head(),
{
    r#"tell application "Reminders"
    set output to ""
    set targetFilter to "#
}

fn reminders_tail_str() -> (s: &'static str)
    ensures
        s@ == reminders_tail(),
{
    r#"
    repeat with lst in lists
        set lstName to name of lst
        if targetFilter is "" or targetFilter is equal to lstName then
            set allNames to name of reminders of lst whose completed is false
            set remCount to count of allNames
            if remCount > 0 then
                set allDues to due date of reminders of lst whose completed is false
                set allPrios to priority of reminders of lst whose completed is false
                repeat with i from 1 to remCount
                    set rName to item i of allNames
                    set rDue to item i of allDues
                    set rPrio to item i of allPrios
                    if rDue is missing value then
                        set rDueStr to "none"
                    else
                        set rDueStr to rDue as string
                    end if
                    if rPrio is missing value then set rPrio to 0
                    set output to output & "<<<REM_START>>>" & rName & "<<<SEP>>>" & lstName & "<<<SEP>>>false<<<SEP>>>" & rDueStr & "<<<SEP>>>" & rPrio & "<<<REM_END>>>"
                end repeat
            end if
        end if
    end repeat
    return output
end tell"#
}
} // verus!
