//! Contacts exported from Apple Contacts (Address Book).
//!
//! Each contact carries its display name, organization, emails and phones
//! (comma-joined in the AppleScript output), birthday and note. Rows with
//! an empty name are dropped.

use crate::apple::framing::{
    comma_list, comma_list_exec, field_lists_within, framed_field_lists,
    lemma_field_lists_within_counts, lists_view, records, trimmed_field,
};
use crate::error::IngestionError;
use crate::text::{chars_of, owned, string_views, trim_seq, views};
use vstd::prelude::*;

verus! {

/// A single contact extracted from Apple Contacts.
pub struct Contact {
    pub full_name: String,
    pub organization: String,
    pub emails: Vec<String>,
    pub phones: Vec<String>,
    pub birthday: String,
    pub note: String,
}

/// Literal part of the Contacts script.
pub open spec fn contacts_script_text() -> Seq<char> {
    r#"tell application "Contacts"
    set output to ""
    repeat with p in every person
        try
            set fullName to name of p
        on error
            set fullName to ""
        end try
        if fullName is missing value then set fullName to ""
        if fullName is not "" then
            try
                set orgName to organization of p
                if orgName is missing value then set orgName to ""
            on error
                set orgName to ""
            end try
            set emailStr to ""
            try
                repeat with anEmail in emails of p
                    try
                        set eVal to value of anEmail
                        if eVal is not missing value and eVal is not "" then
                            if emailStr is "" then
                                set emailStr to eVal
                            else
                                set emailStr to emailStr & "," & eVal
                            end if
                        end if
                    end try
                end repeat
            end try
            set phoneStr to ""
            try
                repeat with aPhone in phones of p
                    try
                        set pVal to value of aPhone
                        if pVal is not missing value and pVal is not "" then
                            if phoneStr is "" then
                                set phoneStr to pVal
                            else
                                set phoneStr to phoneStr & "," & pVal
                            end if
                        end if
                    end try
                end repeat
            end try
            set bday to ""
            try
                set bd to birth date of p
                if bd is not missing value then set bday to bd as string
            end try
            set noteText to ""
            try
                set noteText to note of p
                if noteText is missing value then set noteText to ""
            end try
            set output to output & "<<<CON_START>>>" & fullName & "<<<SEP>>>" & orgName & "<<<SEP>>>" & emailStr & "<<<SEP>>>" & phoneStr & "<<<SEP>>>" & bday & "<<<SEP>>>" & noteText & "<<<CON_END>>>"
        end if
    end repeat
    return output
end tell"#@
}

/// The field lists whose first field is not blank, in order.
pub open spec fn named_lists(l: Seq<Seq<Seq<char>>>) -> Seq<Seq<Seq<char>>>
    decreases l.len(),
{
    if l.len() == 0 {
        seq![]
    } else {
        let prev = named_lists(l.drop_last());
        if trim_seq(l.last()[0]).len() > 0 {
            prev.push(l.last())
        } else {
            prev
        }
    }
}

/// The field lists of the six-field contact records of `raw` that have a name.
pub open spec fn contact_field_lists(raw: Seq<char>) -> Seq<Seq<Seq<char>>> {
    named_lists(
        field_lists_within(records(raw, "<<<CON_START>>>"@, "<<<CON_END>>>"@), "<<<SEP>>>"@, 6, 6),
    )
}

/// `c` is the contact read from the six fields `f`.
pub open spec fn contact_from(c: Contact, f: Seq<Seq<char>>) -> bool {
    &&& c.full_name@ == trim_seq(f[0])
    &&& c.organization@ == trim_seq(f[1])
    &&& string_views(c.emails@) == comma_list(trim_seq(f[2]))
    &&& string_views(c.phones@) == comma_list(trim_seq(f[3]))
    &&& c.birthday@ == trim_seq(f[4])
    &&& c.note@ == trim_seq(f[5])
}

/// The AppleScript that exports every named contact.
pub fn build_script() -> (s: String)
    ensures
        s@ == contacts_script_text(),
{
    owned(contacts_script_text_str())
}

/// The entries of a comma-separated list; empty input gives none, entries
/// are trimmed and empty ones dropped, order kept.
pub fn parse_multi(raw: &str) -> (out: Vec<String>)
    ensures
        string_views(out@) == comma_list(raw@),
{
    let v = chars_of(raw);
    comma_list_exec(&v)
}

/// Parse the framed AppleScript output into contacts. Records without
/// exactly six fields, or with a blank name, are skipped.
pub fn parse_output(raw: &str) -> (r: Result<Vec<Contact>, IngestionError>)
    ensures
        r matches Ok(contacts) && contacts@.len() == contact_field_lists(raw@).len() && forall|
            k: int,
        |
            0 <= k < contacts@.len() ==> contact_from(
                #[trigger] contacts@[k],
                contact_field_lists(raw@)[k],
            ),
{
    let rv = chars_of(raw);
    let start = chars_of("<<<CON_START>>>");
    let end = chars_of("<<<CON_END>>>");
    let sepv = chars_of("<<<SEP>>>");
    proof {
        reveal_strlit("<<<SEP>>>");
    }
    let lists = framed_field_lists(&rv, &start, &end, &sepv, 6, 6);
    let ghost fl = field_lists_within(
        records(raw@, "<<<CON_START>>>"@, "<<<CON_END>>>"@),
        "<<<SEP>>>"@,
        6,
        6,
    );
    proof {
        assert forall|k: int| 0 <= k < lists@.len() implies (#[trigger] lists@[k]).len() == 6 by {
            assert(views(lists@[k]@) == fl[k]);
            lemma_field_lists_within_counts(
                records(raw@, "<<<CON_START>>>"@, "<<<CON_END>>>"@),
                "<<<SEP>>>"@,
                6,
                6,
                k,
            );
        }
    }
    let mut contacts: Vec<Contact> = Vec::new();
    let mut k: usize = 0;
    while k < lists.len()
        invariant
            k <= lists.len(),
            lists_view(lists@, fl),
            forall|j: int| 0 <= j < lists@.len() ==> (#[trigger] lists@[j]).len() == 6,
            contacts@.len() == named_lists(fl.take(k as int)).len(),
            forall|j: int|
                0 <= j < contacts@.len() ==> contact_from(
                    #[trigger] contacts@[j],
                    named_lists(fl.take(k as int))[j],
                ),
        decreases lists.len() - k,
    {
        let f = &lists[k];
        proof {
            assert(views(f@) == fl[k as int]);
            assert(fl.take(k + 1).drop_last() =~= fl.take(k as int));
            assert(fl.take(k + 1).last() == fl[k as int]);
        }
        let full_name = trimmed_field(&f[0]);
        if !full_name.as_str().is_empty() {
            let ghost prev = named_lists(fl.take(k as int));
            let e = parse_multi(trimmed_field(&f[2]).as_str());
            let p = parse_multi(trimmed_field(&f[3]).as_str());
            let c = Contact {
                full_name,
                organization: trimmed_field(&f[1]),
                emails: e,
                phones: p,
                birthday: trimmed_field(&f[4]),
                note: trimmed_field(&f[5]),
            };
            contacts.push(c);
            proof {
                assert forall|j: int| 0 <= j < contacts@.len() implies contact_from(
                    #[trigger] contacts@[j],
                    named_lists(fl.take(k + 1))[j],
                ) by {
                    if j < prev.len() {
                        assert(named_lists(fl.take(k + 1))[j] == prev[j]);
                    }
                }
            }
        }
        k += 1;
    }
    proof {
        assert(fl.take(lists.len() as int) =~= fl);
    }
    Ok(contacts)
}

fn contacts_script_text_str() -> (s: &'static str)
    ensures
        s@ == contacts_script_text(),
{
    r#"tell application "Contacts"
    set output to ""
    repeat with p in every person
        try
            set fullName to name of p
        on error
            set fullName to ""
        end try
        if fullName is missing value then set fullName to ""
        if fullName is not "" then
            try
                set orgName to organization of p
                if orgName is missing value then set orgName to ""
            on error
                set orgName to ""
            end try
            set emailStr to ""
            try
                repeat with anEmail in emails of p
                    try
                        set eVal to value of anEmail
                        if eVal is not missing value and eVal is not "" then
                            if emailStr is "" then
                                set emailStr to eVal
                            else
                                set emailStr to emailStr & "," & eVal
                            end if
                        end if
                    end try
                end repeat
            end try
            set phoneStr to ""
            try
                repeat with aPhone in phones of p
                    try
                        set pVal to value of aPhone
                        if pVal is not missing value and pVal is not "" then
                            if phoneStr is "" then
                                set phoneStr to pVal
                            else
                                set phoneStr to phoneStr & "," & pVal
                            end if
                        end if
                    end try
                end repeat
            end try
            set bday to ""
            try
                set bd to birth date of p
                if bd is not missing value then set bday to bd as string
            end try
            set noteText to ""
            try
                set noteText to note of p
                if noteText is missing value then set noteText to ""
            end try
            set output to output & "<<<CON_START>>>" & fullName & "<<<SEP>>>" & orgName & "<<<SEP>>>" & emailStr & "<<<SEP>>>" & phoneStr & "<<<SEP>>>" & bday & "<<<SEP>>>" & noteText & "<<<CON_END>>>"
        end if
    end repeat
    return output
end tell"#
}
} // verus!
