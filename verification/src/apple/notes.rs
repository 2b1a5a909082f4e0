//! Notes exported from Apple Notes.
//!
//! Each note carries its stable Apple-native id (`id of note`), used as the
//! key of the ingested record.

use crate::apple::framing::{field_lists_all, field_lists_within, records};
use crate::apple::{marked_field_lists, parse_records, produced_by, somes};
use crate::error::IngestionError;
use crate::text::{
    escape_quotes, escape_quotes_exec, owned, push_str, split_seq, string_views, trim_seq,
    trim_string,
};
use vstd::prelude::*;

verus! {

/// A single note extracted from Apple Notes.
pub struct Note {
    /// Apple-native stable id, e.g. `x-coredata://…/ICNote/p137`.
    pub id: String,
    pub title: String,
    pub body: String,
    pub created_at: String,
    pub modified_at: String,
}

/// Literal part of the Notes script.
pub open spec fn folder_head() -> Seq<char> {
    r#"set targetFolder to folder ""#@
}

/// Literal part of the Notes script.
pub open spec fn folder_tail() -> Seq<char> {
    r#""
            set noteList to every note of targetFolder"#@
}

/// Literal part of the Notes script.
pub open spec fn notes_head() -> Seq<char> {
    r#"tell application "Notes"
    "#@
}

/// Literal part of the Notes script.
pub open spec fn notes_tail() -> Seq<char> {
    r#"
    set output to ""
    repeat with n in noteList
        set noteBody to plaintext of n
        if length of noteBody > 20 then
            set noteId to (id of n) as string
            set noteTitle to name of n
            set noteCreated to (creation date of n) as string
            set noteModified to (modification date of n) as string
            set output to output & "<<<NOTE_START>>>" & noteId & "<<<SEP>>>" & noteTitle & "<<<SEP>>>" & noteBody & "<<<SEP>>>" & noteCreated & "<<<SEP>>>" & noteModified & "<<<NOTE_END>>>"
        end if
    end repeat
    return output
end tell"#@
}

/// The Notes export script for one folder (`Some`) or every note.
pub open spec fn notes_script(folder: Option<Seq<char>>) -> Seq<char> {
    let folder_filter = match folder {
        Some(name) => folder_head() + escape_quotes(name) + folder_tail(),
        None => "set noteList to every note"@,
    };
    notes_head() + folder_filter + notes_tail()
}

/// The field lists of the five-field note records of `raw`.
pub open spec fn note_field_lists(raw: Seq<char>) -> Seq<Seq<Seq<char>>> {
    field_lists_within(records(raw, "<<<NOTE_START>>>"@, "<<<NOTE_END>>>"@), "<<<SEP>>>"@, 5, 5)
}

/// `n` is the note read from the five fields `f`.
pub open spec fn note_from(n: Note, f: Seq<Seq<char>>) -> bool {
    &&& n.id@ == trim_seq(f[0])
    &&& n.title@ == trim_seq(f[1])
    &&& n.body@ == trim_seq(f[2])
    &&& n.created_at@ == trim_seq(f[3])
    &&& n.modified_at@ == trim_seq(f[4])
}

/// The AppleScript that exports every note longer than 20 characters, of
/// one folder or of all of them.
pub fn build_script(folder: Option<&str>) -> (s: String)
    ensures
        s@ == notes_script(
            match folder {
                Some(n) => Some(n@),
                None => None,
            },
        ),
{
    let mut s = owned(notes_head_str());
    match folder {
        Some(name) => {
            push_str(&mut s, folder_head_str());
            let escaped = escape_quotes_exec(name);
            push_str(&mut s, escaped.as_str());
            push_str(&mut s, folder_tail_str());
        },
        None => {
            push_str(&mut s, "set noteList to every note");
        },
    }
    push_str(&mut s, notes_tail_str());
    s
}

/// The note held by a record's fields, when there are exactly five.
pub fn note_from_fields(fields: &[String]) -> (r: Option<Note>)
    ensures
        r is Some <==> fields@.len() == 5,
        r matches Some(n) ==> note_from(n, string_views(fields@)),
{
    if fields.len() != 5 {
        return None;
    }
    Some(
        Note {
            id: trim_string(fields[0].as_str()),
            title: trim_string(fields[1].as_str()),
            body: trim_string(fields[2].as_str()),
            created_at: trim_string(fields[3].as_str()),
            modified_at: trim_string(fields[4].as_str()),
        },
    )
}

/// The kept values of record-wise results line up with the five-field
/// lists.
proof fn lemma_note_somes(bodies: Seq<Seq<char>>, rets: Seq<Option<Note>>)
    requires
        rets.len() == field_lists_all(bodies, "<<<SEP>>>"@).len(),
        forall|j: int|
            0 <= j < rets.len() ==> {
                let f = #[trigger] field_lists_all(bodies, "<<<SEP>>>"@)[j];
                &&& (rets[j] is Some <==> f.len() == 5)
                &&& (rets[j] matches Some(n) ==> note_from(n, f))
            },
    ensures
        somes(rets).len() == field_lists_within(bodies, "<<<SEP>>>"@, 5, 5).len(),
        forall|k: int|
            0 <= k < somes(rets).len() ==> note_from(
                #[trigger] somes(rets)[k],
                field_lists_within(bodies, "<<<SEP>>>"@, 5, 5)[k],
            ),
    decreases bodies.len(),
{
    let sep = "<<<SEP>>>"@;
    if bodies.len() > 0 {
        let fa = field_lists_all(bodies, sep);
        let pa = field_lists_all(bodies.drop_last(), sep);
        assert forall|j: int| 0 <= j < rets.drop_last().len() implies {
            let f = #[trigger] field_lists_all(bodies.drop_last(), sep)[j];
            &&& (rets.drop_last()[j] is Some <==> f.len() == 5)
            &&& (rets.drop_last()[j] matches Some(n) ==> note_from(n, f))
        } by {
            assert(fa[j] == pa[j]);
            assert(rets.drop_last()[j] == rets[j]);
        }
        lemma_note_somes(bodies.drop_last(), rets.drop_last());
        let last = rets.last();
        assert(fa[rets.len() - 1] == split_seq(bodies.last(), sep));
        let pw = field_lists_within(bodies.drop_last(), sep, 5, 5);
        let ps = somes(rets.drop_last());
        match last {
            Some(n) => {
                assert forall|k: int| 0 <= k < somes(rets).len() implies note_from(
                    #[trigger] somes(rets)[k],
                    field_lists_within(bodies, sep, 5, 5)[k],
                ) by {
                    if k < ps.len() {
                        assert(somes(rets)[k] == ps[k]);
                        assert(field_lists_within(bodies, sep, 5, 5)[k] == pw[k]);
                    }
                }
            },
            None => {},
        }
    }
}

/// Parse the framed AppleScript output into notes; records without exactly
/// five fields are skipped.
pub fn parse_output(raw: &str) -> (r: Result<Vec<Note>, IngestionError>)
    ensures
        r matches Ok(notes) && notes@.len() == note_field_lists(raw@).len() && forall|k: int|
            0 <= k < notes@.len() ==> note_from(#[trigger] notes@[k], note_field_lists(raw@)[k]),
{
    proof {
        reveal_strlit("NOTE");
        reveal_strlit("<<<");
        reveal_strlit("_START>>>");
        reveal_strlit("_END>>>");
        reveal_strlit("<<<NOTE_START>>>");
        reveal_strlit("<<<NOTE_END>>>");
        assert("<<<"@ + "NOTE"@ + "_START>>>"@ =~= "<<<NOTE_START>>>"@);
        assert("<<<"@ + "NOTE"@ + "_END>>>"@ =~= "<<<NOTE_END>>>"@);
    }
    let r = parse_records(raw, "NOTE", note_from_fields);
    proof {
        let out = r->Ok_0;
        let fl = marked_field_lists(raw@, "NOTE"@);
        let rets = choose|rets: Seq<Option<Note>>|
            {
                &&& rets.len() == fl.len()
                &&& forall|j: int|
                    0 <= j < rets.len() ==> produced_by(note_from_fields, fl[j], #[trigger] rets[j])
                &&& out@ == somes(rets)
            };
        let bodies = records(raw@, "<<<NOTE_START>>>"@, "<<<NOTE_END>>>"@);
        assert forall|j: int| 0 <= j < rets.len() implies {
            let f = #[trigger] field_lists_all(bodies, "<<<SEP>>>"@)[j];
            &&& (rets[j] is Some <==> f.len() == 5)
            &&& (rets[j] matches Some(n) ==> note_from(n, f))
        } by {
            assert(produced_by(note_from_fields, fl[j], rets[j]));
        }
        lemma_note_somes(bodies, rets);
    }
    r
}

fn folder_head_str() -> (s: &'static str)
    ensures
        s@ == folder_head(),
{
    r#"set targetFolder to folder ""#
}

fn folder_tail_str() -> (s: &'static str)
    ensures
        s@ == folder_tail(),
{
    r#""
            set noteList to every note of targetFolder"#
}

fn notes_head_str() -> (s: &'static str)
    ensures
        s@ == notes_head(),
{
    r#"tell application "Notes"
    "#
}

fn notes_tail_str() -> (s: &'static str)
    ensures
        s@ == notes_tail(),
{
    r#"
    set output to ""
    repeat with n in noteList
        set noteBody to plaintext of n
        if length of noteBody > 20 then
            set noteId to (id of n) as string
            set noteTitle to name of n
            set noteCreated to (creation date of n) as string
            set noteModified to (modification date of n) as string
            set output to output & "<<<NOTE_START>>>" & noteId & "<<<SEP>>>" & noteTitle & "<<<SEP>>>" & noteBody & "<<<SEP>>>" & noteCreated & "<<<SEP>>>" & noteModified & "<<<NOTE_END>>>"
        end if
    end repeat
    return output
end tell"#
}
} // verus!
