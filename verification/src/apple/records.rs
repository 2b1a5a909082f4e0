//! What the ingestion records of exported Apple data are keyed by: the
//! text each content hash is taken of, and which notes are kept.

use crate::apple::calendar::CalendarEvent;
use crate::apple::contacts::Contact;
use crate::apple::notes::Note;
use crate::apple::reminders::Reminder;
use crate::digest::{content_hash, short_hash};
use crate::text::{owned, push_str};
use vstd::prelude::*;
use vstd::string::StringSliceAdditionalSpecFns;
use vstd::utf8::encode_utf8;

verus! {

/// `items` joined with `sep` between them.
pub open spec fn join_with(items: Seq<Seq<char>>, sep: Seq<char>) -> Seq<char>
    decreases items.len(),
{
    if items.len() == 0 {
        seq![]
    } else if items.len() == 1 {
        items[0]
    } else {
        join_with(items.drop_last(), sep) + sep + items.last()
    }
}

pub(crate) fn join_strings(items: &Vec<String>, sep: &str) -> (s: String)
    ensures
        s@ == join_with(items@.map_values(|x: String| x@), sep@),
{
    let ghost all = items@.map_values(|x: String| x@);
    let mut s = String::new();
    let mut i: usize = 0;
    while i < items.len()
        invariant
            i <= items.len(),
            all == items@.map_values(|x: String| x@),
            s@ == join_with(all.take(i as int), sep@),
        decreases items.len() - i,
    {
        proof {
            assert(all.take(i + 1).drop_last() =~= all.take(i as int));
        }
        if i > 0 {
            push_str(&mut s, sep);
        }
        push_str(&mut s, items[i].as_str());
        i += 1;
    }
    proof {
        assert(all.take(items.len() as int) =~= all);
    }
    s
}

/// The text a contact's content hash is taken of: name, emails and phones.
pub open spec fn contact_key(c: Contact) -> Seq<char> {
    c.full_name@ + "|"@ + join_with(c.emails@.map_values(|x: String| x@), ","@) + "|"@ + join_with(
        c.phones@.map_values(|x: String| x@),
        ","@,
    )
}

/// The text a contact's content hash is taken of.
pub fn contact_hash_input(c: &Contact) -> (s: String)
    ensures
        s@ == contact_key(*c),
{
    let mut s = owned(c.full_name.as_str());
    push_str(&mut s, "|");
    let emails = join_strings(&c.emails, ",");
    push_str(&mut s, emails.as_str());
    push_str(&mut s, "|");
    let phones = join_strings(&c.phones, ",");
    push_str(&mut s, phones.as_str());
    s
}

/// The content hash of a contact's record.
pub fn contact_record_hash(c: &Contact) -> (h: String)
    ensures
        h@ == short_hash(encode_utf8(contact_key(*c))),
{
    let k = contact_hash_input(c);
    content_hash(k.as_str())
}

/// The text an event's content hash is taken of: summary, start and
/// calendar.
pub open spec fn event_key(e: CalendarEvent) -> Seq<char> {
    e.summary@ + "|"@ + e.start_time@ + "|"@ + e.calendar@
}

/// The text an event's content hash is taken of.
pub fn event_hash_input(e: &CalendarEvent) -> (s: String)
    ensures
        s@ == event_key(*e),
{
    let mut s = owned(e.summary.as_str());
    push_str(&mut s, "|");
    push_str(&mut s, e.start_time.as_str());
    push_str(&mut s, "|");
    push_str(&mut s, e.calendar.as_str());
    s
}

/// The content hash of an event's record.
pub fn event_record_hash(e: &CalendarEvent) -> (h: String)
    ensures
        h@ == short_hash(encode_utf8(event_key(*e))),
{
    let k = event_hash_input(e);
    content_hash(k.as_str())
}

/// The content hash of a reminder's record: that of its name.
pub fn reminder_record_hash(r: &Reminder) -> (h: String)
    ensures
        h@ == short_hash(encode_utf8(r.name@)),
{
    content_hash(r.name.as_str())
}

/// A note is ingested only with its Apple id, which keys its record.
pub fn note_has_id(n: &Note) -> (b: bool)
    ensures
        b <==> n.id@.len() > 0,
{
    crate::text::chars_of(n.id.as_str()).len() > 0
}

} // verus!
