//! Curated "anchor" schemas the AI proposer should match by their exact
//! descriptive name when the input data is a reasonable fit.
//!
//! Listing the canonical names in the prompt lets the AI pick, say,
//! `Contacts` verbatim, so the schema service's exact-match path is hit on
//! the first try instead of relying on similarity matching.

use crate::text::{contains_seq, matches_at, owned, push_str};
use vstd::prelude::*;

verus! {

/// One anchor schema for the AI to consider matching.
#[derive(Clone, Debug)]
pub struct KnownSchema {
    /// The descriptive name registered with the schema service.
    pub descriptive_name: &'static str,
    /// One-line summary of what the schema is for.
    pub summary: &'static str,
    /// Field names on the schema.
    pub fields: Vec<&'static str>,
}

/// An anchor schema as plain text: name, summary, field names.
pub struct SchemaText {
    pub name: Seq<char>,
    pub summary: Seq<char>,
    pub fields: Seq<Seq<char>>,
}

/// The text of `s`.
pub open spec fn schema_text(s: KnownSchema) -> SchemaText {
    SchemaText {
        name: s.descriptive_name@,
        summary: s.summary@,
        fields: s.fields@.map_values(|f: &'static str| f@),
    }
}

/// The anchor schemas, mirroring the persona seeds of the schema service.
pub open spec fn anchors() -> Seq<SchemaText> {
    seq![
        SchemaText {
            name: "Contacts"@,
            summary: "A single contact card — one person or organization with their direct identifiers."@,
            fields: seq![
                "name"@,
                "email"@,
                "phone"@,
                "address"@,
                "birthday"@,
                "relationship"@,
                "notes"@,
            ],
        },
        SchemaText {
            name: "CalendarEvent"@,
            summary: "A calendar event or meeting with attendees."@,
            fields: seq![
                "title"@,
                "start_at"@,
                "end_at"@,
                "attendees"@,
                "location"@,
                "description"@,
            ],
        },
        SchemaText {
            name: "EmailHeader"@,
            summary: "Metadata for a single email — sender, recipients, subject, timestamps."@,
            fields: seq![
                "message_id"@,
                "from"@,
                "to"@,
                "cc"@,
                "subject"@,
                "sent_at"@,
                "body_preview"@,
            ],
        },
    ]
}

/// The anchor schemas the AI proposer should prefer when the data fits.
pub fn known_schemas() -> (r: Vec<KnownSchema>)
    ensures
        r@.len() == anchors().len(),
        forall|i: int| 0 <= i < r@.len() ==> schema_text(#[trigger] r@[i]) == anchors()[i],
{
    let r = vec![
        KnownSchema {
            descriptive_name: "Contacts",
            summary: "A single contact card — one person or organization with their direct identifiers.",
            fields: vec!["name", "email", "phone", "address", "birthday", "relationship", "notes"],
        },
        KnownSchema {
            descriptive_name: "CalendarEvent",
            summary: "A calendar event or meeting with attendees.",
            fields: vec!["title", "start_at", "end_at", "attendees", "location", "description"],
        },
        KnownSchema {
            descriptive_name: "EmailHeader",
            summary: "Metadata for a single email — sender, recipients, subject, timestamps.",
            fields: vec!["message_id", "from", "to", "cc", "subject", "sent_at", "body_preview"],
        },
    ];
    proof {
        assert(schema_text(r@[0]).fields =~= anchors()[0].fields);
        assert(schema_text(r@[1]).fields =~= anchors()[1].fields);
        assert(schema_text(r@[2]).fields =~= anchors()[2].fields);
    }
    r
}

/// `items` joined with `", "`.
pub open spec fn comma_joined(items: Seq<Seq<char>>) -> Seq<char>
    decreases items.len(),
{
    if items.len() == 0 {
        seq![]
    } else if items.len() == 1 {
        items[0]
    } else {
        comma_joined(items.drop_last()) + ", "@ + items.last()
    }
}

/// The prompt line of one schema.
pub open spec fn schema_line(s: SchemaText) -> Seq<char> {
    "  - "@ + s.name + ": "@ + s.summary + " (fields: "@ + comma_joined(s.fields) + ")\n"@
}

/// The prompt lines of `schemas`, in order.
pub open spec fn schema_lines(schemas: Seq<SchemaText>) -> Seq<char>
    decreases schemas.len(),
{
    if schemas.len() == 0 {
        seq![]
    } else {
        schema_lines(schemas.drop_last()) + schema_line(schemas.last())
    }
}

/// The opening of the prompt block.
pub open spec fn render_head() -> Seq<char> {
    "\n\nEXISTING SCHEMAS — match against these by exact descriptive_name when the data fits:\n"@
}

/// The closing instruction of the prompt block.
pub open spec fn render_tail() -> Seq<char> {
    "\nIf the input data is a reasonable fit for one of the schemas above, you MUST use that EXACT descriptive_name (case-sensitive). Only propose a NEW descriptive_name when none of the above is a fit.\n"@
}

/// The prompt block for `schemas`: empty when there are none.
pub open spec fn rendered(schemas: Seq<SchemaText>) -> Seq<char> {
    if schemas.len() == 0 {
        seq![]
    } else {
        render_head() + schema_lines(schemas) + render_tail()
    }
}

fn join_fields(fields: &Vec<&'static str>) -> (s: String)
    ensures
        s@ == comma_joined(fields@.map_values(|f: &'static str| f@)),
{
    let ghost all = fields@.map_values(|f: &'static str| f@);
    let mut s = String::new();
    let mut i: usize = 0;
    while i < fields.len()
        invariant
            i <= fields.len(),
            all == fields@.map_values(|f: &'static str| f@),
            s@ == comma_joined(all.take(i as int)),
        decreases fields.len() - i,
    {
        proof {
            assert(all.take(i + 1).drop_last() =~= all.take(i as int));
            assert(all.take(i + 1).last() == fields@[i as int]@);
        }
        if i > 0 {
            push_str(&mut s, ", ");
        }
        push_str(&mut s, fields[i]);
        i += 1;
    }
    proof {
        assert(all.take(fields.len() as int) =~= all);
    }
    s
}

/// Render the known-schemas block for inclusion in an AI prompt: one line
/// per schema with its summary and fields, then the instruction to reuse
/// the exact name. Empty when there are no schemas.
pub fn render_for_prompt() -> (out: String)
    ensures
        out@ == rendered(anchors()),
{
    let schemas = known_schemas();
    if schemas.len() == 0 {
        return String::new();
    }
    let mut out = owned(
        "\n\nEXISTING SCHEMAS — match against these by exact descriptive_name when the data fits:\n",
    );
    let ghost texts = anchors();
    let mut i: usize = 0;
    while i < schemas.len()
        invariant
            i <= schemas.len(),
            schemas@.len() == texts.len(),
            texts == anchors(),
            forall|j: int| 0 <= j < schemas@.len() ==> schema_text(#[trigger] schemas@[j]) == texts[j],
            out@ == render_head() + schema_lines(texts.take(i as int)),
        decreases schemas.len() - i,
    {
        let s = &schemas[i];
        let fields = join_fields(&s.fields);
        proof {
            assert(texts.take(i + 1).drop_last() =~= texts.take(i as int));
            assert(texts.take(i + 1).last() == schema_text(schemas@[i as int]));
        }
        push_str(&mut out, "  - ");
        push_str(&mut out, s.descriptive_name);
        push_str(&mut out, ": ");
        push_str(&mut out, s.summary);
        push_str(&mut out, " (fields: ");
        push_str(&mut out, fields.as_str());
        push_str(&mut out, ")\n");
        i += 1;
    }
    proof {
        assert(texts.take(schemas.len() as int) =~= texts);
    }
    push_str(
        &mut out,
        "\nIf the input data is a reasonable fit for one of the schemas above, you MUST use that EXACT descriptive_name (case-sensitive). Only propose a NEW descriptive_name when none of the above is a fit.\n",
    );
    out
}

/// `pat` occurs in `a + pat + b`.
pub proof fn lemma_contains_middle(a: Seq<char>, pat: Seq<char>, b: Seq<char>)
    ensures
        contains_seq(a + pat + b, pat),
{
    assert((a + pat + b).subrange(a.len() as int, (a.len() + pat.len()) as int) =~= pat);
    assert(matches_at(a + pat + b, a.len() as int, pat));
}

/// The lines of `schemas` hold the name of each of them.
pub proof fn lemma_lines_hold_names(schemas: Seq<SchemaText>, k: int)
    requires
        0 <= k < schemas.len(),
    ensures
        exists|a: Seq<char>, b: Seq<char>| schema_lines(schemas) == a + schemas[k].name + b,
    decreases schemas.len(),
{
    let prev = schema_lines(schemas.drop_last());
    if k == schemas.len() - 1 {
        let s = schemas.last();
        let a = prev + "  - "@;
        let b = ": "@ + s.summary + " (fields: "@ + comma_joined(s.fields) + ")\n"@;
        assert(schema_lines(schemas) =~= a + s.name + b);
    } else {
        lemma_lines_hold_names(schemas.drop_last(), k);
        let (a, b) = choose|a: Seq<char>, b: Seq<char>|
            prev == a + schemas.drop_last()[k].name + b;
        assert(schema_lines(schemas) =~= a + schemas[k].name + (b + schema_line(
            schemas.last(),
        )));
    }
}

/// The rendered block names every schema it renders, and always carries
/// the exact-match instruction when it is not empty.
pub proof fn law_render_names_every_schema(schemas: Seq<SchemaText>, k: int)
    requires
        0 <= k < schemas.len(),
    ensures
        contains_seq(rendered(schemas), schemas[k].name),
        contains_seq(rendered(schemas), "EXACT descriptive_name"@),
{
    lemma_lines_hold_names(schemas, k);
    let (a, b) = choose|a: Seq<char>, b: Seq<char>|
        schema_lines(schemas) == a + schemas[k].name + b;
    assert(rendered(schemas) =~= (render_head() + a) + schemas[k].name + (b + render_tail()));
    lemma_contains_middle(render_head() + a, schemas[k].name, b + render_tail());
    let pre = "\nIf the input data is a reasonable fit for one of the schemas above, you MUST use that "@;
    let post = " (case-sensitive). Only propose a NEW descriptive_name when none of the above is a fit.\n"@;
    assert(render_tail() =~= pre + "EXACT descriptive_name"@ + post) by {
        reveal_strlit("\nIf the input data is a reasonable fit for one of the schemas above, you MUST use that EXACT descriptive_name (case-sensitive). Only propose a NEW descriptive_name when none of the above is a fit.\n");
        reveal_strlit("\nIf the input data is a reasonable fit for one of the schemas above, you MUST use that ");
        reveal_strlit(" (case-sensitive). Only propose a NEW descriptive_name when none of the above is a fit.\n");
        reveal_strlit("EXACT descriptive_name");
    }
    assert(rendered(schemas) =~= (render_head() + schema_lines(schemas) + pre)
        + "EXACT descriptive_name"@ + post);
    lemma_contains_middle(render_head() + schema_lines(schemas) + pre, "EXACT descriptive_name"@, post);
}

proof fn lemma_lines_hold_lines(schemas: Seq<SchemaText>, k: int)
    requires
        0 <= k < schemas.len(),
    ensures
        exists|a: Seq<char>, b: Seq<char>| schema_lines(schemas) == a + schema_line(schemas[k]) + b,
    decreases schemas.len(),
{
    let prev = schema_lines(schemas.drop_last());
    if k == schemas.len() - 1 {
        assert(schema_lines(schemas) =~= prev + schema_line(schemas[k]) + Seq::<char>::empty());
    } else {
        lemma_lines_hold_lines(schemas.drop_last(), k);
        let (a, b) = choose|a: Seq<char>, b: Seq<char>|
            prev == a + schema_line(schemas.drop_last()[k]) + b;
        assert(schema_lines(schemas) =~= a + schema_line(schemas[k]) + (b + schema_line(schemas.last())));
    }
}

/// The rendered block holds, for each schema, its whole line: two spaces,
/// a dash, the name, a colon, the summary and its fields in brackets.
pub proof fn law_render_lists_every_schema_line(schemas: Seq<SchemaText>, k: int)
    requires
        0 <= k < schemas.len(),
    ensures
        contains_seq(rendered(schemas), schema_line(schemas[k])),
{
    lemma_lines_hold_lines(schemas, k);
    let (a, b) = choose|a: Seq<char>, b: Seq<char>| schema_lines(schemas) == a + schema_line(schemas[k]) + b;
    assert(rendered(schemas) =~= (render_head() + a) + schema_line(schemas[k]) + (b + render_tail()));
    lemma_contains_middle(render_head() + a, schema_line(schemas[k]), b + render_tail());
}

/// The prompt block is empty exactly when there are no schemas; otherwise
/// it holds every schema's line and the instruction to use the EXACT
/// descriptive name.
pub proof fn law_render_for_prompt(schemas: Seq<SchemaText>)
    ensures
        rendered(schemas).len() == 0 <==> schemas.len() == 0,
        forall|k: int| 0 <= k < schemas.len() ==> contains_seq(rendered(schemas), #[trigger] schema_line(schemas[k])),
        schemas.len() > 0 ==> contains_seq(rendered(schemas), "EXACT descriptive_name"@),
{
    if schemas.len() > 0 {
        reveal_strlit("\n\nEXISTING SCHEMAS \u{2014} match against these by exact descriptive_name when the data fits:\n");
        assert(render_head().len() > 0);
        assert(rendered(schemas).len() >= render_head().len());
        law_render_names_every_schema(schemas, 0);
        assert forall|k: int| 0 <= k < schemas.len() implies contains_seq(rendered(schemas), #[trigger] schema_line(schemas[k])) by {
            law_render_lists_every_schema_line(schemas, k);
        }
    }
}

/// The anchors have distinct names and each declares at least one field.
pub proof fn law_anchors_distinct_with_fields()
    ensures
        anchors().len() > 0,
        forall|i: int, j: int|
            0 <= i < j < anchors().len() ==> anchors()[i].name != anchors()[j].name,
        forall|i: int| 0 <= i < anchors().len() ==> (#[trigger] anchors()[i]).fields.len() > 0,
{
    reveal_strlit("Contacts");
    reveal_strlit("CalendarEvent");
    reveal_strlit("EmailHeader");
    assert(anchors()[0].name.len() != anchors()[1].name.len());
    assert(anchors()[0].name.len() != anchors()[2].name.len());
    assert(anchors()[1].name.len() != anchors()[2].name.len());
}

} // verus!
