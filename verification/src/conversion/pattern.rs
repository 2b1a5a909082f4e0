//! Regular expressions of the `regex` crate, compiled once and matched
//! against single lines.

use vstd::prelude::*;

verus! {

/// `regex::Regex`, carried opaquely.
#[verifier::external_type_specification]
#[verifier::external_body]
pub struct ExRegex(regex::Regex);

/// Whether `pattern` is a regular expression the `regex` crate accepts.
pub uninterp spec fn regex_compiles(pattern: Seq<char>) -> bool;

/// The capture groups (group 0 is the whole match) of the leftmost-first
/// match of the regular expression `pattern` in `text`, each group's text if
/// it took part in the match; `None` when nothing matches.
pub uninterp spec fn regex_captures_of(pattern: Seq<char>, text: Seq<char>) -> Option<
    Seq<Option<Seq<char>>>,
>;

/// The text of each leftmost-first, non-overlapping match of the regular
/// expression `pattern` in `text`, in order.
pub uninterp spec fn regex_matches_of(pattern: Seq<char>, text: Seq<char>) -> Seq<Seq<char>>;

/// A compiled regular expression together with its source text. Only
/// [`compile`] builds one, so the compiled form is that of the source.
pub struct Pattern {
    source: String,
    compiled: regex::Regex,
}

impl Pattern {
    /// The source text of the pattern.
    pub closed spec fn source(&self) -> Seq<char> {
        self.source@
    }
}

/// `regex::Regex::new`. Trusted: it succeeds exactly on the patterns the
/// crate accepts, and keeps the source next to the compiled form.
#[verifier::external_body]
pub(crate) fn compile(source: &str) -> (r: Option<Pattern>)
    ensures
        r is Some <==> regex_compiles(source@),
        r matches Some(p) ==> p.source() == source@,
{
    match regex::Regex::new(source) {
        Ok(compiled) => Some(Pattern { source: source.to_string(), compiled }),
        Err(_) => None,
    }
}

/// The view of captured groups.
pub open spec fn captures_view(r: Option<Vec<Option<String>>>) -> Option<Seq<Option<Seq<char>>>> {
    match r {
        Some(groups) => Some(
            groups@.map_values(
                |g: Option<String>|
                    match g {
                        Some(s) => Some(s@),
                        None => None,
                    },
            ),
        ),
        None => None,
    }
}

/// `regex::Regex::captures`, with each group turned into an owned string.
/// Trusted: the result is the named captures of the pattern's source in
/// `text`.
#[verifier::external_body]
pub(crate) fn captures(p: &Pattern, text: &str) -> (r: Option<Vec<Option<String>>>)
    ensures
        captures_view(r) == regex_captures_of(p.source(), text@),
{
    match p.compiled.captures(text) {
        Some(caps) => {
            let mut groups = Vec::new();
            for i in 0..caps.len() {
                groups.push(match caps.get(i) {
                    Some(m) => Some(m.as_str().to_string()),
                    None => None,
                });
            }
            Some(groups)
        },
        None => None,
    }
}

/// `regex::Regex::find_iter`, each match turned into an owned string.
/// Trusted: the result is the named matches of the pattern's source in
/// `text`.
#[verifier::external_body]
pub(crate) fn find_all(p: &Pattern, text: &str) -> (r: Vec<String>)
    ensures
        r@.map_values(|m: String| m@) == regex_matches_of(p.source(), text@),
{
    let mut out = Vec::new();
    for m in p.compiled.find_iter(text) {
        out.push(m.as_str().to_string());
    }
    out
}

/// The text of group `i` of `caps`, or the empty text when the group did not
/// take part.
pub open spec fn group(caps: Seq<Option<Seq<char>>>, i: int) -> Seq<char> {
    if 0 <= i < caps.len() {
        match caps[i] {
            Some(t) => t,
            None => seq![],
        }
    } else {
        seq![]
    }
}

/// The text of group `i`, or the empty text.
pub fn group_text(caps: &Vec<Option<String>>, i: usize) -> (t: String)
    ensures
        t@ == group(captures_view(Some(*caps))->0, i as int),
{
    if i < caps.len() {
        match &caps[i] {
            Some(s) => crate::text::owned(s.as_str()),
            None => String::new(),
        }
    } else {
        String::new()
    }
}

} // verus!
