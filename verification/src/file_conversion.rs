//! Structural metadata of a source file found by regular expressions over
//! its whole text: the lines that declare functions, those that declare
//! types, and the comment lines.

use crate::conversion::pattern::{compile, find_all, regex_compiles, regex_matches_of, Pattern};
use crate::conversion::{is_twitter_export_js, twitter_export, twitter_outcome};
use crate::error::IngestionError;
use crate::json::{lemma_members_view, members_view, Json, JsonV};
use crate::text::{chars_of, owned, push_str, split_seq, split_vec, str_eq, string_of, subvec, trim_seq, trim_string, views};
use vstd::prelude::*;

pub use crate::conversion::twitter_js_to_json;

verus! {

/// Lines that declare a function: `fn`, `def`, `function`, `func` or `sub`,
/// maybe after `pub` and `async`, and a Go receiver, then a name.
pub open spec fn function_pattern() -> Seq<char> {
    r"(?m)^\s*(?:pub\s+)?(?:async\s+)?(?:fn|def|function|func|sub)\s+(?:\([^)]*\)\s*)?\w+"@
}

/// Lines that declare a type: `class`, `struct`, `trait`, `enum`,
/// `interface` or `type`, maybe after `pub`, then a name.
pub open spec fn type_pattern() -> Seq<char> {
    r"(?m)^\s*(?:pub\s+)?(?:class|struct|trait|enum|interface|type)\s+\w+"@
}

/// Comment lines: `//` comments (doc comments too), and `#` comments that
/// are neither a shebang (`#!`) nor a Rust attribute (`#[`).
pub open spec fn comment_pattern() -> Seq<char> {
    r"(?m)^\s*(?://[/!]?.*|#(?:$|[^!\[].*))"@
}

fn function_source() -> (s: &'static str)
    ensures
        s@ == function_pattern(),
{
    r"(?m)^\s*(?:pub\s+)?(?:async\s+)?(?:fn|def|function|func|sub)\s+(?:\([^)]*\)\s*)?\w+"
}

fn type_source() -> (s: &'static str)
    ensures
        s@ == type_pattern(),
{
    r"(?m)^\s*(?:pub\s+)?(?:class|struct|trait|enum|interface|type)\s+\w+"
}

fn comment_source() -> (s: &'static str)
    ensures
        s@ == comment_pattern(),
{
    r"(?m)^\s*(?://[/!]?.*|#(?:$|[^!\[].*))"
}

/// The three patterns compile.
pub open spec fn patterns_compile() -> bool {
    regex_compiles(function_pattern()) && regex_compiles(type_pattern()) && regex_compiles(
        comment_pattern(),
    )
}

/// The matches of `pattern` in `text`, each trimmed.
pub open spec fn trimmed_matches(pattern: Seq<char>, text: Seq<char>) -> Seq<Seq<char>> {
    regex_matches_of(pattern, text).map_values(|m: Seq<char>| trim_seq(m))
}

/// The metadata of a source file.
#[derive(Clone, Debug)]
pub struct CodeMetadata {
    pub source_file: String,
    pub file_type: String,
    /// The declarations of functions and methods.
    pub functions: Vec<String>,
    /// The declarations of classes, structs and other types.
    pub classes: Vec<String>,
    pub comments: Vec<String>,
}

/// The text of strings.
pub open spec fn texts(v: Seq<String>) -> Seq<Seq<char>> {
    v.map_values(|s: String| s@)
}

/// Each match trimmed of white space at both ends.
pub fn trim_all(matches: &Vec<String>) -> (r: Vec<String>)
    ensures
        texts(r@) == texts(matches@).map_values(|m: Seq<char>| trim_seq(m)),
{
    let mut out: Vec<String> = Vec::new();
    let mut i: usize = 0;
    while i < matches.len()
        invariant
            i <= matches.len(),
            out@.len() == i,
            forall|j: int| 0 <= j < i ==> (#[trigger] out@[j])@ == trim_seq(matches@[j]@),
        decreases matches.len() - i,
    {
        out.push(trim_string(matches[i].as_str()));
        i += 1;
    }
    proof {
        assert(texts(out@) =~= texts(matches@).map_values(|m: Seq<char>| trim_seq(m)));
    }
    out
}

fn trimmed_finds(p: &Pattern, content: &str) -> (r: Vec<String>)
    ensures
        texts(r@) == trimmed_matches(p.source(), content@),
{
    let found = find_all(p, content);
    trim_all(&found)
}

/// Extract the declarations of functions and types and the comments of a
/// source file, each trimmed, in the order they occur; `None` only when one
/// of the patterns does not compile.
pub fn extract_code_metadata(content: &str, file_name: &str, ext: &str) -> (r: Option<
    CodeMetadata,
>)
    ensures
        r is None <==> !patterns_compile(),
        r matches Some(m) ==> {
            &&& m.source_file@ == file_name@
            &&& m.file_type@ == ext@
            &&& texts(m.functions@) == trimmed_matches(function_pattern(), content@)
            &&& texts(m.classes@) == trimmed_matches(type_pattern(), content@)
            &&& texts(m.comments@) == trimmed_matches(comment_pattern(), content@)
        },
{
    let fp = match compile(function_source()) {
        Some(p) => p,
        None => {
            return None;
        },
    };
    let tp = match compile(type_source()) {
        Some(p) => p,
        None => {
            return None;
        },
    };
    let cp = match compile(comment_source()) {
        Some(p) => p,
        None => {
            return None;
        },
    };
    Some(
        CodeMetadata {
            source_file: owned(file_name),
            file_type: owned(ext),
            functions: trimmed_finds(&fp, content),
            classes: trimmed_finds(&tp, content),
            comments: trimmed_finds(&cp, content),
        },
    )
}

/// What a `.js` file holds: the JSON of a Twitter data export, or the
/// metadata of source code.
#[derive(Debug)]
pub enum JsContent {
    TwitterExport(String),
    Code(CodeMetadata),
}

/// Convert a `.js` file: a Twitter data export (told by its prefix) gives
/// its JSON, any other file its code metadata.
pub fn js_to_json(content: &str, file_name: &str) -> (r: Result<Option<JsContent>, IngestionError>)
    ensures
        twitter_export(content@) ==> match r {
            Ok(Some(JsContent::TwitterExport(s))) => twitter_outcome(content@, Ok(s)),
            Ok(_) => false,
            Err(e) => twitter_outcome(content@, Err(e)),
        },
        !twitter_export(content@) ==> r is Ok && (r->Ok_0 is None <==> !patterns_compile()) && (
        r->Ok_0 matches Some(c) ==> (c matches JsContent::Code(m) && m.source_file@ == file_name@
            && m.file_type@ == "js"@ && texts(m.functions@) == trimmed_matches(
            function_pattern(),
            content@,
        ) && texts(m.classes@) == trimmed_matches(type_pattern(), content@) && texts(m.comments@)
            == trimmed_matches(comment_pattern(), content@))),
        crate::text::starts_with_seq(crate::text::trim_start_seq(content@), "window.YTD."@)
            || crate::text::starts_with_seq(crate::text::trim_start_seq(content@), "window.__THAR_CONFIG"@)
            ==> !(r matches Ok(Some(JsContent::Code(_)))),
{
    if is_twitter_export_js(content) {
        match twitter_js_to_json(content) {
            Ok(s) => Ok(Some(JsContent::TwitterExport(s))),
            Err(e) => Err(e),
        }
    } else {
        match extract_code_metadata(content, file_name, "js") {
            Some(m) => Ok(Some(JsContent::Code(m))),
            None => Ok(None),
        }
    }
}

/// The components of a Unix path that name something (as
/// `std::path::Path` reads them): the pieces between `/`, without empty
/// pieces and without `.` pieces after the first.
pub open spec fn path_components(p: Seq<char>) -> Seq<Seq<char>> {
    named_pieces(split_seq(p, "/"@))
}

/// The pieces kept as components.
pub open spec fn named_pieces(pieces: Seq<Seq<char>>) -> Seq<Seq<char>>
    decreases pieces.len(),
{
    if pieces.len() == 0 {
        seq![]
    } else {
        let prev = named_pieces(pieces.drop_last());
        let q = pieces.last();
        if q.len() == 0 || (q == "."@ && pieces.len() > 1) {
            prev
        } else {
            prev.push(q)
        }
    }
}

/// The name of the directory a file sits in, when the path gives one
/// (`recipes/cookies.txt` gives `recipes`); not `.`, `..`, the root or
/// nothing.
pub open spec fn category_hint(p: Seq<char>) -> Option<Seq<char>> {
    let cs = path_components(p);
    if cs.len() >= 2 && cs[cs.len() - 2] != "."@ && cs[cs.len() - 2] != ".."@ {
        Some(cs[cs.len() - 2])
    } else {
        None
    }
}

/// Derive a category hint from a file path: the name of its parent
/// directory, so the model can name a schema by topic (`recipes` rather
/// than `txt`).
pub fn derive_category_hint(file_path: &str) -> (r: Option<String>)
    ensures
        match category_hint(file_path@) {
            Some(h) => r matches Some(x) && x@ == h,
            None => r is None,
        },
{
    let cs = chars_of(file_path);
    let slash = chars_of("/");
    proof {
        reveal_strlit("/");
    }
    let pieces = split_vec(&cs, &slash);
    let ghost pv = views(pieces@);
    let mut comps: Vec<Vec<char>> = Vec::new();
    let mut i: usize = 0;
    proof {
        assert(pv.take(0) =~= Seq::<Seq<char>>::empty());
        assert(views(comps@) =~= Seq::<Seq<char>>::empty());
    }
    while i < pieces.len()
        invariant
            i <= pieces@.len(),
            pv == views(pieces@),
            pv == split_seq(file_path@, "/"@),
            views(comps@) == named_pieces(pv.take(i as int)),
        decreases pieces.len() - i,
    {
        proof {
            assert(pv.take(i + 1).drop_last() =~= pv.take(i as int));
            assert(pv.take(i + 1).last() == pieces@[i as int]@);
        }
        let q = &pieces[i];
        let dot = chars_of(".");
        proof {
            reveal_strlit(".");
        }
        if q.len() == 0 || (crate::text::seq_eq(q, &dot) && i > 0) {
        } else {
            let c = subvec(q, 0, q.len());
            proof {
                assert(c@ =~= q@);
                assert(views(comps@.push(c)) =~= views(comps@).push(c@));
            }
            comps.push(c);
        }
        i += 1;
    }
    proof {
        assert(pv.take(pieces@.len() as int) =~= pv);
    }
    let n = comps.len();
    if n >= 2 {
        let d = &comps[n - 2];
        let dot = chars_of(".");
        let dotdot = chars_of("..");
        proof {
            reveal_strlit(".");
            reveal_strlit("..");
            assert(views(comps@)[n - 2] == d@);
        }
        if !crate::text::seq_eq(d, &dot) && !crate::text::seq_eq(d, &dotdot) {
            return Some(string_of(d));
        }
    }
    None
}

/// Plain-text content (`.txt`, `.md`, configuration files) as a JSON
/// object: the category hint of its path when there is one, the content,
/// the extension and the file name.
pub open spec fn text_wrapper(content: Seq<char>, file_name: Seq<char>, ext: Seq<char>) -> JsonV {
    let rest = seq![
        ("content"@, JsonV::Str(content)),
        ("file_type"@, JsonV::Str(ext)),
        ("source_file"@, JsonV::Str(file_name)),
    ];
    JsonV::Object(
        match category_hint(file_name) {
            Some(h) => seq![("category"@, JsonV::Str(h))] + rest,
            None => rest,
        },
    )
}

/// Wrap plain-text content as a JSON object with its category hint.
pub fn wrap_text_content(content: &str, file_name: &str, ext: &str) -> (r: Json)
    ensures
        r@ == text_wrapper(content@, file_name@, ext@),
{
    let mut ms: Vec<(String, Json)> = Vec::new();
    let hint = derive_category_hint(file_name);
    match hint {
        Some(h) => ms.push((owned("category"), Json::Str(h))),
        None => {},
    }
    ms.push((owned("content"), Json::Str(owned(content))));
    ms.push((owned("file_type"), Json::Str(owned(ext))));
    ms.push((owned("source_file"), Json::Str(owned(file_name))));
    proof {
        lemma_members_view(ms@);
        assert(members_view(ms@) =~= text_wrapper(content@, file_name@, ext@)->Object_0);
    }
    Json::Object(ms)
}

// ---------------------------------------------------------------------------
// Which conversion a file gets
// ---------------------------------------------------------------------------

/// How a file's content is turned into JSON, by its extension.
#[derive(Clone, Copy, Debug, PartialEq, Eq, Structural)]
pub enum ContentKind {
    /// Parsed as JSON.
    Json,
    /// A Twitter export or source code, told by its content.
    Js,
    /// Rows turned into JSON objects.
    Csv,
    /// Plain text (`txt`, `md`), wrapped with its category hint.
    Text,
    /// Source code, described by its metadata.
    Code,
    /// A configuration file, wrapped as text.
    Config,
    /// No conversion.
    Unsupported,
}

/// The conversion for extension `ext`, given the extensions of code files
/// and of configuration files (the smart-folder scanner's lists): `json`,
/// `js` and `csv` first, then `txt` and `md`, then the code list, then
/// the configuration list.
pub open spec fn content_kind_of(ext: Seq<char>, code_exts: Seq<Seq<char>>, config_exts: Seq<Seq<char>>) -> ContentKind {
    if ext == "json"@ {
        ContentKind::Json
    } else if ext == "js"@ {
        ContentKind::Js
    } else if ext == "csv"@ {
        ContentKind::Csv
    } else if ext == "txt"@ || ext == "md"@ {
        ContentKind::Text
    } else if code_exts.contains(ext) {
        ContentKind::Code
    } else if config_exts.contains(ext) {
        ContentKind::Config
    } else {
        ContentKind::Unsupported
    }
}

fn listed(items: &Vec<String>, x: &str) -> (b: bool)
    ensures
        b == items@.map_values(|s: String| s@).contains(x@),
{
    let ghost v = items@.map_values(|s: String| s@);
    let mut i: usize = 0;
    while i < items.len()
        invariant
            i <= items@.len(),
            v == items@.map_values(|s: String| s@),
            forall|k: int| 0 <= k < i ==> v[k] != x@,
        decreases items.len() - i,
    {
        if str_eq(items[i].as_str(), x) {
            proof {
                assert(v[i as int] == x@);
            }
            return true;
        }
        i += 1;
    }
    false
}

/// The conversion a file with extension `ext` gets.
pub fn content_kind(ext: &str, code_exts: &Vec<String>, config_exts: &Vec<String>) -> (k: ContentKind)
    ensures
        k == content_kind_of(
            ext@,
            code_exts@.map_values(|s: String| s@),
            config_exts@.map_values(|s: String| s@),
        ),
{
    if str_eq(ext, "json") {
        ContentKind::Json
    } else if str_eq(ext, "js") {
        ContentKind::Js
    } else if str_eq(ext, "csv") {
        ContentKind::Csv
    } else if str_eq(ext, "txt") || str_eq(ext, "md") {
        ContentKind::Text
    } else if listed(code_exts, ext) {
        ContentKind::Code
    } else if listed(config_exts, ext) {
        ContentKind::Config
    } else {
        ContentKind::Unsupported
    }
}

/// The error for a file type with no conversion.
pub fn unsupported_file_type(ext: &str) -> (e: IngestionError)
    ensures
        e matches IngestionError::InvalidInput(m) && m@ == "Unsupported file type: "@ + ext@,
{
    let mut m = owned("Unsupported file type: ");
    push_str(&mut m, ext);
    IngestionError::InvalidInput(m)
}

} // verus!
