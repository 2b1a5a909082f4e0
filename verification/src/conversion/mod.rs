//! File conversion: per-symbol records extracted from source code, and the
//! unwrapping of Twitter data exports.

pub mod body;
pub mod pattern;
pub mod symbols;
pub mod textops;
pub mod visibility;

use crate::conversion::body::{brace_body, extract_brace_body, extract_indent_body, indent_body, total_chars};
use crate::conversion::symbols::{all_compile, extract_symbols, lang_exec, lang_for, lang_srcs, law_symbols_in_line_order, symbol_text, symbol_texts, symbols_of, SymbolText};
use crate::conversion::textops::{line_scan, lines_exec, lines_of, strip_cr};
use crate::error::IngestionError;
use crate::text::{
    chars_of, decimal, owned, push_str, starts_with_seq, str_eq, string_of, subvec, trim_seq, trim_start_seq,
    trim_vec, zero_pad, zero_padded,
};
use vstd::prelude::*;

verus! {

/// The language name for a file extension; unknown extensions name
/// themselves.
pub open spec fn ext_language(ext: Seq<char>) -> Seq<char> {
    if ext == "rs"@ {
        "rust"@
    } else if ext == "py"@ {
        "python"@
    } else if ext == "js"@ || ext == "jsx"@ {
        "javascript"@
    } else if ext == "ts"@ || ext == "tsx"@ {
        "typescript"@
    } else if ext == "go"@ {
        "go"@
    } else if ext == "java"@ {
        "java"@
    } else if ext == "kt"@ {
        "kotlin"@
    } else if ext == "rb"@ {
        "ruby"@
    } else if ext == "c"@ || ext == "h"@ {
        "c"@
    } else if ext == "cpp"@ || ext == "cc"@ || ext == "cxx"@ || ext == "hpp"@ {
        "cpp"@
    } else if ext == "cs"@ {
        "csharp"@
    } else if ext == "swift"@ {
        "swift"@
    } else if ext == "scala"@ {
        "scala"@
    } else if ext == "lua"@ {
        "lua"@
    } else if ext == "r"@ {
        "r"@
    } else if ext == "pl"@ {
        "perl"@
    } else if ext == "sh"@ || ext == "bash"@ || ext == "zsh"@ {
        "shell"@
    } else {
        ext
    }
}

/// Map a file extension to its language name.
pub fn ext_to_language<'a>(ext: &'a str) -> (l: &'a str)
    ensures
        l@ == ext_language(ext@),
{
    if str_eq(ext, "rs") {
        "rust"
    } else if str_eq(ext, "py") {
        "python"
    } else if str_eq(ext, "js") || str_eq(ext, "jsx") {
        "javascript"
    } else if str_eq(ext, "ts") || str_eq(ext, "tsx") {
        "typescript"
    } else if str_eq(ext, "go") {
        "go"
    } else if str_eq(ext, "java") {
        "java"
    } else if str_eq(ext, "kt") {
        "kotlin"
    } else if str_eq(ext, "rb") {
        "ruby"
    } else if str_eq(ext, "c") || str_eq(ext, "h") {
        "c"
    } else if str_eq(ext, "cpp") || str_eq(ext, "cc") || str_eq(ext, "cxx") || str_eq(ext, "hpp") {
        "cpp"
    } else if str_eq(ext, "cs") {
        "csharp"
    } else if str_eq(ext, "swift") {
        "swift"
    } else if str_eq(ext, "scala") {
        "scala"
    } else if str_eq(ext, "lua") {
        "lua"
    } else if str_eq(ext, "r") {
        "r"
    } else if str_eq(ext, "pl") {
        "perl"
    } else if str_eq(ext, "sh") || str_eq(ext, "bash") || str_eq(ext, "zsh") {
        "shell"
    } else {
        ext
    }
}

/// Format a zero-padded 6-digit line number.
pub fn pad_line_number(line: usize) -> (s: String)
    ensures
        s@ == zero_pad(decimal(line as nat), 6),
{
    zero_padded(line as u64, 6)
}

/// One symbol record of a source file.
#[derive(Clone, Debug)]
pub struct CodeSymbol {
    pub name: String,
    pub kind: String,
    pub signature: String,
    pub source_file: String,
    /// The line number, zero-padded to six digits.
    pub line_number: String,
    pub language: String,
    /// The enclosing class, impl block or receiver type; empty when none.
    pub parent: String,
    pub visibility: String,
    /// The declaration through the end of the symbol's body.
    pub body: String,
}

/// A symbol record as plain text.
pub struct CodeRecord {
    pub name: Seq<char>,
    pub kind: Seq<char>,
    pub signature: Seq<char>,
    pub source_file: Seq<char>,
    pub line_number: Seq<char>,
    pub language: Seq<char>,
    pub parent: Seq<char>,
    pub visibility: Seq<char>,
    pub body: Seq<char>,
}

/// The text of a record.
pub open spec fn code_record(c: CodeSymbol) -> CodeRecord {
    CodeRecord {
        name: c.name@,
        kind: c.kind@,
        signature: c.signature@,
        source_file: c.source_file@,
        line_number: c.line_number@,
        language: c.language@,
        parent: c.parent@,
        visibility: c.visibility@,
        body: c.body@,
    }
}

/// The record of symbol `s` of a file named `file` in `language` whose
/// lines are `lines`.
pub open spec fn record_of(s: SymbolText, lines: Seq<Seq<char>>, file: Seq<char>, language: Seq<char>) -> CodeRecord {
    CodeRecord {
        name: s.name,
        kind: s.kind,
        signature: s.signature,
        source_file: file,
        line_number: zero_pad(decimal(s.line_number as nat), 6),
        language,
        parent: match s.parent {
            Some(p) => p,
            None => seq![],
        },
        visibility: s.visibility,
        body: if language == "python"@ {
            indent_body(lines, s.line_number - 1).0
        } else {
            brace_body(lines, s.line_number - 1).0
        },
    }
}

/// The symbol records of the file `file` with extension `ext` and text
/// `content`, in line order (none when a pattern of the language does not
/// compile).
pub open spec fn code_records(content: Seq<char>, file: Seq<char>, ext: Seq<char>) -> Seq<CodeRecord> {
    let language = ext_language(ext);
    let lines = lines_of(content);
    let l = lang_for(language);
    if all_compile(lang_srcs(l)) {
        symbols_of(l, lines).map_values(|s: SymbolText| record_of(s, lines, file, language))
    } else {
        seq![]
    }
}

/// The lines of a text hold no more characters than the text.
pub proof fn lemma_lines_chars(s: Seq<char>)
    ensures
        total_chars(lines_of(s)) <= s.len(),
{
    lemma_line_scan_chars(s);
    let (done, cur) = line_scan(s);
    if cur.len() > 0 {
        assert(done.push(cur).drop_last() =~= done);
    }
}

/// Finished and pending lines hold no more characters than the text.
pub proof fn lemma_line_scan_chars(s: Seq<char>)
    ensures
        total_chars(line_scan(s).0) + line_scan(s).1.len() <= s.len(),
    decreases s.len(),
{
    if s.len() > 0 {
        lemma_line_scan_chars(s.drop_last());
        let (done, cur) = line_scan(s.drop_last());
        if s.last() == '\n' {
            assert(done.push(strip_cr(cur)).drop_last() =~= done);
        }
    }
}

fn copy_string(s: &String) -> (r: String)
    ensures
        r@ == s@,
{
    owned(s.as_str())
}

/// Extract one record per symbol from source code: name, kind, signature,
/// source file, zero-padded line number, language, parent, visibility and
/// body, in line order.
pub fn extract_code_metadata(content: &str, file_name: &str, ext: &str) -> (r: Vec<CodeSymbol>)
    requires
        content@.len() <= isize::MAX,
    ensures
        r@.map_values(|c: CodeSymbol| code_record(c)) == code_records(content@, file_name@, ext@),
{
    let language = ext_to_language(ext);
    let cv = chars_of(content);
    let lines = lines_exec(&cv);
    let ghost ls = lines_of(content@);
    proof {
        assert(lines@.map_values(|v: Vec<char>| v@) =~= ls);
        lemma_lines_chars(content@);
    }
    let l = lang_exec(language);
    let raw = match extract_symbols(l, &lines) {
        Some(v) => v,
        None => {
            let empty: Vec<CodeSymbol> = Vec::new();
            proof {
                assert(empty@.map_values(|c: CodeSymbol| code_record(c)) =~= Seq::<CodeRecord>::empty());
            }
            return empty;
        },
    };
    let ghost syms = symbols_of(l, ls);
    proof {
        law_symbols_in_line_order(l, ls, 0, crate::conversion::symbols::initial_scan());
    }
    let is_python = str_eq(language, "python");
    let mut out: Vec<CodeSymbol> = Vec::new();
    let mut k: usize = 0;
    while k < raw.len()
        invariant
            k <= raw.len(),
            ls == lines@.map_values(|v: Vec<char>| v@),
            ls.len() == lines@.len(),
            syms == symbols_of(l, ls),
            symbol_texts(raw@) == syms,
            is_python == (language@ == "python"@),
            total_chars(ls) <= isize::MAX,
            forall|j: int| 0 <= j < syms.len() ==> 1 <= (#[trigger] syms[j]).line_number <= ls.len(),
            out@.len() == k,
            forall|j: int|
                0 <= j < k ==> code_record(#[trigger] out@[j]) == record_of(syms[j], ls, file_name@, language@),
        decreases raw.len() - k,
    {
        let s = &raw[k];
        proof {
            assert(symbol_texts(raw@)[k as int] == symbol_text(raw@[k as int]));
            assert(syms[k as int] == symbol_text(*s));
        }
        let idx = s.line_number - 1;
        let (body, _end) = if is_python {
            extract_indent_body(&lines, idx)
        } else {
            extract_brace_body(&lines, idx)
        };
        let parent = match &s.parent {
            Some(p) => copy_string(p),
            None => String::new(),
        };
        let rec = CodeSymbol {
            name: copy_string(&s.name),
            kind: owned(s.kind),
            signature: copy_string(&s.signature),
            source_file: owned(file_name),
            line_number: pad_line_number(s.line_number),
            language: owned(language),
            parent,
            visibility: owned(s.visibility),
            body,
        };
        out.push(rec);
        k += 1;
    }
    proof {
        assert(out@.map_values(|c: CodeSymbol| code_record(c)) =~= syms.map_values(
            |s: SymbolText| record_of(s, ls, file_name@, language@),
        ));
    }
    out
}

/// The content looks like a Twitter data export (`window.YTD.` or
/// `window.__THAR_CONFIG` after leading white space).
pub open spec fn twitter_export(content: Seq<char>) -> bool {
    let s = trim_start_seq(content);
    starts_with_seq(s, "window.YTD."@) || starts_with_seq(s, "window.__THAR_CONFIG"@)
}

/// Returns true if the content looks like a Twitter data export JS file.
pub fn is_twitter_export_js(content: &str) -> (b: bool)
    ensures
        b == twitter_export(content@),
        b == (starts_with_seq(trim_start_seq(content@), "window.YTD."@) || starts_with_seq(
            trim_start_seq(content@),
            "window.__THAR_CONFIG"@,
        )),
{
    let cv = chars_of(content);
    let s = crate::conversion::textops::trim_start_vec(&cv);
    crate::text::matches_at_exec(&s, 0, &chars_of("window.YTD.")) || crate::text::matches_at_exec(
        &s,
        0,
        &chars_of("window.__THAR_CONFIG"),
    )
}

/// The message `serde_json` gives when `text` is not one JSON value, or
/// `None` when it is.
pub uninterp spec fn json_syntax_error_of(text: Seq<char>) -> Option<Seq<char>>;

/// `serde_json::from_str::<serde_json::Value>`, keeping only the error's
/// display text. Trusted: the result is the named outcome for `text`.
#[verifier::external_body]
pub(crate) fn json_syntax_error(text: &str) -> (r: Option<String>)
    ensures
        r matches Some(m) ==> json_syntax_error_of(text@) == Some(m@),
        r is None ==> json_syntax_error_of(text@) is None,
{
    match serde_json::from_str::<serde_json::Value>(text) {
        Ok(_) => None,
        Err(e) => Some(e.to_string()),
    }
}

/// What follows the first `=` of `content`, trimmed, if there is one.
pub open spec fn after_first_eq(content: Seq<char>) -> Option<Seq<char>> {
    match crate::text::find_from(content, seq!['='], 0) {
        Some(i) => Some(trim_seq(content.subrange(i + 1, content.len() as int))),
        None => None,
    }
}

/// The outcome of converting a Twitter export: the JSON after the first
/// `=`, or the reason it is refused.
pub open spec fn twitter_outcome(content: Seq<char>, r: Result<String, IngestionError>) -> bool {
    match after_first_eq(content) {
        None => r matches Err(IngestionError::InvalidInput(m)) && m@
            == "Not a Twitter data export .js file (no '=' found)"@,
        Some(json) => match json_syntax_error_of(json) {
            None => r matches Ok(s) && s@ == json,
            Some(e) => r matches Err(IngestionError::InvalidInput(m)) && m@ == "Invalid JSON in .js file: "@
                + e,
        },
    }
}

/// Convert a Twitter data export `.js` file (`window.YTD.tweet.part0 =
/// [...]`) to JSON: the text after the first `=`, trimmed, provided it is
/// one JSON value.
pub fn twitter_js_to_json(content: &str) -> (r: Result<String, IngestionError>)
    ensures
        twitter_outcome(content@, r),
{
    let cv = chars_of(content);
    let eq = chars_of("=");
    proof {
        reveal_strlit("=");
        assert(eq@ =~= seq!['=']);
    }
    match crate::text::find_from_exec(&cv, &eq, 0) {
        Some(i) => {
            proof {
                crate::text::lemma_find_from(cv@, eq@, 0);
                assert(crate::text::matches_at(cv@, i as int, eq@));
                assert(eq@.len() == 1);
                assert(i + 1 <= cv@.len());
            }
            let n = cv.len();
            assert(i + 1 <= n);
            let rest = subvec(&cv, i + 1, n);
            let json = trim_vec(&rest);
            let js = string_of(&json);
            match json_syntax_error(js.as_str()) {
                None => Ok(js),
                Some(e) => {
                    let mut m = owned("Invalid JSON in .js file: ");
                    push_str(&mut m, e.as_str());
                    Err(IngestionError::InvalidInput(m))
                },
            }
        },
        None => Err(IngestionError::InvalidInput(owned("Not a Twitter data export .js file (no '=' found)"))),
    }
}

/// What a `.js` file holds: the JSON of a Twitter data export, or the
/// symbols of source code.
#[derive(Debug)]
pub enum JsContent {
    TwitterExport(String),
    Symbols(Vec<CodeSymbol>),
}

/// Convert a `.js` file: a Twitter data export (told by its prefix) gives
/// its JSON, any other file the records of its symbols.
pub fn js_to_json(content: &str, file_name: &str) -> (r: Result<JsContent, IngestionError>)
    requires
        content@.len() <= isize::MAX,
    ensures
        twitter_export(content@) ==> match r {
            Ok(JsContent::TwitterExport(s)) => twitter_outcome(content@, Ok(s)),
            Ok(JsContent::Symbols(_)) => false,
            Err(e) => twitter_outcome(content@, Err(e)),
        },
        !twitter_export(content@) ==> (r matches Ok(JsContent::Symbols(v)) && v@.map_values(
            |c: CodeSymbol| code_record(c),
        ) == code_records(content@, file_name@, "js"@)),
        starts_with_seq(trim_start_seq(content@), "window.YTD."@) || starts_with_seq(
            trim_start_seq(content@),
            "window.__THAR_CONFIG"@,
        ) ==> !(r matches Ok(JsContent::Symbols(_))),
{
    if is_twitter_export_js(content) {
        match twitter_js_to_json(content) {
            Ok(s) => Ok(JsContent::TwitterExport(s)),
            Err(e) => Err(e),
        }
    } else {
        Ok(JsContent::Symbols(extract_code_metadata(content, file_name, "js")))
    }
}

/// A `.js` file whose text, after leading white space, starts with
/// `window.YTD.` (a data file of a Twitter archive) or
/// `window.__THAR_CONFIG` (its manifest) is read as a Twitter export; any
/// other file is read as source code.
pub proof fn law_twitter_exports_by_prefix(content: Seq<char>)
    ensures
        starts_with_seq(trim_start_seq(content), "window.YTD."@) ==> twitter_export(content),
        starts_with_seq(trim_start_seq(content), "window.__THAR_CONFIG"@) ==> twitter_export(content),
        !starts_with_seq(trim_start_seq(content), "window.YTD."@) && !starts_with_seq(
            trim_start_seq(content),
            "window.__THAR_CONFIG"@,
        ) ==> !twitter_export(content),
{
}

} // verus!
