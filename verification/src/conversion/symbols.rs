//! Per-language symbol detection: each line is matched against the
//! language's declaration patterns, in a fixed order, while a little state
//! (the enclosing class or impl block and the brace depth) is carried from
//! line to line.

use crate::conversion::body::{indent_bytes, indent_bytes_exec, total_chars, utf8_size, utf8_size_exec};
use crate::conversion::pattern::{captures, captures_view, compile, group, group_text, regex_captures_of, regex_compiles, Pattern};
use crate::conversion::textops::{
    after_last, after_last_exec, before_first, before_first_exec, count_char, lemma_count_char_bound,
    trim_end_char, trim_end_char_exec, trim_quotes, trim_quotes_exec, words, words_exec,
};
use crate::conversion::visibility::{extract_visibility, visibility_of};
use crate::text::{chars_of, matches_at_exec, owned, starts_with_seq, str_eq, string_of, trim_seq, trim_vec};
use vstd::prelude::*;

verus! {

/// A symbol detected before its body is extracted.
pub struct RawSymbol {
    pub name: String,
    pub kind: &'static str,
    pub signature: String,
    pub line_number: usize,
    pub parent: Option<String>,
    pub visibility: &'static str,
}

/// A detected symbol as plain text.
pub struct SymbolText {
    pub name: Seq<char>,
    pub kind: Seq<char>,
    pub signature: Seq<char>,
    pub line_number: int,
    pub parent: Option<Seq<char>>,
    pub visibility: Seq<char>,
}

/// The view of an optional string.
pub open spec fn opt_view(o: Option<String>) -> Option<Seq<char>> {
    match o {
        Some(s) => Some(s@),
        None => None,
    }
}

/// The text of a raw symbol.
pub open spec fn symbol_text(s: RawSymbol) -> SymbolText {
    SymbolText {
        name: s.name@,
        kind: s.kind@,
        signature: s.signature@,
        line_number: s.line_number as int,
        parent: opt_view(s.parent),
        visibility: s.visibility@,
    }
}

/// The texts of raw symbols.
pub open spec fn symbol_texts(v: Seq<RawSymbol>) -> Seq<SymbolText> {
    v.map_values(|s: RawSymbol| symbol_text(s))
}

/// The symbol `name` of kind `kind` declared on line `num`, whose text is
/// `line`.
pub open spec fn sym(
    name: Seq<char>,
    kind: Seq<char>,
    line: Seq<char>,
    num: int,
    parent: Option<Seq<char>>,
    visibility: Seq<char>,
) -> SymbolText {
    SymbolText { name, kind, signature: trim_seq(line), line_number: num, parent, visibility }
}

fn make_sym(
    name: String,
    kind: &'static str,
    line: &Vec<char>,
    num: usize,
    parent: Option<String>,
    visibility: &'static str,
) -> (r: RawSymbol)
    ensures
        symbol_text(r) == sym(name@, kind@, line@, num as int, opt_view(parent), visibility@),
{
    let t = trim_vec(line);
    RawSymbol { name, kind, signature: string_of(&t), line_number: num, parent, visibility }
}

/// The captures of pattern `p` on `line`.
pub open spec fn cap(p: Seq<char>, line: Seq<char>) -> Option<Seq<Option<Seq<char>>>> {
    regex_captures_of(p, line)
}

/// Pattern `p` matches `line`.
pub open spec fn hit(p: Seq<char>, line: Seq<char>) -> bool {
    cap(p, line) is Some
}

/// Group `i` of the match of `p` on `line` (empty when absent).
pub open spec fn grp(p: Seq<char>, line: Seq<char>, i: int) -> Seq<char> {
    match cap(p, line) {
        Some(c) => group(c, i),
        None => seq![],
    }
}

/// Every pattern of `srcs` compiles.
pub open spec fn all_compile(srcs: Seq<Seq<char>>) -> bool {
    forall|i: int| 0 <= i < srcs.len() ==> regex_compiles(#[trigger] srcs[i])
}

/// The sources of compiled patterns.
pub open spec fn pattern_sources(ps: Seq<Pattern>) -> Seq<Seq<char>> {
    ps.map_values(|p: Pattern| p.source())
}

/// Compiled patterns line up with their sources.
pub proof fn lemma_sources(ps: Seq<Pattern>, srcs: Seq<Seq<char>>)
    requires
        pattern_sources(ps) == srcs,
    ensures
        ps.len() == srcs.len(),
        forall|i: int| 0 <= i < ps.len() ==> (#[trigger] ps[i]).source() == srcs[i],
{
    assert forall|i: int| 0 <= i < ps.len() implies (#[trigger] ps[i]).source() == srcs[i] by {
        assert(pattern_sources(ps)[i] == ps[i].source());
    }
}

/// Compile each of `srcs`; `None` when one of them does not compile.
fn compile_all(srcs: &Vec<&'static str>) -> (r: Option<Vec<Pattern>>)
    ensures
        r is None <==> !all_compile(srcs@.map_values(|s: &'static str| s@)),
        r matches Some(ps) ==> pattern_sources(ps@) == srcs@.map_values(|s: &'static str| s@),
{
    let ghost sv = srcs@.map_values(|s: &'static str| s@);
    let mut ps: Vec<Pattern> = Vec::new();
    let mut i: usize = 0;
    while i < srcs.len()
        invariant
            i <= srcs.len(),
            sv == srcs@.map_values(|s: &'static str| s@),
            pattern_sources(ps@) == sv.take(i as int),
            forall|k: int| 0 <= k < i ==> regex_compiles(#[trigger] sv[k]),
        decreases srcs.len() - i,
    {
        match compile(srcs[i]) {
            Some(p) => {
                proof {
                    assert(pattern_sources(ps@.push(p)) =~= pattern_sources(ps@).push(p.source()));
                    assert(sv.take(i + 1) =~= sv.take(i as int).push(sv[i as int]));
                }
                ps.push(p);
            },
            None => {
                proof {
                    assert(sv[i as int] == srcs@[i as int]@);
                    assert(!regex_compiles(sv[i as int]));
                }
                return None;
            },
        }
        i += 1;
    }
    proof {
        assert(sv.take(srcs.len() as int) =~= sv);
    }
    Some(ps)
}

/// The captures of `p` on `line`.
fn cap_exec(p: &Pattern, line: &String) -> (r: Option<Vec<Option<String>>>)
    ensures
        captures_view(r) == cap(p.source(), line@),
{
    captures(p, line.as_str())
}

/// The state carried from line to line: the enclosing class (or impl
/// block), the depth or indentation at which it was opened, and the current
/// brace depth.
pub struct Scan {
    pub parent: Option<String>,
    pub scope: i128,
    pub depth: i128,
}

/// The carried state as plain values.
pub struct ScanView {
    pub parent: Option<Seq<char>>,
    pub scope: int,
    pub depth: int,
}

/// The view of the carried state.
pub open spec fn scan_view(s: Scan) -> ScanView {
    ScanView { parent: opt_view(s.parent), scope: s.scope as int, depth: s.depth as int }
}

/// The state before the first line.
pub open spec fn initial_scan() -> ScanView {
    ScanView { parent: None, scope: 0, depth: 0 }
}

/// `kind` for a function: a method inside a class or impl block.
pub open spec fn fn_kind(parent: Option<Seq<char>>) -> Seq<char> {
    if parent is Some {
        "method"@
    } else {
        "function"@
    }
}

fn fn_kind_exec(parent: &Option<String>) -> (k: &'static str)
    ensures
        k@ == fn_kind(opt_view(*parent)),
{
    if parent.is_some() {
        "method"
    } else {
        "function"
    }
}

fn copy_opt(o: &Option<String>) -> (r: Option<String>)
    ensures
        opt_view(r) == opt_view(*o),
{
    match o {
        Some(s) => Some(owned(s.as_str())),
        None => None,
    }
}

/// The brace depth after the characters `cs`, starting from `depth`.
pub open spec fn depth_after(depth: int, cs: Seq<char>) -> int
    decreases cs.len(),
{
    if cs.len() == 0 {
        depth
    } else {
        depth_after(depth, cs.drop_last()) + if cs.last() == '{' {
            1int
        } else if cs.last() == '}' {
            -1int
        } else {
            0int
        }
    }
}

/// The depth moves by at most one per character.
pub proof fn lemma_depth_after(depth: int, cs: Seq<char>)
    ensures
        depth - cs.len() <= depth_after(depth, cs) <= depth + cs.len(),
    decreases cs.len(),
{
    if cs.len() > 0 {
        lemma_depth_after(depth, cs.drop_last());
    }
}

fn depth_after_exec(depth: i128, cs: &Vec<char>) -> (d: i128)
    requires
        -0x1000_0000_0000_0000_0000_0000_0000 <= depth <= 0x1000_0000_0000_0000_0000_0000_0000,
    ensures
        d == depth_after(depth as int, cs@),
{
    let mut d = depth;
    let mut k: usize = 0;
    while k < cs.len()
        invariant
            k <= cs.len(),
            -0x1000_0000_0000_0000_0000_0000_0000 <= depth <= 0x1000_0000_0000_0000_0000_0000_0000,
            d == depth_after(depth as int, cs@.take(k as int)),
        decreases cs.len() - k,
    {
        proof {
            assert(cs@.take(k + 1).drop_last() =~= cs@.take(k as int));
            lemma_depth_after(depth as int, cs@.take(k as int));
        }
        if cs[k] == '{' {
            d = d + 1;
        } else if cs[k] == '}' {
            d = d - 1;
        }
        k += 1;
    }
    proof {
        assert(cs@.take(cs.len() as int) =~= cs@);
    }
    d
}

fn count_char_exec(cs: &Vec<char>, c: char) -> (n: usize)
    ensures
        n == count_char(cs@, c),
{
    let mut n: usize = 0;
    let mut k: usize = 0;
    while k < cs.len()
        invariant
            k <= cs.len(),
            n == count_char(cs@.take(k as int), c),
        decreases cs.len() - k,
    {
        proof {
            assert(cs@.take(k + 1).drop_last() =~= cs@.take(k as int));
            lemma_count_char_bound(cs@.take(k as int), c);
        }
        if cs[k] == c {
            n = n + 1;
        }
        k += 1;
    }
    proof {
        assert(cs@.take(cs.len() as int) =~= cs@);
    }
    n
}

// ---------------------------------------------------------------------------
// Rust
// ---------------------------------------------------------------------------

/// The Rust patterns: fn, struct, enum, trait, type, const/static, use,
/// impl.
pub open spec fn rust_patterns() -> Seq<Seq<char>> {
    seq![
        r"^\s*(?:pub(?:\((?:crate|super)\))?\s+)?(?:async\s+)?(?:unsafe\s+)?fn\s+(\w+)"@,
        r"^\s*(?:pub(?:\((?:crate|super)\))?\s+)?struct\s+(\w+)"@,
        r"^\s*(?:pub(?:\((?:crate|super)\))?\s+)?enum\s+(\w+)"@,
        r"^\s*(?:pub(?:\((?:crate|super)\))?\s+)?trait\s+(\w+)"@,
        r"^\s*(?:pub(?:\((?:crate|super)\))?\s+)?type\s+(\w+)"@,
        r"^\s*(?:pub(?:\((?:crate|super)\))?\s+)?(?:const|static)\s+(\w+)"@,
        r"^\s*(?:pub\s+)?use\s+(.+);"@,
        r"^\s*impl(?:<[^>]*>)?\s+(?:(\w+)\s+for\s+)?(\w+)"@,
    ]
}

fn rust_sources() -> (v: Vec<&'static str>)
    ensures
        v@.map_values(|s: &'static str| s@) == rust_patterns(),
{
    let v = vec![
        r"^\s*(?:pub(?:\((?:crate|super)\))?\s+)?(?:async\s+)?(?:unsafe\s+)?fn\s+(\w+)",
        r"^\s*(?:pub(?:\((?:crate|super)\))?\s+)?struct\s+(\w+)",
        r"^\s*(?:pub(?:\((?:crate|super)\))?\s+)?enum\s+(\w+)",
        r"^\s*(?:pub(?:\((?:crate|super)\))?\s+)?trait\s+(\w+)",
        r"^\s*(?:pub(?:\((?:crate|super)\))?\s+)?type\s+(\w+)",
        r"^\s*(?:pub(?:\((?:crate|super)\))?\s+)?(?:const|static)\s+(\w+)",
        r"^\s*(?:pub\s+)?use\s+(.+);",
        r"^\s*impl(?:<[^>]*>)?\s+(?:(\w+)\s+for\s+)?(\w+)",
    ];
    proof {
        assert(v@.map_values(|s: &'static str| s@) =~= rust_patterns());
    }
    v
}

/// The brace depth and enclosing impl block after the characters `cs`: a
/// closing brace at or above the impl's depth leaves the impl block.
pub open spec fn rust_braces(depth: int, scope: int, parent: Option<Seq<char>>, cs: Seq<char>) -> (
    int,
    Option<Seq<char>>,
)
    decreases cs.len(),
{
    if cs.len() == 0 {
        (depth, parent)
    } else {
        let (d, p) = rust_braces(depth, scope, parent, cs.drop_last());
        if cs.last() == '{' {
            (d + 1, p)
        } else if cs.last() == '}' {
            (d - 1, if d - 1 <= scope && p is Some {
                None
            } else {
                p
            })
        } else {
            (d, p)
        }
    }
}

/// The Rust step: the state after `line` (line number `num`) and the symbol
/// it declares, if any.
pub open spec fn rust_step(st: ScanView, line: Seq<char>, num: int) -> (ScanView, Option<SymbolText>) {
    let p = rust_patterns();
    let (d, par) = rust_braces(st.depth, st.scope, st.parent, line);
    let st1 = ScanView { parent: par, scope: st.scope, depth: d };
    let vis = visibility_of(line, "rust"@);
    if hit(p[7], line) {
        (ScanView { parent: Some(grp(p[7], line, 2)), scope: d - count_char(line, '{'), depth: d }, None)
    } else if hit(p[0], line) {
        (st1, Some(sym(grp(p[0], line, 1), fn_kind(par), line, num, par, vis)))
    } else if hit(p[1], line) {
        (st1, Some(sym(grp(p[1], line, 1), "struct"@, line, num, None, vis)))
    } else if hit(p[2], line) {
        (st1, Some(sym(grp(p[2], line, 1), "enum"@, line, num, None, vis)))
    } else if hit(p[3], line) {
        (st1, Some(sym(grp(p[3], line, 1), "trait"@, line, num, None, vis)))
    } else if hit(p[4], line) {
        (st1, Some(sym(grp(p[4], line, 1), "type_alias"@, line, num, par, vis)))
    } else if hit(p[5], line) {
        (st1, Some(sym(grp(p[5], line, 1), "constant"@, line, num, par, vis)))
    } else if hit(p[6], line) {
        (st1, Some(sym(after_last(trim_seq(grp(p[6], line, 1)), "::"@), "import"@, line, num, None, vis)))
    } else {
        (st1, None)
    }
}

fn rust_braces_exec(st: &mut Scan, cs: &Vec<char>)
    requires
        -0x1000_0000_0000_0000_0000_0000_0000 <= old(st).depth <= 0x1000_0000_0000_0000_0000_0000_0000,
    ensures
        (final(st).depth as int, opt_view(final(st).parent)) == rust_braces(
            old(st).depth as int,
            old(st).scope as int,
            opt_view(old(st).parent),
            cs@,
        ),
        final(st).scope == old(st).scope,
{
    let ghost d0 = st.depth as int;
    let ghost s0 = st.scope as int;
    let ghost p0 = opt_view(st.parent);
    let mut k: usize = 0;
    while k < cs.len()
        invariant
            k <= cs.len(),
            -0x1000_0000_0000_0000_0000_0000_0000 <= d0 <= 0x1000_0000_0000_0000_0000_0000_0000,
            st.scope == s0,
            (st.depth as int, opt_view(st.parent)) == rust_braces(d0, s0, p0, cs@.take(k as int)),
        decreases cs.len() - k,
    {
        proof {
            assert(cs@.take(k + 1).drop_last() =~= cs@.take(k as int));
            lemma_rust_braces_depth(d0, s0, p0, cs@.take(k as int));
        }
        if cs[k] == '{' {
            st.depth = st.depth + 1;
        } else if cs[k] == '}' {
            st.depth = st.depth - 1;
            if st.depth <= st.scope && st.parent.is_some() {
                st.parent = None;
            }
        }
        k += 1;
    }
    proof {
        assert(cs@.take(cs.len() as int) =~= cs@);
    }
}

/// The depth of `rust_braces` is the plain brace depth.
pub proof fn lemma_rust_braces_depth(depth: int, scope: int, parent: Option<Seq<char>>, cs: Seq<char>)
    ensures
        rust_braces(depth, scope, parent, cs).0 == depth_after(depth, cs),
        depth - cs.len() <= rust_braces(depth, scope, parent, cs).0 <= depth + cs.len(),
    decreases cs.len(),
{
    if cs.len() > 0 {
        lemma_rust_braces_depth(depth, scope, parent, cs.drop_last());
    }
}

fn rust_step_exec(ps: &Vec<Pattern>, st: &mut Scan, line: &Vec<char>, num: usize) -> (r: Option<RawSymbol>)
    requires
        pattern_sources(ps@) == rust_patterns(),
        -0x1000_0000_0000_0000_0000_0000_0000 <= old(st).depth <= 0x1000_0000_0000_0000_0000_0000_0000,
    ensures
        (scan_view(*final(st)), match r {
            Some(s) => Some(symbol_text(s)),
            None => None,
        }) == rust_step(scan_view(*old(st)), line@, num as int),
{
    proof {
        lemma_sources(ps@, rust_patterns());
    }
    let text = string_of(line);
    rust_braces_exec(st, line);
    let vis = extract_visibility(line, "rust");
    if let Some(c) = cap_exec(&ps[7], &text) {
        let opens = count_char_exec(line, '{');
        let n = line.len();
        proof {
            lemma_count_char_bound(line@, '{');
            assert(opens <= n);
            lemma_rust_braces_depth(scan_view(*old(st)).depth, scan_view(*old(st)).scope, scan_view(*old(st)).parent, line@);
        }
        assert(st.depth >= -0x1000_0000_0000_0000_0000_0000_0000 - n);
        st.parent = Some(group_text(&c, 2));
        st.scope = st.depth - opens as i128;
        return None;
    }
    let par = copy_opt(&st.parent);
    if let Some(c) = cap_exec(&ps[0], &text) {
        Some(make_sym(group_text(&c, 1), fn_kind_exec(&st.parent), line, num, par, vis))
    } else if let Some(c) = cap_exec(&ps[1], &text) {
        Some(make_sym(group_text(&c, 1), "struct", line, num, None, vis))
    } else if let Some(c) = cap_exec(&ps[2], &text) {
        Some(make_sym(group_text(&c, 1), "enum", line, num, None, vis))
    } else if let Some(c) = cap_exec(&ps[3], &text) {
        Some(make_sym(group_text(&c, 1), "trait", line, num, None, vis))
    } else if let Some(c) = cap_exec(&ps[4], &text) {
        Some(make_sym(group_text(&c, 1), "type_alias", line, num, par, vis))
    } else if let Some(c) = cap_exec(&ps[5], &text) {
        Some(make_sym(group_text(&c, 1), "constant", line, num, par, vis))
    } else if let Some(c) = cap_exec(&ps[6], &text) {
        let path = group_text(&c, 1);
        let pv = chars_of(path.as_str());
        let tp = trim_vec(&pv);
        let sep = chars_of("::");
        let name = after_last_exec(&tp, &sep);
        Some(make_sym(string_of(&name), "import", line, num, None, vis))
    } else {
        None
    }
}

// ---------------------------------------------------------------------------
// Languages with brace-delimited classes
// ---------------------------------------------------------------------------

/// The state after the braces of `line` for languages whose classes are
/// brace-delimited: the depth moves, and a class whose opening depth is
/// reached again is left.
pub open spec fn class_braces(st: ScanView, line: Seq<char>) -> ScanView {
    let d = depth_after(st.depth, line);
    ScanView {
        parent: if st.parent is Some && d <= st.scope {
            None
        } else {
            st.parent
        },
        scope: st.scope,
        depth: d,
    }
}

fn class_braces_exec(st: &mut Scan, line: &Vec<char>)
    requires
        -0x1000_0000_0000_0000_0000_0000_0000 <= old(st).depth <= 0x1000_0000_0000_0000_0000_0000_0000,
    ensures
        scan_view(*final(st)) == class_braces(scan_view(*old(st)), line@),
{
    let d = depth_after_exec(st.depth, line);
    if st.parent.is_some() && d <= st.scope {
        st.parent = None;
    }
    st.depth = d;
}

/// The state once a class named `name` opens on a line that began at depth
/// `prev`.
pub open spec fn enter_class(st1: ScanView, name: Seq<char>, prev: int) -> ScanView {
    ScanView { parent: Some(name), scope: prev, depth: st1.depth }
}

/// The JavaScript/TypeScript patterns: function, class, interface, type,
/// function-valued binding, arrow function, constant, import, enum.
pub open spec fn script_srcs() -> Seq<Seq<char>> {
    seq![
        r"^\s*(?:export\s+)?(?:default\s+)?(?:async\s+)?function\s+(\w+)"@,
        r"^\s*(?:export\s+)?(?:default\s+)?(?:abstract\s+)?class\s+(\w+)"@,
        r"^\s*(?:export\s+)?interface\s+(\w+)"@,
        r"^\s*(?:export\s+)?type\s+(\w+)\s*="@,
        r"^\s*(?:export\s+)?(?:const|let|var)\s+(\w+)\s*=\s*(?:async\s+)?\("@,
        r"^\s*(?:export\s+)?(?:const|let|var)\s+(\w+)\s*=\s*(?:async\s+)?(?:\([^)]*\)|[\w]+)\s*=>"@,
        r"^\s*(?:export\s+)?(?:const|let|var)\s+([A-Z][A-Z_0-9]+)\s*="@,
        r"^\s*import\s+"@,
        r"^\s*(?:export\s+)?(?:const\s+)?enum\s+(\w+)"@,
    ]
}

fn script_sources() -> (v: Vec<&'static str>)
    ensures
        v@.map_values(|s: &'static str| s@) == script_srcs(),
{
    let v = vec![
        r"^\s*(?:export\s+)?(?:default\s+)?(?:async\s+)?function\s+(\w+)",
        r"^\s*(?:export\s+)?(?:default\s+)?(?:abstract\s+)?class\s+(\w+)",
        r"^\s*(?:export\s+)?interface\s+(\w+)",
        r"^\s*(?:export\s+)?type\s+(\w+)\s*=",
        r"^\s*(?:export\s+)?(?:const|let|var)\s+(\w+)\s*=\s*(?:async\s+)?\(",
        r"^\s*(?:export\s+)?(?:const|let|var)\s+(\w+)\s*=\s*(?:async\s+)?(?:\([^)]*\)|[\w]+)\s*=>",
        r"^\s*(?:export\s+)?(?:const|let|var)\s+([A-Z][A-Z_0-9]+)\s*=",
        r"^\s*import\s+",
        r"^\s*(?:export\s+)?(?:const\s+)?enum\s+(\w+)",
    ];
    proof {
        assert(v@.map_values(|s: &'static str| s@) =~= script_srcs());
    }
    v
}

/// The module an import line names: what follows the last `from` once the
/// trailing semicolons are dropped, without spaces and quotes.
pub open spec fn script_import_name(line: Seq<char>) -> Seq<char> {
    trim_quotes(trim_seq(after_last(trim_end_char(trim_seq(line), ';'), "from"@)))
}

/// The JavaScript/TypeScript step.
pub open spec fn script_step(st: ScanView, line: Seq<char>, num: int) -> (ScanView, Option<SymbolText>) {
    let p = script_srcs();
    let st1 = class_braces(st, line);
    let par = st1.parent;
    let js = visibility_of(line, "javascript"@);
    let ts = visibility_of(line, "typescript"@);
    if hit(p[1], line) {
        (enter_class(st1, grp(p[1], line, 1), st.depth), Some(sym(grp(p[1], line, 1), "class"@, line, num, None, js)))
    } else if hit(p[0], line) {
        (st1, Some(sym(grp(p[0], line, 1), fn_kind(par), line, num, par, js)))
    } else if hit(p[2], line) {
        (st1, Some(sym(grp(p[2], line, 1), "interface"@, line, num, None, ts)))
    } else if hit(p[8], line) {
        (st1, Some(sym(grp(p[8], line, 1), "enum"@, line, num, None, ts)))
    } else if hit(p[3], line) {
        (st1, Some(sym(grp(p[3], line, 1), "type_alias"@, line, num, None, ts)))
    } else if hit(p[5], line) {
        (st1, Some(sym(grp(p[5], line, 1), "function"@, line, num, par, js)))
    } else if hit(p[4], line) {
        (st1, Some(sym(grp(p[4], line, 1), "function"@, line, num, par, js)))
    } else if hit(p[6], line) {
        (st1, Some(sym(grp(p[6], line, 1), "constant"@, line, num, None, js)))
    } else if hit(p[7], line) {
        (st1, Some(sym(script_import_name(line), "import"@, line, num, None, "pub"@)))
    } else {
        (st1, None)
    }
}

fn script_import_name_exec(line: &Vec<char>) -> (name: String)
    ensures
        name@ == script_import_name(line@),
{
    let t = trim_vec(line);
    let u = trim_end_char_exec(&t, ';');
    let from = chars_of("from");
    let a = after_last_exec(&u, &from);
    let b = trim_vec(&a);
    let c = trim_quotes_exec(&b);
    string_of(&c)
}

fn script_step_exec(ps: &Vec<Pattern>, st: &mut Scan, line: &Vec<char>, num: usize) -> (r: Option<RawSymbol>)
    requires
        pattern_sources(ps@) == script_srcs(),
        -0x1000_0000_0000_0000_0000_0000_0000 <= old(st).depth <= 0x1000_0000_0000_0000_0000_0000_0000,
    ensures
        (scan_view(*final(st)), match r {
            Some(s) => Some(symbol_text(s)),
            None => None,
        }) == script_step(scan_view(*old(st)), line@, num as int),
{
    proof {
        lemma_sources(ps@, script_srcs());
    }
    let text = string_of(line);
    let prev = st.depth;
    class_braces_exec(st, line);
    let js = extract_visibility(line, "javascript");
    let ts = extract_visibility(line, "typescript");
    if let Some(c) = cap_exec(&ps[1], &text) {
        st.parent = Some(group_text(&c, 1));
        st.scope = prev;
        return Some(make_sym(group_text(&c, 1), "class", line, num, None, js));
    }
    let par = copy_opt(&st.parent);
    if let Some(c) = cap_exec(&ps[0], &text) {
        Some(make_sym(group_text(&c, 1), fn_kind_exec(&st.parent), line, num, par, js))
    } else if let Some(c) = cap_exec(&ps[2], &text) {
        Some(make_sym(group_text(&c, 1), "interface", line, num, None, ts))
    } else if let Some(c) = cap_exec(&ps[8], &text) {
        Some(make_sym(group_text(&c, 1), "enum", line, num, None, ts))
    } else if let Some(c) = cap_exec(&ps[3], &text) {
        Some(make_sym(group_text(&c, 1), "type_alias", line, num, None, ts))
    } else if let Some(c) = cap_exec(&ps[5], &text) {
        Some(make_sym(group_text(&c, 1), "function", line, num, par, js))
    } else if let Some(c) = cap_exec(&ps[4], &text) {
        Some(make_sym(group_text(&c, 1), "function", line, num, par, js))
    } else if let Some(c) = cap_exec(&ps[6], &text) {
        Some(make_sym(group_text(&c, 1), "constant", line, num, None, js))
    } else if cap_exec(&ps[7], &text).is_some() {
        Some(make_sym(script_import_name_exec(line), "import", line, num, None, "pub"))
    } else {
        None
    }
}

/// Control-flow words that Java-like method patterns also match.
pub open spec fn java_keyword(n: Seq<char>) -> bool {
    n == "if"@ || n == "else"@ || n == "for"@ || n == "while"@ || n == "switch"@ || n == "catch"@
        || n == "return"@ || n == "new"@
}

/// Control-flow words that C/C++ function patterns also match.
pub open spec fn cpp_keyword(n: Seq<char>) -> bool {
    java_keyword(n) || n == "delete"@
}

fn java_keyword_exec(n: &String) -> (b: bool)
    ensures
        b == java_keyword(n@),
{
    let s = n.as_str();
    str_eq(s, "if") || str_eq(s, "else") || str_eq(s, "for") || str_eq(s, "while") || str_eq(s, "switch")
        || str_eq(s, "catch") || str_eq(s, "return") || str_eq(s, "new")
}

/// The Java/Kotlin/C# patterns: class, interface, method, import, enum.
pub open spec fn java_srcs() -> Seq<Seq<char>> {
    seq![
        r"^\s*(?:public\s+|private\s+|protected\s+)?(?:abstract\s+|final\s+)?class\s+(\w+)"@,
        r"^\s*(?:public\s+|private\s+|protected\s+)?interface\s+(\w+)"@,
        r"^\s*(?:public\s+|private\s+|protected\s+)?(?:static\s+)?(?:abstract\s+)?(?:final\s+)?(?:synchronized\s+)?(?:\w+(?:<[^>]*>)?)\s+(\w+)\s*\("@,
        r"^\s*import\s+(.+);"@,
        r"^\s*(?:public\s+|private\s+|protected\s+)?enum\s+(\w+)"@,
    ]
}

fn java_sources() -> (v: Vec<&'static str>)
    ensures
        v@.map_values(|s: &'static str| s@) == java_srcs(),
{
    let v = vec![
        r"^\s*(?:public\s+|private\s+|protected\s+)?(?:abstract\s+|final\s+)?class\s+(\w+)",
        r"^\s*(?:public\s+|private\s+|protected\s+)?interface\s+(\w+)",
        r"^\s*(?:public\s+|private\s+|protected\s+)?(?:static\s+)?(?:abstract\s+)?(?:final\s+)?(?:synchronized\s+)?(?:\w+(?:<[^>]*>)?)\s+(\w+)\s*\(",
        r"^\s*import\s+(.+);",
        r"^\s*(?:public\s+|private\s+|protected\s+)?enum\s+(\w+)",
    ];
    proof {
        assert(v@.map_values(|s: &'static str| s@) =~= java_srcs());
    }
    v
}

/// The Java/Kotlin/C# step.
pub open spec fn java_step(st: ScanView, line: Seq<char>, num: int) -> (ScanView, Option<SymbolText>) {
    let p = java_srcs();
    let st1 = class_braces(st, line);
    let par = st1.parent;
    let vis = visibility_of(line, "java"@);
    if hit(p[0], line) {
        (enter_class(st1, grp(p[0], line, 1), st.depth), Some(sym(grp(p[0], line, 1), "class"@, line, num, None, vis)))
    } else if hit(p[1], line) {
        (st1, Some(sym(grp(p[1], line, 1), "interface"@, line, num, None, vis)))
    } else if hit(p[4], line) {
        (st1, Some(sym(grp(p[4], line, 1), "enum"@, line, num, None, vis)))
    } else if hit(p[2], line) {
        if java_keyword(grp(p[2], line, 1)) {
            (st1, None)
        } else {
            (st1, Some(sym(grp(p[2], line, 1), fn_kind(par), line, num, par, vis)))
        }
    } else if hit(p[3], line) {
        (st1, Some(sym(after_last(trim_seq(grp(p[3], line, 1)), "."@), "import"@, line, num, None, "pub"@)))
    } else {
        (st1, None)
    }
}

fn java_step_exec(ps: &Vec<Pattern>, st: &mut Scan, line: &Vec<char>, num: usize) -> (r: Option<RawSymbol>)
    requires
        pattern_sources(ps@) == java_srcs(),
        -0x1000_0000_0000_0000_0000_0000_0000 <= old(st).depth <= 0x1000_0000_0000_0000_0000_0000_0000,
    ensures
        (scan_view(*final(st)), match r {
            Some(s) => Some(symbol_text(s)),
            None => None,
        }) == java_step(scan_view(*old(st)), line@, num as int),
{
    proof {
        lemma_sources(ps@, java_srcs());
    }
    let text = string_of(line);
    let prev = st.depth;
    class_braces_exec(st, line);
    let vis = extract_visibility(line, "java");
    if let Some(c) = cap_exec(&ps[0], &text) {
        st.parent = Some(group_text(&c, 1));
        st.scope = prev;
        return Some(make_sym(group_text(&c, 1), "class", line, num, None, vis));
    }
    let par = copy_opt(&st.parent);
    if let Some(c) = cap_exec(&ps[1], &text) {
        Some(make_sym(group_text(&c, 1), "interface", line, num, None, vis))
    } else if let Some(c) = cap_exec(&ps[4], &text) {
        Some(make_sym(group_text(&c, 1), "enum", line, num, None, vis))
    } else if let Some(c) = cap_exec(&ps[2], &text) {
        let name = group_text(&c, 1);
        if java_keyword_exec(&name) {
            None
        } else {
            Some(make_sym(name, fn_kind_exec(&st.parent), line, num, par, vis))
        }
    } else if let Some(c) = cap_exec(&ps[3], &text) {
        let path = group_text(&c, 1);
        let pv = chars_of(path.as_str());
        let tp = trim_vec(&pv);
        let dot = chars_of(".");
        let name = after_last_exec(&tp, &dot);
        Some(make_sym(string_of(&name), "import", line, num, None, "pub"))
    } else {
        None
    }
}

/// The C/C++ patterns: class or struct, function, include, enum.
pub open spec fn cpp_srcs() -> Seq<Seq<char>> {
    seq![
        r"^\s*(?:class|struct)\s+(\w+)"@,
        r"^\s*(?:static\s+|virtual\s+|inline\s+)?(?:const\s+)?(?:\w+(?:::\w+)*(?:<[^>]*>)?[*&\s]+)(\w+)\s*\("@,
        r#"^\s*#include\s+[<"]([^>"]+)[>"]"#@,
        r"^\s*enum\s+(?:class\s+)?(\w+)"@,
    ]
}

fn cpp_sources() -> (v: Vec<&'static str>)
    ensures
        v@.map_values(|s: &'static str| s@) == cpp_srcs(),
{
    let v = vec![
        r"^\s*(?:class|struct)\s+(\w+)",
        r"^\s*(?:static\s+|virtual\s+|inline\s+)?(?:const\s+)?(?:\w+(?:::\w+)*(?:<[^>]*>)?[*&\s]+)(\w+)\s*\(",
        r#"^\s*#include\s+[<"]([^>"]+)[>"]"#,
        r"^\s*enum\s+(?:class\s+)?(\w+)",
    ];
    proof {
        assert(v@.map_values(|s: &'static str| s@) =~= cpp_srcs());
    }
    v
}

/// The kind of a C/C++ class line: `struct` when the line starts with it.
pub open spec fn cpp_class_kind(line: Seq<char>) -> Seq<char> {
    if starts_with_seq(trim_seq(line), "struct"@) {
        "struct"@
    } else {
        "class"@
    }
}

/// The C/C++ step.
pub open spec fn cpp_step(st: ScanView, line: Seq<char>, num: int) -> (ScanView, Option<SymbolText>) {
    let p = cpp_srcs();
    let st1 = class_braces(st, line);
    let par = st1.parent;
    let vis = visibility_of(line, "cpp"@);
    if hit(p[0], line) {
        (enter_class(st1, grp(p[0], line, 1), st.depth), Some(sym(grp(p[0], line, 1), cpp_class_kind(line), line, num, None, vis)))
    } else if hit(p[3], line) {
        (st1, Some(sym(grp(p[3], line, 1), "enum"@, line, num, None, vis)))
    } else if hit(p[1], line) {
        if cpp_keyword(grp(p[1], line, 1)) {
            (st1, None)
        } else {
            (st1, Some(sym(grp(p[1], line, 1), fn_kind(par), line, num, par, vis)))
        }
    } else if hit(p[2], line) {
        (st1, Some(sym(grp(p[2], line, 1), "import"@, line, num, None, "pub"@)))
    } else {
        (st1, None)
    }
}

fn cpp_step_exec(ps: &Vec<Pattern>, st: &mut Scan, line: &Vec<char>, num: usize) -> (r: Option<RawSymbol>)
    requires
        pattern_sources(ps@) == cpp_srcs(),
        -0x1000_0000_0000_0000_0000_0000_0000 <= old(st).depth <= 0x1000_0000_0000_0000_0000_0000_0000,
    ensures
        (scan_view(*final(st)), match r {
            Some(s) => Some(symbol_text(s)),
            None => None,
        }) == cpp_step(scan_view(*old(st)), line@, num as int),
{
    proof {
        lemma_sources(ps@, cpp_srcs());
    }
    let text = string_of(line);
    let prev = st.depth;
    class_braces_exec(st, line);
    let vis = extract_visibility(line, "cpp");
    if let Some(c) = cap_exec(&ps[0], &text) {
        st.parent = Some(group_text(&c, 1));
        st.scope = prev;
        let t = trim_vec(line);
        let kind = if matches_at_exec(&t, 0, &chars_of("struct")) {
            "struct"
        } else {
            "class"
        };
        return Some(make_sym(group_text(&c, 1), kind, line, num, None, vis));
    }
    let par = copy_opt(&st.parent);
    if let Some(c) = cap_exec(&ps[3], &text) {
        Some(make_sym(group_text(&c, 1), "enum", line, num, None, vis))
    } else if let Some(c) = cap_exec(&ps[1], &text) {
        let name = group_text(&c, 1);
        if java_keyword_exec(&name) || str_eq(name.as_str(), "delete") {
            None
        } else {
            Some(make_sym(name, fn_kind_exec(&st.parent), line, num, par, vis))
        }
    } else if let Some(c) = cap_exec(&ps[2], &text) {
        Some(make_sym(group_text(&c, 1), "import", line, num, None, "pub"))
    } else {
        None
    }
}

// ---------------------------------------------------------------------------
// Go and the generic fallback (no state)
// ---------------------------------------------------------------------------

/// The Go patterns: func, struct type, interface type, other type,
/// const/var, import, method with receiver.
pub open spec fn go_srcs() -> Seq<Seq<char>> {
    seq![
        r"^\s*func\s+(?:\([^)]+\)\s*)?(\w+)"@,
        r"^\s*type\s+(\w+)\s+struct\b"@,
        r"^\s*type\s+(\w+)\s+interface\b"@,
        r"^\s*type\s+(\w+)\s+\w"@,
        r"^\s*(?:const|var)\s+(\w+)"@,
        r#"^\s*import\s+(?:\(\s*)?(?:"([^"]+)")"#@,
        r"^\s*func\s+\((\w+)\s+\*?(\w+)\)\s*(\w+)"@,
    ]
}

fn go_sources() -> (v: Vec<&'static str>)
    ensures
        v@.map_values(|s: &'static str| s@) == go_srcs(),
{
    let v = vec![
        r"^\s*func\s+(?:\([^)]+\)\s*)?(\w+)",
        r"^\s*type\s+(\w+)\s+struct\b",
        r"^\s*type\s+(\w+)\s+interface\b",
        r"^\s*type\s+(\w+)\s+\w",
        r"^\s*(?:const|var)\s+(\w+)",
        r#"^\s*import\s+(?:\(\s*)?(?:"([^"]+)")"#,
        r"^\s*func\s+\((\w+)\s+\*?(\w+)\)\s*(\w+)",
    ];
    proof {
        assert(v@.map_values(|s: &'static str| s@) =~= go_srcs());
    }
    v
}

/// The Go step (the state is unchanged).
pub open spec fn go_step(st: ScanView, line: Seq<char>, num: int) -> (ScanView, Option<SymbolText>) {
    let p = go_srcs();
    let vis = visibility_of(line, "go"@);
    if hit(p[6], line) {
        (st, Some(sym(grp(p[6], line, 3), "method"@, line, num, Some(grp(p[6], line, 2)), vis)))
    } else if hit(p[0], line) {
        (st, Some(sym(grp(p[0], line, 1), "function"@, line, num, None, vis)))
    } else if hit(p[1], line) {
        (st, Some(sym(grp(p[1], line, 1), "struct"@, line, num, None, vis)))
    } else if hit(p[2], line) {
        (st, Some(sym(grp(p[2], line, 1), "interface"@, line, num, None, vis)))
    } else if hit(p[3], line) {
        (st, Some(sym(grp(p[3], line, 1), "type_alias"@, line, num, None, vis)))
    } else if hit(p[4], line) {
        (st, Some(sym(grp(p[4], line, 1), "constant"@, line, num, None, vis)))
    } else if hit(p[5], line) {
        (st, Some(sym(grp(p[5], line, 1), "import"@, line, num, None, "pub"@)))
    } else {
        (st, None)
    }
}

fn go_step_exec(ps: &Vec<Pattern>, line: &Vec<char>, num: usize) -> (r: Option<RawSymbol>)
    requires
        pattern_sources(ps@) == go_srcs(),
    ensures
        forall|st: ScanView| (st, match r {
            Some(s) => Some(symbol_text(s)),
            None => None,
        }) == #[trigger] go_step(st, line@, num as int),
{
    proof {
        lemma_sources(ps@, go_srcs());
    }
    let text = string_of(line);
    let vis = extract_visibility(line, "go");
    if let Some(c) = cap_exec(&ps[6], &text) {
        Some(make_sym(group_text(&c, 3), "method", line, num, Some(group_text(&c, 2)), vis))
    } else if let Some(c) = cap_exec(&ps[0], &text) {
        Some(make_sym(group_text(&c, 1), "function", line, num, None, vis))
    } else if let Some(c) = cap_exec(&ps[1], &text) {
        Some(make_sym(group_text(&c, 1), "struct", line, num, None, vis))
    } else if let Some(c) = cap_exec(&ps[2], &text) {
        Some(make_sym(group_text(&c, 1), "interface", line, num, None, vis))
    } else if let Some(c) = cap_exec(&ps[3], &text) {
        Some(make_sym(group_text(&c, 1), "type_alias", line, num, None, vis))
    } else if let Some(c) = cap_exec(&ps[4], &text) {
        Some(make_sym(group_text(&c, 1), "constant", line, num, None, vis))
    } else if let Some(c) = cap_exec(&ps[5], &text) {
        Some(make_sym(group_text(&c, 1), "import", line, num, None, "pub"))
    } else {
        None
    }
}

/// The generic patterns: function-like and class-like declarations.
pub open spec fn generic_srcs() -> Seq<Seq<char>> {
    seq![
        r"^\s*(?:pub\s+)?(?:async\s+)?(?:fn|def|function|func|sub)\s+(?:\([^)]*\)\s*)?(\w+)"@,
        r"^\s*(?:pub\s+)?(?:class|struct|trait|enum|interface|type)\s+(\w+)"@,
    ]
}

fn generic_sources() -> (v: Vec<&'static str>)
    ensures
        v@.map_values(|s: &'static str| s@) == generic_srcs(),
{
    let v = vec![
        r"^\s*(?:pub\s+)?(?:async\s+)?(?:fn|def|function|func|sub)\s+(?:\([^)]*\)\s*)?(\w+)",
        r"^\s*(?:pub\s+)?(?:class|struct|trait|enum|interface|type)\s+(\w+)",
    ];
    proof {
        assert(v@.map_values(|s: &'static str| s@) =~= generic_srcs());
    }
    v
}

/// The generic step (the state is unchanged).
pub open spec fn generic_step(st: ScanView, line: Seq<char>, num: int) -> (ScanView, Option<SymbolText>) {
    let p = generic_srcs();
    if hit(p[0], line) {
        (st, Some(sym(grp(p[0], line, 1), "function"@, line, num, None, "pub"@)))
    } else if hit(p[1], line) {
        (st, Some(sym(grp(p[1], line, 1), "class"@, line, num, None, "pub"@)))
    } else {
        (st, None)
    }
}

fn generic_step_exec(ps: &Vec<Pattern>, line: &Vec<char>, num: usize) -> (r: Option<RawSymbol>)
    requires
        pattern_sources(ps@) == generic_srcs(),
    ensures
        forall|st: ScanView| (st, match r {
            Some(s) => Some(symbol_text(s)),
            None => None,
        }) == #[trigger] generic_step(st, line@, num as int),
{
    proof {
        lemma_sources(ps@, generic_srcs());
    }
    let text = string_of(line);
    if let Some(c) = cap_exec(&ps[0], &text) {
        Some(make_sym(group_text(&c, 1), "function", line, num, None, "pub"))
    } else if let Some(c) = cap_exec(&ps[1], &text) {
        Some(make_sym(group_text(&c, 1), "class", line, num, None, "pub"))
    } else {
        None
    }
}

// ---------------------------------------------------------------------------
// Python (classes by indentation)
// ---------------------------------------------------------------------------

/// The Python patterns: def, class, import, upper-case assignment.
pub open spec fn python_srcs() -> Seq<Seq<char>> {
    seq![
        r"^(\s*)(?:async\s+)?def\s+(\w+)"@,
        r"^(\s*)class\s+(\w+)"@,
        r"^\s*(?:from\s+\S+\s+)?import\s+(.+)"@,
        r"^([A-Z][A-Z_0-9]+)\s*="@,
    ]
}

fn python_sources() -> (v: Vec<&'static str>)
    ensures
        v@.map_values(|s: &'static str| s@) == python_srcs(),
{
    let v = vec![
        r"^(\s*)(?:async\s+)?def\s+(\w+)",
        r"^(\s*)class\s+(\w+)",
        r"^\s*(?:from\s+\S+\s+)?import\s+(.+)",
        r"^([A-Z][A-Z_0-9]+)\s*=",
    ];
    proof {
        assert(v@.map_values(|s: &'static str| s@) =~= python_srcs());
    }
    v
}

/// The name a Python import line brings in: the first word of the first
/// comma-separated item.
pub open spec fn python_import_name(imported: Seq<char>) -> Seq<char> {
    let first = trim_seq(before_first(trim_seq(imported), ','));
    if words(first).len() > 0 {
        words(first)[0]
    } else {
        first
    }
}

/// A non-blank line that is not a comment or decorator, indented no deeper
/// than the class, closes it.
pub open spec fn closes_class(st: ScanView, line: Seq<char>) -> bool {
    &&& st.parent is Some
    &&& trim_seq(line).len() > 0
    &&& indent_bytes(line) <= st.scope
    &&& !starts_with_seq(trim_seq(line), "#"@)
    &&& !starts_with_seq(trim_seq(line), "@"@)
}

/// The Python step.
pub open spec fn python_step(st: ScanView, line: Seq<char>, num: int) -> (ScanView, Option<SymbolText>) {
    let p = python_srcs();
    let vis = visibility_of(line, "python"@);
    if hit(p[1], line) {
        (
            ScanView { parent: Some(grp(p[1], line, 2)), scope: utf8_size(grp(p[1], line, 1)), depth: st.depth },
            Some(sym(grp(p[1], line, 2), "class"@, line, num, None, vis)),
        )
    } else if hit(p[0], line) {
        let indent = utf8_size(grp(p[0], line, 1));
        let inside = st.parent is Some && indent > st.scope;
        let parent = if inside {
            st.parent
        } else {
            None
        };
        let kept = if inside {
            st.parent
        } else if indent <= st.scope {
            None
        } else {
            st.parent
        };
        (ScanView { parent: kept, ..st }, Some(sym(grp(p[0], line, 2), fn_kind(parent), line, num, parent, vis)))
    } else if hit(p[2], line) {
        (st, Some(sym(python_import_name(grp(p[2], line, 1)), "import"@, line, num, None, "pub"@)))
    } else {
        let s = if hit(p[3], line) {
            Some(sym(grp(p[3], line, 1), "constant"@, line, num, None, "pub"@))
        } else {
            None
        };
        (ScanView { parent: if closes_class(st, line) { None } else { st.parent }, ..st }, s)
    }
}

fn python_import_name_exec(imported: &String) -> (name: String)
    ensures
        name@ == python_import_name(imported@),
{
    let v = chars_of(imported.as_str());
    let t = trim_vec(&v);
    let b = before_first_exec(&t, ',');
    let first = trim_vec(&b);
    let ws = words_exec(&first);
    if ws.len() > 0 {
        string_of(&ws[0])
    } else {
        string_of(&first)
    }
}

fn python_step_exec(ps: &Vec<Pattern>, st: &mut Scan, line: &Vec<char>, num: usize) -> (r: Option<RawSymbol>)
    requires
        pattern_sources(ps@) == python_srcs(),
    ensures
        (scan_view(*final(st)), match r {
            Some(s) => Some(symbol_text(s)),
            None => None,
        }) == python_step(scan_view(*old(st)), line@, num as int),
        final(st).depth == old(st).depth,
{
    proof {
        lemma_sources(ps@, python_srcs());
    }
    let text = string_of(line);
    let vis = extract_visibility(line, "python");
    if let Some(c) = cap_exec(&ps[1], &text) {
        let ws = group_text(&c, 1);
        let wv = chars_of(ws.as_str());
        let indent = utf8_size_exec(&wv);
        assert(indent <= 4 * wv.len());
        st.parent = Some(group_text(&c, 2));
        st.scope = indent as i128;
        return Some(make_sym(group_text(&c, 2), "class", line, num, None, vis));
    }
    if let Some(c) = cap_exec(&ps[0], &text) {
        let ws = group_text(&c, 1);
        let wv = chars_of(ws.as_str());
        let indent = utf8_size_exec(&wv);
        assert(indent <= 4 * wv.len());
        let inside = st.parent.is_some() && (indent as i128) > st.scope;
        let parent = if inside {
            copy_opt(&st.parent)
        } else {
            None
        };
        if !inside && (indent as i128) <= st.scope {
            st.parent = None;
        }
        let kind = fn_kind_exec(&parent);
        return Some(make_sym(group_text(&c, 2), kind, line, num, parent, vis));
    }
    if let Some(c) = cap_exec(&ps[2], &text) {
        let name = python_import_name_exec(&group_text(&c, 1));
        return Some(make_sym(name, "import", line, num, None, "pub"));
    }
    let s = if let Some(c) = cap_exec(&ps[3], &text) {
        Some(make_sym(group_text(&c, 1), "constant", line, num, None, "pub"))
    } else {
        None
    };
    if st.parent.is_some() {
        let t = trim_vec(line);
        if t.len() > 0 {
            let indent = indent_bytes_exec(line);
            assert(indent <= 4 * line.len());
            if (indent as i128) <= st.scope && !matches_at_exec(&t, 0, &chars_of("#")) && !matches_at_exec(
                &t,
                0,
                &chars_of("@"),
            ) {
                st.parent = None;
            }
        }
    }
    s
}

// ---------------------------------------------------------------------------
// All languages
// ---------------------------------------------------------------------------

/// The family of declaration patterns used for a language.
#[derive(Clone, Copy, Debug, PartialEq, Eq, Structural)]
pub enum Lang {
    Rust,
    Python,
    Script,
    Go,
    JavaLike,
    Cpp,
    Generic,
}

/// The pattern family for a language name.
pub open spec fn lang_for(language: Seq<char>) -> Lang {
    if language == "rust"@ {
        Lang::Rust
    } else if language == "python"@ {
        Lang::Python
    } else if language == "javascript"@ || language == "typescript"@ {
        Lang::Script
    } else if language == "go"@ {
        Lang::Go
    } else if language == "java"@ || language == "kotlin"@ || language == "csharp"@ {
        Lang::JavaLike
    } else if language == "cpp"@ || language == "c"@ {
        Lang::Cpp
    } else {
        Lang::Generic
    }
}

/// The pattern family for a language name.
pub fn lang_exec(language: &str) -> (l: Lang)
    ensures
        l == lang_for(language@),
{
    if str_eq(language, "rust") {
        Lang::Rust
    } else if str_eq(language, "python") {
        Lang::Python
    } else if str_eq(language, "javascript") || str_eq(language, "typescript") {
        Lang::Script
    } else if str_eq(language, "go") {
        Lang::Go
    } else if str_eq(language, "java") || str_eq(language, "kotlin") || str_eq(language, "csharp") {
        Lang::JavaLike
    } else if str_eq(language, "cpp") || str_eq(language, "c") {
        Lang::Cpp
    } else {
        Lang::Generic
    }
}

/// The pattern sources of a family.
pub open spec fn lang_srcs(l: Lang) -> Seq<Seq<char>> {
    match l {
        Lang::Rust => rust_patterns(),
        Lang::Python => python_srcs(),
        Lang::Script => script_srcs(),
        Lang::Go => go_srcs(),
        Lang::JavaLike => java_srcs(),
        Lang::Cpp => cpp_srcs(),
        Lang::Generic => generic_srcs(),
    }
}

fn sources_for(l: Lang) -> (v: Vec<&'static str>)
    ensures
        v@.map_values(|s: &'static str| s@) == lang_srcs(l),
{
    match l {
        Lang::Rust => rust_sources(),
        Lang::Python => python_sources(),
        Lang::Script => script_sources(),
        Lang::Go => go_sources(),
        Lang::JavaLike => java_sources(),
        Lang::Cpp => cpp_sources(),
        Lang::Generic => generic_sources(),
    }
}

/// One line of the scan in family `l`.
pub open spec fn step(l: Lang, st: ScanView, line: Seq<char>, num: int) -> (ScanView, Option<SymbolText>) {
    match l {
        Lang::Rust => rust_step(st, line, num),
        Lang::Python => python_step(st, line, num),
        Lang::Script => script_step(st, line, num),
        Lang::Go => go_step(st, line, num),
        Lang::JavaLike => java_step(st, line, num),
        Lang::Cpp => cpp_step(st, line, num),
        Lang::Generic => generic_step(st, line, num),
    }
}

/// The symbols of `lines[i..]`, scanning from state `st`.
pub open spec fn scan_from(l: Lang, lines: Seq<Seq<char>>, i: int, st: ScanView) -> Seq<SymbolText>
    decreases lines.len() - i,
{
    if i < 0 || i >= lines.len() {
        seq![]
    } else {
        let (next, found) = step(l, st, lines[i], i + 1);
        match found {
            Some(s) => seq![s] + scan_from(l, lines, i + 1, next),
            None => scan_from(l, lines, i + 1, next),
        }
    }
}

/// The symbols declared in `lines`, in family `l`.
pub open spec fn symbols_of(l: Lang, lines: Seq<Seq<char>>) -> Seq<SymbolText> {
    scan_from(l, lines, 0, initial_scan())
}

/// A step moves the brace depth by at most the line's length.
pub proof fn lemma_step_depth(l: Lang, st: ScanView, line: Seq<char>, num: int)
    ensures
        st.depth - line.len() <= step(l, st, line, num).0.depth <= st.depth + line.len(),
{
    lemma_depth_after(st.depth, line);
    lemma_rust_braces_depth(st.depth, st.scope, st.parent, line);
}

/// A symbol found by a step is declared on that step's line, its
/// signature is that line trimmed, and a method has an enclosing type.
pub proof fn lemma_step_line(l: Lang, st: ScanView, line: Seq<char>, num: int)
    ensures
        step(l, st, line, num).1 matches Some(s) ==> s.line_number == num && s.signature == trim_seq(line)
            && (s.kind == "method"@ ==> s.parent is Some),
{
    reveal_strlit("pub");
    reveal_strlit("method");
    reveal_strlit("function");
    reveal_strlit("class");
    reveal_strlit("constant");
    reveal_strlit("enum");
    reveal_strlit("import");
    reveal_strlit("interface");
    reveal_strlit("struct");
    reveal_strlit("trait");
    reveal_strlit("type_alias");
    assert("method"@[0] != "struct"@[0] && "method"@[0] != "import"@[0]);
    assert("method"@.len() != "class"@.len() && "method"@.len() != "function"@.len());
}

fn step_exec(l: Lang, ps: &Vec<Pattern>, st: &mut Scan, line: &Vec<char>, num: usize) -> (r: Option<RawSymbol>)
    requires
        pattern_sources(ps@) == lang_srcs(l),
        -0x1000_0000_0000_0000_0000_0000_0000 <= old(st).depth <= 0x1000_0000_0000_0000_0000_0000_0000,
    ensures
        (scan_view(*final(st)), match r {
            Some(s) => Some(symbol_text(s)),
            None => None,
        }) == step(l, scan_view(*old(st)), line@, num as int),
{
    match l {
        Lang::Rust => rust_step_exec(ps, st, line, num),
        Lang::Python => python_step_exec(ps, st, line, num),
        Lang::Script => script_step_exec(ps, st, line, num),
        Lang::Go => {
            let r = go_step_exec(ps, line, num);
            assert(go_step(scan_view(*st), line@, num as int).0 == scan_view(*st));
            r
        },
        Lang::JavaLike => java_step_exec(ps, st, line, num),
        Lang::Cpp => cpp_step_exec(ps, st, line, num),
        Lang::Generic => {
            let r = generic_step_exec(ps, line, num);
            assert(generic_step(scan_view(*st), line@, num as int).0 == scan_view(*st));
            r
        },
    }
}

/// The symbols declared in `lines` in family `l`: `None` exactly when one
/// of the family's patterns does not compile.
pub fn extract_symbols(l: Lang, lines: &Vec<Vec<char>>) -> (r: Option<Vec<RawSymbol>>)
    requires
        total_chars(lines@.map_values(|v: Vec<char>| v@)) <= isize::MAX,
    ensures
        r is None <==> !all_compile(lang_srcs(l)),
        r matches Some(v) ==> symbol_texts(v@) == symbols_of(l, lines@.map_values(|v: Vec<char>| v@)),
{
    let ghost ls = lines@.map_values(|v: Vec<char>| v@);
    let srcs = sources_for(l);
    let ps = match compile_all(&srcs) {
        Some(ps) => ps,
        None => {
            return None;
        },
    };
    let mut st = Scan { parent: None, scope: 0, depth: 0 };
    let mut out: Vec<RawSymbol> = Vec::new();
    let mut i: usize = 0;
    proof {
        crate::conversion::body::lemma_total_chars_prefix(ls, 0);
        assert(symbol_texts(out@) =~= Seq::<SymbolText>::empty());
        assert(Seq::<SymbolText>::empty() + scan_from(l, ls, 0, initial_scan()) =~= symbols_of(l, ls));
    }
    while i < lines.len()
        invariant
            i <= lines.len(),
            ls == lines@.map_values(|v: Vec<char>| v@),
            pattern_sources(ps@) == lang_srcs(l),
            total_chars(ls) <= isize::MAX,
            -total_chars(ls.take(i as int)) <= st.depth <= total_chars(ls.take(i as int)),
            symbol_texts(out@) + scan_from(l, ls, i as int, scan_view(st)) == symbols_of(l, ls),
        decreases lines.len() - i,
    {
        proof {
            assert(ls.take(i + 1).drop_last() =~= ls.take(i as int));
            crate::conversion::body::lemma_total_chars_prefix(ls, i + 1);
            assert(ls[i as int] == lines@[i as int]@);
        }
        let ghost before = scan_view(st);
        let found = step_exec(l, &ps, &mut st, &lines[i], i + 1);
        proof {
            lemma_step_depth(l, before, ls[i as int], i + 1);
        }
        match found {
            Some(sy) => {
                proof {
                    let rest = scan_from(l, ls, i + 1, scan_view(st));
                    assert(scan_from(l, ls, i as int, before) == seq![symbol_text(sy)] + rest);
                    assert(symbol_texts(out@.push(sy)) =~= symbol_texts(out@).push(symbol_text(sy)));
                    assert(symbol_texts(out@).push(symbol_text(sy)) + rest =~= symbol_texts(out@) + (
                    seq![symbol_text(sy)] + rest));
                }
                out.push(sy);
            },
            None => {},
        }
        i += 1;
    }
    proof {
        assert(scan_from(l, ls, lines.len() as int, scan_view(st)) =~= Seq::<SymbolText>::empty());
        assert(symbol_texts(out@) + Seq::<SymbolText>::empty() =~= symbol_texts(out@));
    }
    Some(out)
}

/// Symbols come out in line order, at most one per line, each on a line of
/// the file: line numbers strictly increase and lie in `1..=lines.len()`;
/// each symbol's signature is its line trimmed, and a method always has an
/// enclosing type.
pub proof fn law_symbols_in_line_order(l: Lang, lines: Seq<Seq<char>>, i: int, st: ScanView)
    requires
        0 <= i,
    ensures
        forall|k: int|
            0 <= k < scan_from(l, lines, i, st).len() ==> i + 1 <= (#[trigger] scan_from(
                l,
                lines,
                i,
                st,
            )[k]).line_number <= lines.len() && scan_from(l, lines, i, st)[k].signature == trim_seq(
                lines[scan_from(l, lines, i, st)[k].line_number - 1],
            ) && (scan_from(l, lines, i, st)[k].kind == "method"@ ==> scan_from(l, lines, i, st)[k].parent is Some),
        forall|a: int, b: int|
            0 <= a < b < scan_from(l, lines, i, st).len() ==> (#[trigger] scan_from(l, lines, i, st)[a]).line_number
                < (#[trigger] scan_from(l, lines, i, st)[b]).line_number,
    decreases lines.len() - i,
{
    if i < lines.len() {
        let (next, found) = step(l, st, lines[i], i + 1);
        law_symbols_in_line_order(l, lines, i + 1, next);
        lemma_step_line(l, st, lines[i], i + 1);
        let rest = scan_from(l, lines, i + 1, next);
        match found {
            Some(s) => {
                let all = scan_from(l, lines, i, st);
                assert(all == seq![s] + rest);
                assert forall|k: int| 0 <= k < all.len() implies i + 1 <= (#[trigger] all[k]).line_number
                    <= lines.len() && all[k].signature == trim_seq(lines[all[k].line_number - 1]) && (all[k].kind
                    == "method"@ ==> all[k].parent is Some) by {
                    if k > 0 {
                        assert(all[k] == rest[k - 1]);
                    }
                }
                assert forall|a: int, b: int| 0 <= a < b < all.len() implies (#[trigger] all[a]).line_number
                    < (#[trigger] all[b]).line_number by {
                    assert(all[b] == rest[b - 1]);
                    if a > 0 {
                        assert(all[a] == rest[a - 1]);
                    }
                }
            },
            None => {},
        }
    }
}

/// The kinds of declaration that stand on their own: a class, interface,
/// enum, type alias, constant or import.
pub open spec fn standalone_kind(kind: Seq<char>) -> bool {
    kind == "class"@ || kind == "interface"@ || kind == "enum"@ || kind == "type_alias"@ || kind == "constant"@
        || kind == "import"@
}

proof fn lemma_script_step_parent(st: ScanView, line: Seq<char>, num: int)
    ensures
        script_step(st, line, num).1 matches Some(s) ==> (standalone_kind(s.kind) ==> s.parent is None),
{
    reveal_strlit("method");
    reveal_strlit("function");
    reveal_strlit("class");
    reveal_strlit("constant");
    reveal_strlit("enum");
    reveal_strlit("import");
    reveal_strlit("interface");
    reveal_strlit("type_alias");
    assert("function"@[0] != "constant"@[0] && "method"@[0] != "import"@[0]);
    assert(!standalone_kind("function"@) && !standalone_kind("method"@));
}

/// In JavaScript and TypeScript, classes, interfaces, enums, type aliases,
/// constants and imports are declared on their own: none has an enclosing
/// class (only functions and methods do).
pub proof fn law_script_declarations_have_no_parent(lines: Seq<Seq<char>>, i: int, st: ScanView)
    requires
        0 <= i,
    ensures
        forall|k: int|
            0 <= k < scan_from(Lang::Script, lines, i, st).len() && standalone_kind(
                (#[trigger] scan_from(Lang::Script, lines, i, st)[k]).kind,
            ) ==> scan_from(Lang::Script, lines, i, st)[k].parent is None,
    decreases lines.len() - i,
{
    if i < lines.len() {
        let (next, found) = step(Lang::Script, st, lines[i], i + 1);
        law_script_declarations_have_no_parent(lines, i + 1, next);
        lemma_script_step_parent(st, lines[i], i + 1);
        let rest = scan_from(Lang::Script, lines, i + 1, next);
        match found {
            Some(s) => {
                let all = scan_from(Lang::Script, lines, i, st);
                assert(all == seq![s] + rest);
                assert forall|k: int| 0 <= k < all.len() && standalone_kind((#[trigger] all[k]).kind) implies all[k].parent
                    is None by {
                    if k > 0 {
                        assert(all[k] == rest[k - 1]);
                    }
                }
            },
            None => {},
        }
    }
}

} // verus!
