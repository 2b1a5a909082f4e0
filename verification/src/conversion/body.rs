//! The body of a symbol: from its declaration line to the closing brace,
//! or, for Python, through the lines indented deeper than the declaration.

use crate::text::{is_whitespace, push_char, push_str, string_of, trim_seq, trim_vec, unicode_white_space};
use vstd::prelude::*;

verus! {

/// The number of characters in all of `lines`.
pub open spec fn total_chars(lines: Seq<Seq<char>>) -> int
    decreases lines.len(),
{
    if lines.len() == 0 {
        0
    } else {
        total_chars(lines.drop_last()) + lines.last().len()
    }
}

/// The lines joined with `"\n"` between them.
pub open spec fn join_lines(lines: Seq<Seq<char>>) -> Seq<char>
    decreases lines.len(),
{
    if lines.len() == 0 {
        seq![]
    } else if lines.len() == 1 {
        lines[0]
    } else {
        join_lines(lines.drop_last()) + seq!['\n'] + lines.last()
    }
}

/// The lines `lines[a..b]` joined with `"\n"`.
pub fn join_range(lines: &Vec<Vec<char>>, a: usize, b: usize) -> (s: String)
    requires
        a <= b <= lines.len(),
    ensures
        s@ == join_lines(lines@.subrange(a as int, b as int).map_values(|l: Vec<char>| l@)),
{
    let ghost all = lines@.map_values(|l: Vec<char>| l@);
    let mut s = String::new();
    let mut i: usize = a;
    while i < b
        invariant
            a <= i <= b <= lines.len(),
            all == lines@.map_values(|l: Vec<char>| l@),
            s@ == join_lines(all.subrange(a as int, i as int)),
        decreases b - i,
    {
        proof {
            assert(all.subrange(a as int, i + 1).drop_last() =~= all.subrange(a as int, i as int));
            assert(lines@.subrange(a as int, i as int).map_values(|l: Vec<char>| l@) =~= all.subrange(a as int, i as int));
        }
        if i > a {
            push_char(&mut s, '\n');
        }
        let t = string_of(&lines[i]);
        push_str(&mut s, t.as_str());
        i += 1;
    }
    proof {
        assert(lines@.subrange(a as int, b as int).map_values(|l: Vec<char>| l@) =~= all.subrange(a as int, b as int));
    }
    s
}

// ---------------------------------------------------------------------------
// Brace-delimited bodies
// ---------------------------------------------------------------------------

/// The brace depth and whether an opening brace was seen, after the
/// characters `cs` starting from `depth` and `found`.
pub open spec fn brace_scan(depth: int, found: bool, cs: Seq<char>) -> (int, bool)
    decreases cs.len(),
{
    if cs.len() == 0 {
        (depth, found)
    } else {
        let (d, f) = brace_scan(depth, found, cs.drop_last());
        if cs.last() == '{' {
            (d + 1, true)
        } else if cs.last() == '}' {
            (d - 1, f)
        } else {
            (d, f)
        }
    }
}

/// The index of the line, from `i` on, after which a brace has been opened
/// and the depth is back to zero or below.
pub open spec fn brace_close_from(lines: Seq<Seq<char>>, i: int, depth: int, found: bool) -> Option<
    int,
>
    decreases lines.len() - i,
{
    if i < 0 || i >= lines.len() {
        None
    } else {
        let (d, f) = brace_scan(depth, found, lines[i]);
        if f && d <= 0 {
            Some(i)
        } else {
            brace_close_from(lines, i + 1, d, f)
        }
    }
}

/// The body of a brace-delimited symbol declared at line `start`: the lines
/// through the one that closes its first brace (or through the last line),
/// and the index of that line.
pub open spec fn brace_body(lines: Seq<Seq<char>>, start: int) -> (Seq<char>, int) {
    match brace_close_from(lines, start, 0, false) {
        Some(e) => (join_lines(lines.subrange(start, e + 1)), e),
        None => (
            join_lines(lines.subrange(start, lines.len() as int)),
            if lines.len() > 0 {
                lines.len() - 1
            } else {
                0
            },
        ),
    }
}

/// The brace depth and whether an opening brace was seen, after the lines
/// `ls` one after another, starting from `depth` and `found`.
pub open spec fn scan_lines(depth: int, found: bool, ls: Seq<Seq<char>>) -> (int, bool)
    decreases ls.len(),
{
    if ls.len() == 0 {
        (depth, found)
    } else {
        let (d, f) = scan_lines(depth, found, ls.drop_last());
        brace_scan(d, f, ls.last())
    }
}

/// Whether the lines from `start` through `j` hold an opening brace and
/// at least as many closing braces as opening ones.
pub open spec fn closes_at(lines: Seq<Seq<char>>, start: int, j: int) -> bool {
    let (d, f) = scan_lines(0, false, lines.subrange(start, j + 1));
    f && d <= 0
}

proof fn lemma_close_from(lines: Seq<Seq<char>>, start: int, i: int)
    requires
        0 <= start <= i <= lines.len(),
    ensures
        ({
            let (d, f) = scan_lines(0, false, lines.subrange(start, i));
            match brace_close_from(lines, i, d, f) {
                Some(e) => i <= e < lines.len() && closes_at(lines, start, e) && forall|j: int|
                    i <= j < e ==> !#[trigger] closes_at(lines, start, j),
                None => forall|j: int| i <= j < lines.len() ==> !#[trigger] closes_at(lines, start, j),
            }
        }),
    decreases lines.len() - i,
{
    if i < lines.len() {
        let (d, f) = scan_lines(0, false, lines.subrange(start, i));
        assert(lines.subrange(start, i + 1).drop_last() =~= lines.subrange(start, i));
        assert(lines.subrange(start, i + 1).last() == lines[i]);
        lemma_close_from(lines, start, i + 1);
    }
}

/// A brace-delimited body ends at the first line through which an opening
/// brace has been seen and the braces balance (or close more than they
/// open); without such a line it runs to the end.
pub proof fn law_brace_body_ends_at_first_close(lines: Seq<Seq<char>>, start: int)
    requires
        0 <= start < lines.len(),
    ensures
        match brace_close_from(lines, start, 0, false) {
            Some(e) => start <= e < lines.len() && closes_at(lines, start, e) && forall|j: int|
                start <= j < e ==> !#[trigger] closes_at(lines, start, j),
            None => forall|j: int| start <= j < lines.len() ==> !#[trigger] closes_at(lines, start, j),
        },
        brace_body(lines, start).1 == match brace_close_from(lines, start, 0, false) {
            Some(e) => e,
            None => lines.len() - 1,
        },
{
    assert(lines.subrange(start, start) =~= Seq::<Seq<char>>::empty());
    lemma_close_from(lines, start, start);
}

/// The depth moves by at most one per character.
pub proof fn lemma_brace_scan_bound(depth: int, found: bool, cs: Seq<char>)
    ensures
        depth - cs.len() <= brace_scan(depth, found, cs).0 <= depth + cs.len(),
        found ==> brace_scan(depth, found, cs).1,
    decreases cs.len(),
{
    if cs.len() > 0 {
        lemma_brace_scan_bound(depth, found, cs.drop_last());
    }
}

/// Scan one line for braces.
fn brace_scan_exec(depth: i64, found: bool, cs: &Vec<char>) -> (r: (i64, bool))
    requires
        i64::MIN + cs.len() <= depth <= i64::MAX - cs.len(),
    ensures
        (r.0 as int, r.1) == brace_scan(depth as int, found, cs@),
{
    let mut d = depth;
    let mut f = found;
    let mut k: usize = 0;
    while k < cs.len()
        invariant
            k <= cs.len(),
            i64::MIN + cs.len() <= depth <= i64::MAX - cs.len(),
            (d as int, f) == brace_scan(depth as int, found, cs@.take(k as int)),
        decreases cs.len() - k,
    {
        proof {
            assert(cs@.take(k + 1).drop_last() =~= cs@.take(k as int));
            lemma_brace_scan_bound(depth as int, found, cs@.take(k as int));
        }
        if cs[k] == '{' {
            d = d + 1;
            f = true;
        } else if cs[k] == '}' {
            d = d - 1;
        }
        k += 1;
    }
    proof {
        assert(cs@.take(cs.len() as int) =~= cs@);
    }
    (d, f)
}

/// The body of a brace-delimited symbol declared at line `start_idx`.
pub fn extract_brace_body(lines: &Vec<Vec<char>>, start_idx: usize) -> (r: (String, usize))
    requires
        start_idx < lines.len(),
        total_chars(lines@.map_values(|l: Vec<char>| l@)) <= i64::MAX,
    ensures
        (r.0@, r.1 as int) == brace_body(lines@.map_values(|l: Vec<char>| l@), start_idx as int),
{
    let ghost ls = lines@.map_values(|l: Vec<char>| l@);
    let mut depth: i64 = 0;
    let mut found = false;
    let mut i: usize = start_idx;
    proof {
        lemma_total_chars_prefix(ls, start_idx as int);
    }
    while i < lines.len()
        invariant
            start_idx <= i <= lines.len(),
            ls == lines@.map_values(|l: Vec<char>| l@),
            total_chars(ls) <= i64::MAX,
            -total_chars(ls.take(i as int)) <= depth <= total_chars(ls.take(i as int)),
            brace_close_from(ls, start_idx as int, 0, false) == brace_close_from(
                ls,
                i as int,
                depth as int,
                found,
            ),
        decreases lines.len() - i,
    {
        proof {
            assert(ls.take(i + 1).drop_last() =~= ls.take(i as int));
            lemma_total_chars_prefix(ls, i + 1);
            assert(ls[i as int] == lines@[i as int]@);
        }
        let (d, f) = brace_scan_exec(depth, found, &lines[i]);
        proof {
            lemma_brace_scan_bound(depth as int, found, ls[i as int]);
        }
        if f && d <= 0 {
            let body = join_range(lines, start_idx, i + 1);
            proof {
                assert(lines@.subrange(start_idx as int, i + 1).map_values(|l: Vec<char>| l@)
                    =~= ls.subrange(start_idx as int, i + 1));
            }
            return (body, i);
        }
        depth = d;
        found = f;
        i += 1;
    }
    let body = join_range(lines, start_idx, lines.len());
    proof {
        assert(lines@.subrange(start_idx as int, lines.len() as int).map_values(|l: Vec<char>| l@)
            =~= ls.subrange(start_idx as int, lines.len() as int));
    }
    (body, lines.len() - 1)
}

/// A prefix holds no more characters than the whole.
pub proof fn lemma_total_chars_prefix(ls: Seq<Seq<char>>, k: int)
    requires
        0 <= k <= ls.len(),
    ensures
        0 <= total_chars(ls.take(k)) <= total_chars(ls),
    decreases ls.len(),
{
    if k == ls.len() {
        assert(ls.take(k) =~= ls);
        lemma_total_chars_nonneg(ls);
    } else {
        lemma_total_chars_prefix(ls.drop_last(), k);
        assert(ls.drop_last().take(k) =~= ls.take(k));
    }
}

/// Character counts are not negative.
pub proof fn lemma_total_chars_nonneg(ls: Seq<Seq<char>>)
    ensures
        total_chars(ls) >= 0,
    decreases ls.len(),
{
    if ls.len() > 0 {
        lemma_total_chars_nonneg(ls.drop_last());
    }
}

// ---------------------------------------------------------------------------
// Indentation-delimited bodies
// ---------------------------------------------------------------------------

/// The number of bytes `c` takes in UTF-8.
pub open spec fn utf8_len(c: char) -> int {
    if (c as u32) < 0x80 {
        1
    } else if (c as u32) < 0x800 {
        2
    } else if (c as u32) < 0x10000 {
        3
    } else {
        4
    }
}

/// The number of bytes of the leading white space of `l` in UTF-8.
pub open spec fn indent_bytes(l: Seq<char>) -> int
    decreases l.len(),
{
    if l.len() > 0 && unicode_white_space(l[0]) {
        utf8_len(l[0]) + indent_bytes(l.drop_first())
    } else {
        0
    }
}

/// The number of bytes of `s` in UTF-8.
pub open spec fn utf8_size(s: Seq<char>) -> int
    decreases s.len(),
{
    if s.len() == 0 {
        0
    } else {
        utf8_size(s.drop_last()) + utf8_len(s.last())
    }
}

/// Byte counts stay within four bytes per character.
pub proof fn lemma_indent_bytes_bound(l: Seq<char>)
    ensures
        0 <= indent_bytes(l) <= 4 * l.len(),
    decreases l.len(),
{
    if l.len() > 0 && unicode_white_space(l[0]) {
        lemma_indent_bytes_bound(l.drop_first());
    }
}

/// Byte counts stay within four bytes per character.
pub proof fn lemma_utf8_size_bound(s: Seq<char>)
    ensures
        0 <= utf8_size(s) <= 4 * s.len(),
    decreases s.len(),
{
    if s.len() > 0 {
        lemma_utf8_size_bound(s.drop_last());
    }
}

/// The number of bytes `c` takes in UTF-8.
pub fn utf8_len_exec(c: char) -> (n: u128)
    ensures
        n == utf8_len(c),
{
    let v = c as u32;
    if v < 0x80 {
        1
    } else if v < 0x800 {
        2
    } else if v < 0x10000 {
        3
    } else {
        4
    }
}

/// The number of bytes of the leading white space of `l`.
pub fn indent_bytes_exec(l: &Vec<char>) -> (n: u128)
    ensures
        n == indent_bytes(l@),
        n <= 4 * l@.len(),
{
    let mut i: usize = 0;
    let mut n: u128 = 0;
    proof {
        assert(l@.skip(0) =~= l@);
    }
    while i < l.len() && is_whitespace(l[i])
        invariant
            i <= l.len(),
            n <= 4 * i,
            indent_bytes(l@) == n + indent_bytes(l@.skip(i as int)),
        decreases l.len() - i,
    {
        proof {
            assert(l@.skip(i as int).drop_first() =~= l@.skip(i + 1));
        }
        n = n + utf8_len_exec(l[i]);
        i += 1;
    }
    n
}

/// The number of bytes of `s` in UTF-8.
pub fn utf8_size_exec(s: &Vec<char>) -> (n: u128)
    ensures
        n == utf8_size(s@),
        n <= 4 * s@.len(),
{
    let mut i: usize = 0;
    let mut n: u128 = 0;
    while i < s.len()
        invariant
            i <= s.len(),
            n == utf8_size(s@.take(i as int)),
        decreases s.len() - i,
    {
        proof {
            assert(s@.take(i + 1).drop_last() =~= s@.take(i as int));
            lemma_utf8_size_bound(s@.take(i as int));
        }
        n = n + utf8_len_exec(s[i]);
        i += 1;
    }
    proof {
        assert(s@.take(s.len() as int) =~= s@);
        lemma_utf8_size_bound(s@);
    }
    n
}

/// `l` is empty or white space only.
pub open spec fn is_blank(l: Seq<char>) -> bool {
    trim_seq(l).len() == 0
}

/// The index of the first line from `i` on that ends the indented block
/// (a non-blank line indented `base` bytes or less), or the line count.
pub open spec fn indent_block_end(lines: Seq<Seq<char>>, i: int, base: int) -> int
    decreases lines.len() - i,
{
    if i < 0 || i >= lines.len() {
        lines.len() as int
    } else if is_blank(lines[i]) || indent_bytes(lines[i]) > base {
        indent_block_end(lines, i + 1, base)
    } else {
        i
    }
}

/// How many lines of `lines[start..end]` remain once trailing blank lines
/// are dropped (counting from `start`).
pub open spec fn kept_until(lines: Seq<Seq<char>>, start: int, end: int) -> int
    decreases end - start,
{
    if end > start && is_blank(lines[end - 1]) {
        kept_until(lines, start, end - 1)
    } else {
        end
    }
}

/// The body of a Python symbol declared at line `start`: the declaration
/// and the following lines that are blank or indented deeper, without
/// trailing blank lines; and the index of its last line.
pub open spec fn indent_body(lines: Seq<Seq<char>>, start: int) -> (Seq<char>, int) {
    let base = indent_bytes(lines[start]);
    let stop = indent_block_end(lines, start + 1, base);
    let kept = kept_until(lines, start, stop);
    let end = if kept > start {
        kept - 1
    } else {
        start
    };
    (join_lines(lines.subrange(start, kept)), end)
}

/// Facts about the indented block's end.
pub proof fn lemma_indent_block_end(lines: Seq<Seq<char>>, i: int, base: int)
    requires
        0 <= i <= lines.len(),
    ensures
        i <= indent_block_end(lines, i, base) <= lines.len(),
    decreases lines.len() - i,
{
    if i < lines.len() && (is_blank(lines[i]) || indent_bytes(lines[i]) > base) {
        lemma_indent_block_end(lines, i + 1, base);
    }
}

/// Facts about the kept lines.
pub proof fn lemma_kept_until(lines: Seq<Seq<char>>, start: int, end: int)
    requires
        0 <= start <= end <= lines.len(),
    ensures
        start <= kept_until(lines, start, end) <= end,
    decreases end - start,
{
    if end > start && is_blank(lines[end - 1]) {
        lemma_kept_until(lines, start, end - 1);
    }
}

/// The body of a Python symbol declared at line `start_idx`.
pub fn extract_indent_body(lines: &Vec<Vec<char>>, start_idx: usize) -> (r: (String, usize))
    requires
        start_idx < lines.len(),
    ensures
        (r.0@, r.1 as int) == indent_body(lines@.map_values(|l: Vec<char>| l@), start_idx as int),
{
    let ghost ls = lines@.map_values(|l: Vec<char>| l@);
    let base = indent_bytes_exec(&lines[start_idx]);
    let mut i: usize = start_idx + 1;
    while i < lines.len()
        invariant
            start_idx < i <= lines.len(),
            ls == lines@.map_values(|l: Vec<char>| l@),
            base == indent_bytes(ls[start_idx as int]),
            indent_block_end(ls, start_idx + 1, base as int) == indent_block_end(ls, i as int, base as int),
        ensures
            indent_block_end(ls, start_idx + 1, base as int) == i,
            start_idx < i <= lines.len(),
        decreases lines.len() - i,
    {
        assert(ls[i as int] == lines@[i as int]@);
        let t = trim_vec(&lines[i]);
        if t.len() == 0 {
            i += 1;
        } else {
            let ind = indent_bytes_exec(&lines[i]);
            if ind > base {
                i += 1;
            } else {
                break;
            }
        }
    }
    let stop = i;
    proof {
        lemma_indent_block_end(ls, stop as int, base as int);
    }
    let mut kept: usize = stop;
    while kept > start_idx && trim_vec(&lines[kept - 1]).len() == 0
        invariant
            start_idx < stop <= lines.len(),
            start_idx <= kept <= stop,
            ls == lines@.map_values(|l: Vec<char>| l@),
            kept_until(ls, start_idx as int, stop as int) == kept_until(ls, start_idx as int, kept as int),
        decreases kept,
    {
        assert(ls[kept - 1] == lines@[kept - 1]@);
        kept -= 1;
    }
    proof {
        if kept > start_idx {
            assert(ls[kept - 1] == lines@[kept - 1]@);
        }
    }
    let end = if kept > start_idx {
        kept - 1
    } else {
        start_idx
    };
    let body = join_range(lines, start_idx, kept);
    proof {
        assert(lines@.subrange(start_idx as int, kept as int).map_values(|l: Vec<char>| l@)
            =~= ls.subrange(start_idx as int, kept as int));
    }
    (body, end)
}

proof fn lemma_block_end_facts(lines: Seq<Seq<char>>, i: int, base: int)
    requires
        0 <= i <= lines.len(),
    ensures
        i <= indent_block_end(lines, i, base) <= lines.len(),
        forall|j: int|
            i <= j < indent_block_end(lines, i, base) ==> is_blank(#[trigger] lines[j]) || indent_bytes(lines[j]) > base,
        indent_block_end(lines, i, base) < lines.len() ==> !is_blank(lines[indent_block_end(lines, i, base)])
            && indent_bytes(lines[indent_block_end(lines, i, base)]) <= base,
    decreases lines.len() - i,
{
    if i < lines.len() && (is_blank(lines[i]) || indent_bytes(lines[i]) > base) {
        lemma_block_end_facts(lines, i + 1, base);
    }
}

proof fn lemma_kept_facts(lines: Seq<Seq<char>>, start: int, end: int)
    requires
        0 <= start <= end <= lines.len(),
    ensures
        start <= kept_until(lines, start, end) <= end,
        forall|j: int| kept_until(lines, start, end) <= j < end ==> is_blank(#[trigger] lines[j]),
        kept_until(lines, start, end) > start ==> !is_blank(lines[kept_until(lines, start, end) - 1]),
    decreases end - start,
{
    if end > start && is_blank(lines[end - 1]) {
        lemma_kept_facts(lines, start, end - 1);
    }
}

/// The body of a Python declaration at line `start` runs from the
/// declaration to its last line `e`: every line after the declaration up
/// to `e` is blank or indented deeper than the declaration, `e` is not
/// blank, and the first non-blank line after `e`, if any, is indented no
/// deeper than the declaration. So blank lines inside the block belong to
/// it, and trailing blank lines do not.
pub proof fn law_indent_body_is_the_deeper_block(lines: Seq<Seq<char>>, start: int)
    requires
        0 <= start < lines.len(),
        !is_blank(lines[start]),
    ensures
        ({
            let (b, e) = indent_body(lines, start);
            let base = indent_bytes(lines[start]);
            &&& start <= e < lines.len()
            &&& b == join_lines(lines.subrange(start, e + 1))
            &&& !is_blank(lines[e])
            &&& forall|j: int| start < j <= e ==> is_blank(#[trigger] lines[j]) || indent_bytes(lines[j]) > base
            &&& forall|j: int|
                e < j < lines.len() && !is_blank(#[trigger] lines[j]) && (forall|k: int|
                    e < k < j ==> is_blank(lines[k])) ==> indent_bytes(lines[j]) <= base
        }),
{
    let base = indent_bytes(lines[start]);
    let stop = indent_block_end(lines, start + 1, base);
    lemma_block_end_facts(lines, start + 1, base);
    lemma_kept_facts(lines, start, stop);
    let kept = kept_until(lines, start, stop);
    if kept == start {
        assert(stop > start);
        assert(is_blank(lines[start]));
    }
    let e = kept - 1;
    assert forall|j: int|
        e < j < lines.len() && !is_blank(#[trigger] lines[j]) && (forall|k: int| e < k < j ==> is_blank(lines[k]))
        implies indent_bytes(lines[j]) <= base by {
        if j < stop {
            assert(is_blank(lines[j]));
        } else if j > stop {
            assert(is_blank(lines[stop]));
        }
    }
}

} // verus!
