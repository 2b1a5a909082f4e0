//! Record framing of the AppleScript output.
//!
//! Each exported record is printed as `<<<X_START>>>` body `<<<X_END>>>`,
//! its fields separated by `<<<SEP>>>`. A record is recognised the way the
//! pattern `<<<X_START>>>(.*?)<<<X_END>>>` matches: its body ends at the
//! first end marker after the start marker and holds no line break;
//! scanning resumes after the end marker.

use crate::text::{find_from, find_from_exec, lemma_find_from, matches_at, matches_at_exec, no_newline, no_newline_exec, split_seq, split_vec, string_of, string_views, subvec, trim_seq, trim_vec, views};
use vstd::prelude::*;

verus! {

/// The end-marker index of a record that starts at `p`, if one does.
pub open spec fn record_end_at(s: Seq<char>, p: int, start: Seq<char>, end: Seq<char>) -> Option<
    int,
> {
    if matches_at(s, p, start) {
        match find_from(s, end, p + start.len()) {
            Some(q) => if no_newline(s, p + start.len(), q) {
                Some(q)
            } else {
                None
            },
            None => None,
        }
    } else {
        None
    }
}

/// The bodies of the records found scanning `s` from `pos`.
pub open spec fn records_from(s: Seq<char>, start: Seq<char>, end: Seq<char>, pos: int) -> Seq<
    Seq<char>,
>
    decreases s.len() - pos,
{
    if pos < 0 || pos >= s.len() || start.len() == 0 || end.len() == 0 {
        seq![]
    } else {
        match record_end_at(s, pos, start, end) {
            Some(q) => {
                proof {
                    lemma_find_from(s, end, pos + start.len());
                }
                seq![s.subrange(pos + start.len(), q)] + records_from(s, start, end, q + end.len())
            },
            None => records_from(s, start, end, pos + 1),
        }
    }
}

/// The bodies of all records of `s`, in order.
pub open spec fn records(s: Seq<char>, start: Seq<char>, end: Seq<char>) -> Seq<Seq<char>> {
    records_from(s, start, end, 0)
}

/// The end-marker index of a record starting at `p`.
fn record_end_exec(s: &Vec<char>, p: usize, start: &Vec<char>, end: &Vec<char>) -> (r: Option<
    usize,
>)
    requires
        p <= s.len(),
    ensures
        r matches Some(q) ==> record_end_at(s@, p as int, start@, end@) == Some(q as int),
        r is None ==> record_end_at(s@, p as int, start@, end@) is None,
{
    if !matches_at_exec(s, p, start) {
        return None;
    }
    let body_start = p + start.len();
    match find_from_exec(s, end, body_start) {
        Some(q) => {
            proof {
                lemma_find_from(s@, end@, body_start as int);
            }
            if no_newline_exec(s, body_start, q) {
                Some(q)
            } else {
                None
            }
        },
        None => None,
    }
}

/// The bodies of all `start`…`end` records of `s`.
pub fn find_records(s: &Vec<char>, start: &Vec<char>, end: &Vec<char>) -> (out: Vec<Vec<char>>)
    ensures
        views(out@) == records(s@, start@, end@),
{
    let mut out: Vec<Vec<char>> = Vec::new();
    if start.len() == 0 || end.len() == 0 {
        assert(views(out@) =~= seq![]);
        return out;
    }
    let n = s.len();
    let mut pos: usize = 0;
    while pos < n
        invariant
            n == s.len(),
            start.len() > 0,
            end.len() > 0,
            pos <= n,
            views(out@) + records_from(s@, start@, end@, pos as int) == records(s@, start@, end@),
        decreases n - pos,
    {
        match record_end_exec(s, pos, start, end) {
            Some(q) => {
                proof {
                    lemma_find_from(s@, end@, pos + start.len());
                }
                let body = subvec(s, pos + start.len(), q);
                proof {
                    let rest = records_from(s@, start@, end@, q + end.len());
                    assert(records_from(s@, start@, end@, pos as int) == seq![body@] + rest);
                    assert(views(out@.push(body)) =~= views(out@).push(body@));
                    assert(views(out@).push(body@) + rest =~= views(out@) + (seq![body@] + rest));
                }
                out.push(body);
                pos = q + end.len();
            },
            None => {
                pos += 1;
            },
        }
    }
    proof {
        assert(records_from(s@, start@, end@, pos as int) == Seq::<Seq<char>>::empty());
        assert(views(out@) + Seq::<Seq<char>>::empty() =~= views(out@));
    }
    out
}

// ---------------------------------------------------------------------------
// Records whose fields are matched one by one
// ---------------------------------------------------------------------------

/// `n` fields read from index `i`: each of the first `n - 1` ends at the
/// next `sep`, the last at the next `end`. Returns the fields and the index
/// of that end marker.
pub open spec fn lazy_fields(s: Seq<char>, i: int, sep: Seq<char>, end: Seq<char>, n: nat) -> Option<
    (Seq<Seq<char>>, int),
>
    decreases n,
{
    if n <= 1 {
        match find_from(s, end, i) {
            Some(q) => Some((seq![s.subrange(i, q)], q)),
            None => None,
        }
    } else {
        match find_from(s, sep, i) {
            Some(j) => match lazy_fields(s, j + sep.len(), sep, end, (n - 1) as nat) {
                Some((fs, q)) => Some((seq![s.subrange(i, j)] + fs, q)),
                None => None,
            },
            None => None,
        }
    }
}

/// Bounds of a successful `lazy_fields`.
pub proof fn lemma_lazy_fields(s: Seq<char>, i: int, sep: Seq<char>, end: Seq<char>, n: nat)
    requires
        0 <= i,
    ensures
        lazy_fields(s, i, sep, end, n) matches Some((fs, q)) ==> i <= q && matches_at(s, q, end)
            && fs.len() == if n <= 1 { 1 } else { n },
    decreases n,
{
    lemma_find_from(s, end, i);
    lemma_find_from(s, sep, i);
    if n > 1 {
        if let Some(j) = find_from(s, sep, i) {
            lemma_lazy_fields(s, j + sep.len(), sep, end, (n - 1) as nat);
        }
    }
}

/// The fields and end-marker index of a field record starting at `p`.
pub open spec fn field_record_at(
    s: Seq<char>,
    p: int,
    start: Seq<char>,
    sep: Seq<char>,
    end: Seq<char>,
    n: nat,
) -> Option<(Seq<Seq<char>>, int)> {
    if matches_at(s, p, start) {
        match lazy_fields(s, p + start.len(), sep, end, n) {
            Some((fs, q)) => if no_newline(s, p + start.len(), q) {
                Some((fs, q))
            } else {
                None
            },
            None => None,
        }
    } else {
        None
    }
}

/// The field lists of the records found scanning `s` from `pos`.
pub open spec fn field_records_from(
    s: Seq<char>,
    start: Seq<char>,
    sep: Seq<char>,
    end: Seq<char>,
    n: nat,
    pos: int,
) -> Seq<Seq<Seq<char>>>
    decreases s.len() - pos,
{
    if pos < 0 || pos >= s.len() || start.len() == 0 || end.len() == 0 || sep.len() == 0 {
        seq![]
    } else {
        match field_record_at(s, pos, start, sep, end, n) {
            Some((fs, q)) => {
                proof {
                    lemma_lazy_fields(s, pos + start.len(), sep, end, n);
                }
                seq![fs] + field_records_from(s, start, sep, end, n, q + end.len())
            },
            None => field_records_from(s, start, sep, end, n, pos + 1),
        }
    }
}

/// `lazy_fields` computed.
fn lazy_fields_exec(s: &Vec<char>, i: usize, sep: &Vec<char>, end: &Vec<char>, n: usize) -> (r:
    Option<(Vec<Vec<char>>, usize)>)
    requires
        i <= s.len(),
    ensures
        r matches Some((fs, q)) ==> lazy_fields(s@, i as int, sep@, end@, n as nat) == Some(
            (views(fs@), q as int),
        ),
        r is None ==> lazy_fields(s@, i as int, sep@, end@, n as nat) is None,
    decreases n,
{
    if n <= 1 {
        match find_from_exec(s, end, i) {
            Some(q) => {
                proof {
                    lemma_find_from(s@, end@, i as int);
                }
                let f = subvec(s, i, q);
                let mut fs: Vec<Vec<char>> = Vec::new();
                fs.push(f);
                proof {
                    assert(views(fs@) =~= seq![f@]);
                }
                Some((fs, q))
            },
            None => None,
        }
    } else {
        match find_from_exec(s, sep, i) {
            Some(j) => {
                proof {
                    lemma_find_from(s@, sep@, i as int);
                }
                match lazy_fields_exec(s, j + sep.len(), sep, end, n - 1) {
                    Some((rest, q)) => {
                        let f = subvec(s, i, j);
                        let mut fs: Vec<Vec<char>> = Vec::new();
                        fs.push(f);
                        let mut k: usize = 0;
                        while k < rest.len()
                            invariant
                                k <= rest.len(),
                                views(fs@) == seq![f@] + views(rest@).take(k as int),
                            decreases rest.len() - k,
                        {
                            let c = subvec(&rest[k], 0, rest[k].len());
                            proof {
                                assert(c@ =~= rest@[k as int]@);
                                assert(views(fs@.push(c)) =~= views(fs@).push(c@));
                                assert(views(rest@).take(k + 1) =~= views(rest@).take(
                                    k as int,
                                ).push(c@));
                            }
                            fs.push(c);
                            k += 1;
                        }
                        proof {
                            assert(views(rest@).take(rest.len() as int) =~= views(rest@));
                        }
                        Some((fs, q))
                    },
                    None => None,
                }
            },
            None => None,
        }
    }
}

/// The field lists of all `start`…`end` records of `s` whose `n` fields
/// are matched one by one.
pub fn find_field_records(
    s: &Vec<char>,
    start: &Vec<char>,
    sep: &Vec<char>,
    end: &Vec<char>,
    n: usize,
) -> (out: Vec<Vec<Vec<char>>>)
    ensures
        out@.len() == field_records_from(s@, start@, sep@, end@, n as nat, 0).len(),
        forall|k: int|
            0 <= k < out@.len() ==> views(#[trigger] out@[k]@) == field_records_from(
                s@,
                start@,
                sep@,
                end@,
                n as nat,
                0,
            )[k],
{
    let mut out: Vec<Vec<Vec<char>>> = Vec::new();
    if start.len() == 0 || end.len() == 0 || sep.len() == 0 {
        return out;
    }
    let len = s.len();
    let mut pos: usize = 0;
    let ghost all = field_records_from(s@, start@, sep@, end@, n as nat, 0);
    while pos < len
        invariant
            len == s.len(),
            start.len() > 0,
            end.len() > 0,
            sep.len() > 0,
            pos <= len,
            all == field_records_from(s@, start@, sep@, end@, n as nat, 0),
            out@.len() + field_records_from(s@, start@, sep@, end@, n as nat, pos as int).len()
                == all.len(),
            forall|k: int| 0 <= k < out@.len() ==> views(#[trigger] out@[k]@) == all[k],
            forall|k: int|
                0 <= k < field_records_from(s@, start@, sep@, end@, n as nat, pos as int).len()
                    ==> #[trigger] field_records_from(s@, start@, sep@, end@, n as nat, pos as int)[k]
                    == all[out@.len() + k],
        decreases len - pos,
    {
        let ghost cur = field_records_from(s@, start@, sep@, end@, n as nat, pos as int);
        let found = if matches_at_exec(s, pos, start) {
            match lazy_fields_exec(s, pos + start.len(), sep, end, n) {
                Some((fs, q)) => {
                    proof {
                        lemma_lazy_fields(s@, pos + start.len(), sep@, end@, n as nat);
                    }
                    if no_newline_exec(s, pos + start.len(), q) {
                        Some((fs, q))
                    } else {
                        None
                    }
                },
                None => None,
            }
        } else {
            None
        };
        match found {
            Some((fs, q)) => {
                proof {
                    lemma_lazy_fields(s@, pos + start.len(), sep@, end@, n as nat);
                    let rest = field_records_from(s@, start@, sep@, end@, n as nat, q + end.len());
                    assert(cur == seq![views(fs@)] + rest);
                    assert forall|k: int| 0 <= k < rest.len() implies #[trigger] rest[k] == all[
                        out@.len() + 1 + k
                    ] by {
                        assert(cur[k + 1] == rest[k]);
                    }
                    assert(cur[0] == views(fs@));
                }
                out.push(fs);
                pos = q + end.len();
            },
            None => {
                pos += 1;
            },
        }
    }
    out
}

// ---------------------------------------------------------------------------
// Records split into fields
// ---------------------------------------------------------------------------

/// The field lists (each body split on `sep`) of the bodies whose field
/// count lies in `lo..=hi`, in order.
pub open spec fn field_lists_within(bodies: Seq<Seq<char>>, sep: Seq<char>, lo: nat, hi: nat) -> Seq<
    Seq<Seq<char>>,
>
    decreases bodies.len(),
{
    if bodies.len() == 0 {
        seq![]
    } else {
        let prev = field_lists_within(bodies.drop_last(), sep, lo, hi);
        let f = split_seq(bodies.last(), sep);
        if lo <= f.len() <= hi {
            prev.push(f)
        } else {
            prev
        }
    }
}

/// `out` holds, as character vectors, exactly the lists `l`.
pub open spec fn lists_view(out: Seq<Vec<Vec<char>>>, l: Seq<Seq<Seq<char>>>) -> bool {
    out.len() == l.len() && forall|k: int| 0 <= k < out.len() ==> views(#[trigger] out[k]@) == l[k]
}

/// The field lists of the `start`…`end` records of `raw` that have between
/// `lo` and `hi` fields separated by `sep`.
pub fn framed_field_lists(
    raw: &Vec<char>,
    start: &Vec<char>,
    end: &Vec<char>,
    sep: &Vec<char>,
    lo: usize,
    hi: usize,
) -> (out: Vec<Vec<Vec<char>>>)
    requires
        sep.len() > 0,
    ensures
        lists_view(
            out@,
            field_lists_within(records(raw@, start@, end@), sep@, lo as nat, hi as nat),
        ),
{
    let bodies = find_records(raw, start, end);
    let ghost bv = records(raw@, start@, end@);
    let mut out: Vec<Vec<Vec<char>>> = Vec::new();
    let mut k: usize = 0;
    while k < bodies.len()
        invariant
            k <= bodies.len(),
            sep.len() > 0,
            views(bodies@) == bv,
            lists_view(out@, field_lists_within(bv.take(k as int), sep@, lo as nat, hi as nat)),
        decreases bodies.len() - k,
    {
        let fields = split_vec(&bodies[k], sep);
        proof {
            assert(bv.take(k + 1).drop_last() =~= bv.take(k as int));
            assert(bv.take(k + 1).last() == bodies@[k as int]@);
        }
        if lo <= fields.len() && fields.len() <= hi {
            proof {
                let prev = field_lists_within(bv.take(k as int), sep@, lo as nat, hi as nat);
                assert(lists_view(out@.push(fields), prev.push(views(fields@)))) by {
                    assert forall|j: int| 0 <= j < out@.len() + 1 implies views(
                        #[trigger] out@.push(fields)[j]@,
                    ) == prev.push(views(fields@))[j] by {
                        if j < out@.len() {
                            assert(out@.push(fields)[j] == out@[j]);
                        }
                    }
                }
            }
            out.push(fields);
        }
        k += 1;
    }
    proof {
        assert(bv.take(bodies.len() as int) =~= bv);
    }
    out
}

// ---------------------------------------------------------------------------
// Comma-separated lists
// ---------------------------------------------------------------------------

/// The trimmed pieces that are not empty, in order.
pub open spec fn nonempty_trimmed(pieces: Seq<Seq<char>>) -> Seq<Seq<char>>
    decreases pieces.len(),
{
    if pieces.len() == 0 {
        seq![]
    } else {
        let prev = nonempty_trimmed(pieces.drop_last());
        let t = trim_seq(pieces.last());
        if t.len() > 0 {
            prev.push(t)
        } else {
            prev
        }
    }
}

/// The entries of a comma-separated list: empty input gives no entry;
/// otherwise the pieces between commas, trimmed, without the empty ones.
pub open spec fn comma_list(raw: Seq<char>) -> Seq<Seq<char>> {
    if raw.len() == 0 {
        seq![]
    } else {
        nonempty_trimmed(split_seq(raw, seq![',']))
    }
}

/// The entries of a comma-separated list (see `comma_list`).
pub fn comma_list_exec(raw: &Vec<char>) -> (out: Vec<String>)
    ensures
        string_views(out@) == comma_list(raw@),
{
    let mut out: Vec<String> = Vec::new();
    if raw.len() == 0 {
        assert(string_views(out@) =~= seq![]);
        return out;
    }
    let mut comma: Vec<char> = Vec::new();
    comma.push(',');
    let pieces = split_vec(raw, &comma);
    proof {
        assert(comma@ =~= seq![',']);
    }
    let ghost pv = split_seq(raw@, seq![',']);
    let mut k: usize = 0;
    while k < pieces.len()
        invariant
            k <= pieces.len(),
            views(pieces@) == pv,
            string_views(out@) == nonempty_trimmed(pv.take(k as int)),
        decreases pieces.len() - k,
    {
        let t = trim_vec(&pieces[k]);
        proof {
            assert(pv.take(k + 1).drop_last() =~= pv.take(k as int));
            assert(pv.take(k + 1).last() == pieces@[k as int]@);
        }
        if t.len() > 0 {
            let ts = string_of(&t);
            proof {
                assert(string_views(out@.push(ts)) =~= string_views(out@).push(ts@));
            }
            out.push(ts);
        }
        k += 1;
    }
    proof {
        assert(pv.take(pieces.len() as int) =~= pv);
    }
    out
}

/// The trimmed text of a field, as a string.
pub fn trimmed_field(f: &Vec<char>) -> (s: String)
    ensures
        s@ == trim_seq(f@),
{
    let t = trim_vec(f);
    string_of(&t)
}

/// Every kept field list has a field count in `lo..=hi`.
pub proof fn lemma_field_lists_within_counts(
    bodies: Seq<Seq<char>>,
    sep: Seq<char>,
    lo: nat,
    hi: nat,
    k: int,
)
    requires
        0 <= k < field_lists_within(bodies, sep, lo, hi).len(),
    ensures
        lo <= field_lists_within(bodies, sep, lo, hi)[k].len() <= hi,
    decreases bodies.len(),
{
    if bodies.len() > 0 {
        let prev = field_lists_within(bodies.drop_last(), sep, lo, hi);
        if k < prev.len() {
            lemma_field_lists_within_counts(bodies.drop_last(), sep, lo, hi, k);
        }
    }
}

/// Every body split on `sep`, in order.
pub open spec fn field_lists_all(bodies: Seq<Seq<char>>, sep: Seq<char>) -> Seq<Seq<Seq<char>>>
    decreases bodies.len(),
{
    if bodies.len() == 0 {
        seq![]
    } else {
        field_lists_all(bodies.drop_last(), sep).push(split_seq(bodies.last(), sep))
    }
}

/// The field lists of all `start`…`end` records of `raw`.
pub fn framed_field_lists_all(raw: &Vec<char>, start: &Vec<char>, end: &Vec<char>, sep: &Vec<char>) -> (out:
    Vec<Vec<Vec<char>>>)
    requires
        sep.len() > 0,
    ensures
        lists_view(out@, field_lists_all(records(raw@, start@, end@), sep@)),
{
    let bodies = find_records(raw, start, end);
    let ghost bv = records(raw@, start@, end@);
    let mut out: Vec<Vec<Vec<char>>> = Vec::new();
    let mut k: usize = 0;
    while k < bodies.len()
        invariant
            k <= bodies.len(),
            sep.len() > 0,
            views(bodies@) == bv,
            lists_view(out@, field_lists_all(bv.take(k as int), sep@)),
        decreases bodies.len() - k,
    {
        let fields = split_vec(&bodies[k], sep);
        proof {
            assert(bv.take(k + 1).drop_last() =~= bv.take(k as int));
            assert(bv.take(k + 1).last() == bodies@[k as int]@);
            let prev = field_lists_all(bv.take(k as int), sep@);
            assert(lists_view(out@.push(fields), prev.push(views(fields@)))) by {
                assert forall|j: int| 0 <= j < out@.len() + 1 implies views(
                    #[trigger] out@.push(fields)[j]@,
                ) == prev.push(views(fields@))[j] by {
                    if j < out@.len() {
                        assert(out@.push(fields)[j] == out@[j]);
                    }
                }
            }
        }
        out.push(fields);
        k += 1;
    }
    proof {
        assert(bv.take(bodies.len() as int) =~= bv);
    }
    out
}

/// The characters of each field as strings.
pub fn field_strings(f: &Vec<Vec<char>>) -> (out: Vec<String>)
    ensures
        string_views(out@) == views(f@),
{
    let mut out: Vec<String> = Vec::new();
    let mut k: usize = 0;
    while k < f.len()
        invariant
            k <= f.len(),
            string_views(out@) == views(f@).take(k as int),
        decreases f.len() - k,
    {
        let s = string_of(&f[k]);
        proof {
            assert(string_views(out@.push(s)) =~= string_views(out@).push(s@));
            assert(views(f@).take(k + 1) =~= views(f@).take(k as int).push(f@[k as int]@));
        }
        out.push(s);
        k += 1;
    }
    proof {
        assert(views(f@).take(f.len() as int) =~= views(f@));
    }
    out
}

/// Every field list found holds `n` fields (for `n >= 1`).
pub proof fn lemma_field_records_len(
    s: Seq<char>,
    start: Seq<char>,
    sep: Seq<char>,
    end: Seq<char>,
    n: nat,
    pos: int,
    k: int,
)
    requires
        n >= 1,
        0 <= k < field_records_from(s, start, sep, end, n, pos).len(),
    ensures
        field_records_from(s, start, sep, end, n, pos)[k].len() == n,
    decreases s.len() - pos,
{
    if pos < 0 || pos >= s.len() || start.len() == 0 || end.len() == 0 || sep.len() == 0 {
    } else {
        match field_record_at(s, pos, start, sep, end, n) {
            Some((fs, q)) => {
                lemma_lazy_fields(s, pos + start.len(), sep, end, n);
                if k > 0 {
                    lemma_field_records_len(s, start, sep, end, n, q + end.len(), k - 1);
                }
            },
            None => {
                lemma_field_records_len(s, start, sep, end, n, pos + 1, k);
            },
        }
    }
}

} // verus!
