//! The visibility of a declaration, read from its line by the conventions
//! of its language.

use crate::conversion::textops::{nth_word, nth_word_exec, trim_start_vec, words, words_exec};
use crate::text::{is_uppercase, matches_at_exec, starts_with_seq, str_eq, trim_start_seq, unicode_uppercase};
use vstd::prelude::*;

verus! {

/// The name a Go `func` line declares, read from its words: the first word
/// that is not `func` (or opens a receiver); after a receiver, the second
/// word after it, else the first.
pub open spec fn go_func_name(parts: Seq<Seq<char>>) -> Seq<char> {
    match first_name_word(parts, 0) {
        Some(i) => if parts[i].len() > 0 && parts[i][0] == '(' {
            if i + 2 < parts.len() {
                parts[i + 2]
            } else if i + 1 < parts.len() {
                parts[i + 1]
            } else {
                seq![]
            }
        } else {
            parts[i]
        },
        None => seq![],
    }
}

/// The first index from `i` of a word that opens a receiver or is not
/// `func`.
pub open spec fn first_name_word(parts: Seq<Seq<char>>, i: int) -> Option<int>
    decreases parts.len() - i,
{
    if i < 0 || i >= parts.len() {
        None
    } else if (parts[i].len() > 0 && parts[i][0] == '(') || parts[i] != "func"@ {
        Some(i)
    } else {
        first_name_word(parts, i + 1)
    }
}

/// Bounds of `first_name_word`.
pub proof fn lemma_first_name_word(parts: Seq<Seq<char>>, i: int)
    requires
        0 <= i,
    ensures
        first_name_word(parts, i) matches Some(j) ==> i <= j < parts.len(),
    decreases parts.len() - i,
{
    if i < parts.len() && !((parts[i].len() > 0 && parts[i][0] == '(') || parts[i] != "func"@) {
        lemma_first_name_word(parts, i + 1);
    }
}

/// The visibility of the declaration on `line` in language `lang`.
pub open spec fn visibility_of(line: Seq<char>, lang: Seq<char>) -> Seq<char> {
    let t = trim_start_seq(line);
    if lang == "rust"@ {
        if starts_with_seq(t, "pub(crate)"@) {
            "pub(crate)"@
        } else if starts_with_seq(t, "pub(super)"@) {
            "pub(super)"@
        } else if starts_with_seq(t, "pub"@) {
            "pub"@
        } else {
            "private"@
        }
    } else if lang == "python"@ {
        let name = nth_word(t, 1);
        if name.len() > 0 && name[0] == '_' {
            "private"@
        } else {
            "pub"@
        }
    } else if lang == "go"@ {
        let parts = words(t);
        let name = if starts_with_seq(t, "func"@) {
            go_func_name(parts)
        } else {
            nth_word(t, 1)
        };
        let first = if name.len() > 0 {
            name[0]
        } else {
            'a'
        };
        if unicode_uppercase(first) {
            "pub"@
        } else {
            "private"@
        }
    } else if lang == "java"@ || lang == "kotlin"@ || lang == "csharp"@ || lang == "cpp"@ || lang
        == "c"@ {
        if starts_with_seq(t, "public"@) {
            "pub"@
        } else if starts_with_seq(t, "protected"@) {
            "protected"@
        } else {
            "private"@
        }
    } else if lang == "javascript"@ || lang == "typescript"@ {
        if starts_with_seq(t, "export"@) {
            "pub"@
        } else {
            "private"@
        }
    } else {
        "pub"@
    }
}

fn starts_with_lit(t: &Vec<char>, lit: &str) -> (b: bool)
    ensures
        b == starts_with_seq(t@, lit@),
{
    let p = crate::text::chars_of(lit);
    matches_at_exec(t, 0, &p)
}

fn go_name_exec(parts: &Vec<Vec<char>>) -> (name: Vec<char>)
    ensures
        name@ == go_func_name(parts@.map_values(|p: Vec<char>| p@)),
{
    let ghost ps = parts@.map_values(|p: Vec<char>| p@);
    let func = crate::text::chars_of("func");
    let mut i: usize = 0;
    while i < parts.len()
        invariant
            i <= parts.len(),
            ps == parts@.map_values(|p: Vec<char>| p@),
            func@ == "func"@,
            first_name_word(ps, 0) == first_name_word(ps, i as int),
        decreases parts.len() - i,
    {
        let p = &parts[i];
        proof {
            assert(ps[i as int] == p@);
        }
        let opens = p.len() > 0 && p[0] == '(';
        if opens || !crate::text::seq_eq(p, &func) {
            if opens {
                if parts.len() - i > 2 {
                    proof {
                        assert(ps[i + 2] == parts@[i + 2]@);
                    }
                    return crate::text::subvec(&parts[i + 2], 0, parts[i + 2].len());
                } else if parts.len() - i > 1 {
                    proof {
                        assert(ps[i + 1] == parts@[i + 1]@);
                    }
                    return crate::text::subvec(&parts[i + 1], 0, parts[i + 1].len());
                } else {
                    return Vec::new();
                }
            } else {
                return crate::text::subvec(p, 0, p.len());
            }
        }
        i += 1;
    }
    Vec::new()
}

/// The visibility of the declaration on `line` in language `lang`.
pub fn extract_visibility(line: &Vec<char>, lang: &str) -> (v: &'static str)
    ensures
        v@ == visibility_of(line@, lang@),
{
    let t = trim_start_vec(line);
    if str_eq(lang, "rust") {
        if starts_with_lit(&t, "pub(crate)") {
            "pub(crate)"
        } else if starts_with_lit(&t, "pub(super)") {
            "pub(super)"
        } else if starts_with_lit(&t, "pub") {
            "pub"
        } else {
            "private"
        }
    } else if str_eq(lang, "python") {
        let name = nth_word_exec(&t, 1);
        if name.len() > 0 && name[0] == '_' {
            "private"
        } else {
            "pub"
        }
    } else if str_eq(lang, "go") {
        let name = if starts_with_lit(&t, "func") {
            let parts = words_exec(&t);
            proof {
                assert(parts@.map_values(|p: Vec<char>| p@) =~= words(t@));
            }
            go_name_exec(&parts)
        } else {
            nth_word_exec(&t, 1)
        };
        let first = if name.len() > 0 {
            name[0]
        } else {
            'a'
        };
        if is_uppercase(first) {
            "pub"
        } else {
            "private"
        }
    } else if str_eq(lang, "java") || str_eq(lang, "kotlin") || str_eq(lang, "csharp") || str_eq(
        lang,
        "cpp",
    ) || str_eq(lang, "c") {
        if starts_with_lit(&t, "public") {
            "pub"
        } else if starts_with_lit(&t, "protected") {
            "protected"
        } else {
            "private"
        }
    } else if str_eq(lang, "javascript") || str_eq(lang, "typescript") {
        if starts_with_lit(&t, "export") {
            "pub"
        } else {
            "private"
        }
    } else {
        "pub"
    }
}

} // verus!
