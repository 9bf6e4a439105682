//! The tokenizer for CSV-encoded tag lines.
//!
//! A line is split into fields at commas. A field may be wrapped in one level
//! of double quotes, in which case it may itself contain commas; the quotes
//! are stripped and the content between them is returned as-is. Whitespace
//! around an unquoted field is trimmed.

use vstd::prelude::*;

use crate::text::{
    chars_of, find_from, lemma_find_from, lemma_skip_spaces, skip_spaces, string_from_chars,
    sub_chars, sub_chars_trim_end, trim_end_spec, vec_find_from, vec_skip_spaces,
};

verus! {

/// The fields of `s` from position `pos` on, or `None` when a quote opened at
/// or after `pos` never closes.
pub open spec fn tokenize_from(s: Seq<char>, pos: int) -> Option<Seq<Seq<char>>>
    decreases s.len() - pos,
    via tokenize_from_decreases
{
    if pos >= s.len() || pos < 0 {
        Some(Seq::empty())
    } else {
        let p = skip_spaces(s, pos);
        if p < s.len() && s[p] == '"' {
            match find_from(s, p + 1, '"') {
                None => None,
                Some(q) => {
                    let field = s.subrange(p + 1, q);
                    match find_from(s, q + 1, ',') {
                        Some(k) => match tokenize_from(s, k + 1) {
                            None => None,
                            Some(rest) => Some(seq![field] + rest),
                        },
                        None => Some(seq![field]),
                    }
                },
            }
        } else {
            match find_from(s, p, ',') {
                Some(k) => {
                    let field = trim_end_spec(s.subrange(p, k));
                    match tokenize_from(s, k + 1) {
                        None => None,
                        Some(rest) => Some(seq![field] + rest),
                    }
                },
                None => Some(seq![trim_end_spec(s.subrange(p, s.len() as int))]),
            }
        }
    }
}

#[via_fn]
proof fn tokenize_from_decreases(s: Seq<char>, pos: int) {
    if 0 <= pos < s.len() {
        lemma_skip_spaces(s, pos);
        let p = skip_spaces(s, pos);
        if p < s.len() && s[p] == '"' {
            lemma_find_from(s, p + 1, '"');
            match find_from(s, p + 1, '"') {
                Some(q) => {
                    lemma_find_from(s, q + 1, ',');
                },
                None => {},
            }
        } else {
            lemma_find_from(s, p, ',');
        }
    }
}

/// The fields of a whole line.
pub open spec fn tokenize_spec(s: Seq<char>) -> Option<Seq<Seq<char>>> {
    tokenize_from(s, 0)
}

/// Splits one CSV line into its raw field strings.
///
/// Returns `None` exactly when a double quote opens a field and no closing
/// quote follows.
pub fn csv_values(s: &str) -> (r: Option<Vec<String>>)
    ensures
        match r {
            Some(v) => tokenize_spec(s@) == Some(v.deep_view()),
            None => tokenize_spec(s@) is None,
        },
{
    let cs = chars_of(s);
    let n = cs.len();
    let mut out: Vec<String> = Vec::new();
    let mut pos: usize = 0;
    while pos < n
        invariant
            pos <= n == cs@.len(),
            cs@ == s@,
            match tokenize_from(cs@, pos as int) {
                Some(rest) => tokenize_from(cs@, 0) == Some(out.deep_view() + rest),
                None => tokenize_from(cs@, 0) is None,
            },
        decreases n - pos,
    {
        let ghost pos0 = pos as int;
        let ghost out0 = out.deep_view();
        let p = vec_skip_spaces(&cs, pos);
        if p < n && cs[p] == '"' {
            match vec_find_from(&cs, p + 1, '"') {
                None => {
                    proof {
                        assert(tokenize_from(cs@, pos0) is None);
                    }
                    return None;
                },
                Some(q) => {
                    let field = sub_chars(&cs, p + 1, q);
                    let fs = string_from_chars(&field);
                    out.push(fs);
                    proof {
                        assert(out.deep_view() =~= out0.push(cs@.subrange(p + 1, q as int)));
                    }
                    match vec_find_from(&cs, q + 1, ',') {
                        Some(k) => {
                            pos = k + 1;
                            proof {
                                lemma_step(cs@, pos0, out0, cs@.subrange(p + 1, q as int), pos as int, out.deep_view());
                            }
                        },
                        None => {
                            pos = n;
                            proof {
                                lemma_step(cs@, pos0, out0, cs@.subrange(p + 1, q as int), pos as int, out.deep_view());
                            }
                        },
                    }
                },
            }
        } else {
            match vec_find_from(&cs, p, ',') {
                Some(k) => {
                    let field = sub_chars_trim_end(&cs, p, k);
                    let fs = string_from_chars(&field);
                    out.push(fs);
                    pos = k + 1;
                    proof {
                        assert(out.deep_view() =~= out0.push(trim_end_spec(cs@.subrange(p as int, k as int))));
                        lemma_step(cs@, pos0, out0, trim_end_spec(cs@.subrange(p as int, k as int)), pos as int, out.deep_view());
                    }
                },
                None => {
                    let field = sub_chars_trim_end(&cs, p, n);
                    let fs = string_from_chars(&field);
                    out.push(fs);
                    pos = n;
                    proof {
                        assert(out.deep_view() =~= out0.push(trim_end_spec(cs@.subrange(p as int, n as int))));
                        lemma_step(cs@, pos0, out0, trim_end_spec(cs@.subrange(p as int, n as int)), pos as int, out.deep_view());
                    }
                },
            }
        }
    }
    proof {
        assert(tokenize_from(cs@, pos as int) == Some(Seq::<Seq<char>>::empty()));
        assert(out.deep_view() + Seq::<Seq<char>>::empty() =~= out.deep_view());
    }
    Some(out)
}

/// One tokenizer step: if position `pos` yields `field` and continues at
/// `next`, the accumulated prefix extends accordingly.
proof fn lemma_step(
    s: Seq<char>,
    pos: int,
    acc: Seq<Seq<char>>,
    field: Seq<char>,
    next: int,
    acc2: Seq<Seq<char>>,
)
    requires
        tokenize_from(s, pos) == match tokenize_from(s, next) {
            Some(rest) => Some(seq![field] + rest),
            None => None::<Seq<Seq<char>>>,
        },
        match tokenize_from(s, pos) {
            Some(rest) => tokenize_from(s, 0) == Some(acc + rest),
            None => tokenize_from(s, 0) is None,
        },
        acc2 == acc.push(field),
    ensures
        match tokenize_from(s, next) {
            Some(rest) => tokenize_from(s, 0) == Some(acc2 + rest),
            None => tokenize_from(s, 0) is None,
        },
{
    match tokenize_from(s, next) {
        Some(rest) => {
            assert(acc + (seq![field] + rest) =~= acc2 + rest);
        },
        None => {},
    }
}

} // verus!
