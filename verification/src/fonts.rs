//! Picking a representative font from a family.
//!
//! Every font in a family is scored against a style and weight preference,
//! and the first font of maximal score wins. The score prefers the preferred
//! style, weights close to the preferred weight, heavier over lighter at
//! equal distance, and file names that look like variable-font files.

use vstd::math::abs;
use vstd::prelude::*;

use crate::records::{FamilyRecord, FontRecord, FontView};
use crate::text::{chars_of, str_eq};

verus! {

/// Font style preference for font selection (normal or italic).
#[derive(Copy, Clone, Debug, PartialEq, Eq, Structural)]
pub enum FontStyle {
    Normal,
    Italic,
}

impl FontStyle {
    /// The canonical style string of this preference.
    pub open spec fn spec_style(self) -> Seq<char> {
        match self {
            FontStyle::Normal => "normal"@,
            FontStyle::Italic => "italic"@,
        }
    }

    /// The canonical style string of this preference.
    pub fn style(&self) -> (r: &str)
        ensures
            r@ == self.spec_style(),
    {
        match self {
            FontStyle::Normal => "normal",
            FontStyle::Italic => "italic",
        }
    }
}

/// Whether a file name carries the two-character run `].`, the sign of an
/// axis-tagged variable-font file name.
pub open spec fn has_variable_marker(s: Seq<char>) -> bool {
    exists|i: int| 0 <= i && i + 2 <= s.len() && (#[trigger] s[i]) == ']' && s[i + 1] == '.'
}

/// Executable test for [`has_variable_marker`].
fn variable_marker(v: &Vec<char>) -> (r: bool)
    ensures
        r == has_variable_marker(v@),
{
    let n = v.len();
    if n < 2 {
        return false;
    }
    let mut i: usize = 0;
    while i <= n - 2
        invariant
            2 <= n == v@.len(),
            i <= n - 1,
            forall|k: int| 0 <= k < i ==> !((#[trigger] v@[k]) == ']' && v@[k + 1] == '.'),
        decreases n - i,
    {
        if v[i] == ']' && v[i + 1] == '.' {
            return true;
        }
        i = i + 1;
    }
    false
}

/// A candidate's score against a style and weight preference: 16 for the
/// preferred style, minus one per full hundred of weight distance, plus one
/// for being heavier than preferred, plus two for a variable-font file name.
pub open spec fn spec_score(f: FontView, style: Seq<char>, weight: int) -> int {
    (if f.style == style {
        16int
    } else {
        0int
    }) - abs(f.weight - weight) / 100 + (if f.weight > weight {
        1int
    } else {
        0int
    }) + (if has_variable_marker(f.filename) {
        2int
    } else {
        0int
    })
}

/// Scores one font against a style and weight preference.
pub fn exemplar_score(font: &FontRecord, preferred_style: FontStyle, preferred_weight: i32) -> (r:
    i32)
    ensures
        r as int == spec_score(font@, preferred_style.spec_style(), preferred_weight as int),
{
    let mut score: i64 = 0;
    if str_eq(font.style.as_str(), preferred_style.style()) {
        score = score + 16;
    }
    let d: i64 = font.weight as i64 - preferred_weight as i64;
    let a: i64 = if d < 0 {
        -d
    } else {
        d
    };
    proof {
        assert(a as int == abs(font@.weight - preferred_weight as int));
        vstd::arithmetic::div_mod::lemma_div_is_ordered(a as int, 0x1_0000_0000, 100);
        vstd::arithmetic::div_mod::lemma_div_is_ordered(0, a as int, 100);
    }
    score = score - a / 100;
    if font.weight > preferred_weight {
        score = score + 1;
    }
    let fc = chars_of(font.filename.as_str());
    if variable_marker(&fc) {
        score = score + 2;
    }
    score as i32
}

/// The index the left-to-right "replace only on strictly greater" pick
/// settles on, over the first `n` fonts.
pub open spec fn best_upto(fonts: Seq<FontView>, style: Seq<char>, weight: int, n: int) -> int
    decreases n,
{
    if n <= 1 {
        0
    } else {
        let b = best_upto(fonts, style, weight, n - 1);
        if spec_score(fonts[n - 1], style, weight) > spec_score(fonts[b], style, weight) {
            n - 1
        } else {
            b
        }
    }
}

/// The index [`select_font`] picks over the whole family.
pub open spec fn selected_index(fonts: Seq<FontView>, style: Seq<char>, weight: int) -> int {
    best_upto(fonts, style, weight, fonts.len() as int)
}

/// The picked font scores at least as high as every font of the family, and
/// every earlier font scores strictly lower: ties go to the earliest.
pub proof fn lemma_selected_maximal(fonts: Seq<FontView>, style: Seq<char>, weight: int, n: int)
    requires
        1 <= n <= fonts.len(),
    ensures
        0 <= best_upto(fonts, style, weight, n) < n,
        forall|j: int| 0 <= j < n ==> spec_score(#[trigger] fonts[j], style, weight) <= spec_score(
            fonts[best_upto(fonts, style, weight, n)],
            style,
            weight,
        ),
        forall|j: int| 0 <= j < best_upto(fonts, style, weight, n) ==> spec_score(
            #[trigger] fonts[j],
            style,
            weight,
        ) < spec_score(fonts[best_upto(fonts, style, weight, n)], style, weight),
    decreases n,
{
    if n > 1 {
        lemma_selected_maximal(fonts, style, weight, n - 1);
    }
}

/// Selects the best matching font from a family given style and weight
/// preferences: every font is scored and the first font of maximal score is
/// returned; only a family with no fonts yields `None`.
pub fn select_font<'a>(
    family: &'a FamilyRecord,
    preferred_style: FontStyle,
    preferred_weight: i32,
) -> (r: Option<&'a FontRecord>)
    ensures
        match r {
            Some(f) => family@.fonts.len() > 0 && f@ == family@.fonts[selected_index(
                family@.fonts,
                preferred_style.spec_style(),
                preferred_weight as int,
            )] && forall|j: int|
                0 <= j < family@.fonts.len() ==> spec_score(
                    #[trigger] family@.fonts[j],
                    preferred_style.spec_style(),
                    preferred_weight as int,
                ) <= spec_score(f@, preferred_style.spec_style(), preferred_weight as int),
            None => family@.fonts.len() == 0,
        },
{
    let ghost fv = family@.fonts;
    let ghost style = preferred_style.spec_style();
    let ghost w = preferred_weight as int;
    let m = family.fonts.len();
    proof {
        assert(fv.len() == family.fonts@.len());
    }
    if m == 0 {
        return None;
    }
    proof {
        assert(fv[0] == family.fonts@[0]@);
    }
    let mut best: usize = 0;
    let mut best_score = exemplar_score(&family.fonts[0], preferred_style, preferred_weight);
    let mut i: usize = 1;
    while i < m
        invariant
            1 <= i <= m == fv.len(),
            fv == family@.fonts,
            fv.len() == family.fonts@.len(),
            forall|k: int| 0 <= k < fv.len() ==> #[trigger] fv[k] == family.fonts@[k]@,
            best < i,
            best as int == best_upto(fv, style, w, i as int),
            style == preferred_style.spec_style(),
            w == preferred_weight as int,
            best_score as int == spec_score(fv[best as int], style, w),
        decreases m - i,
    {
        let s = exemplar_score(&family.fonts[i], preferred_style, preferred_weight);
        if s > best_score {
            best = i;
            best_score = s;
        }
        i = i + 1;
    }
    proof {
        lemma_selected_maximal(fv, style, w, fv.len() as int);
    }
    Some(&family.fonts[best])
}

/// Picks the exemplar font from a family.
///
/// This is the font file that is most likely to be a representative choice
/// for the family: [`select_font`] with normal style and weight 400.
pub fn exemplar<'a>(family: &'a FamilyRecord) -> (r: Option<&'a FontRecord>)
    ensures
        match r {
            Some(f) => family@.fonts.len() > 0 && f@ == family@.fonts[selected_index(
                family@.fonts,
                "normal"@,
                400,
            )] && forall|j: int|
                0 <= j < family@.fonts.len() ==> spec_score(#[trigger] family@.fonts[j], "normal"@, 400)
                    <= spec_score(f@, "normal"@, 400),
            None => family@.fonts.len() == 0,
        },
{
    select_font(family, FontStyle::Normal, 400)
}

/// Moving a candidate's weight closer to the preferred weight, without
/// crossing it, never lowers the distance term of the score.
pub proof fn lemma_distance_term_monotonic(w1: int, w2: int, pw: int)
    requires
        (w1 <= w2 <= pw) || (pw <= w2 <= w1),
    ensures
        -(abs(w2 - pw) / 100) >= -(abs(w1 - pw) / 100),
{
    vstd::arithmetic::div_mod::lemma_div_is_ordered(abs(w2 - pw) as int, abs(w1 - pw) as int, 100);
}

/// For two fonts alike in all but weight, both no heavier than preferred,
/// the heavier one - the one closer to the preference - scores at least as
/// high.
pub proof fn lemma_score_monotonic_below(f1: FontView, f2: FontView, style: Seq<char>, pw: int)
    requires
        f1.style == f2.style,
        f1.filename == f2.filename,
        f1.weight <= f2.weight <= pw,
    ensures
        spec_score(f2, style, pw) >= spec_score(f1, style, pw),
{
    lemma_distance_term_monotonic(f1.weight, f2.weight, pw);
}

} // verus!
