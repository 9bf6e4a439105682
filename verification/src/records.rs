//! Family and language records and the line-based reader for their texts.
//!
//! The repository's record files use the protocol-buffer text syntax, one
//! field per line: a scalar field `key: value`, a block `key { ... }`, or a
//! blank line. The schema behind the records is wide; this reader
//! understands it far enough for the fields the library works with and
//! skips the rest: unknown scalar fields and unknown blocks are passed
//! over, with nothing inside a skipped block interpreted. The one exception
//! is the undocumented `position` field, which the schema does not contain
//! and a schema-checking parser rejects: this reader rejects it too, as a
//! scalar or as a block, which is why [`read_family`] strips `position`
//! blocks out of the text first. The language reader checks field names
//! against the language schema exactly, since that schema also stands
//! behind the bundled knowledge base.

use vstd::prelude::*;

use crate::langs::{LanguageRecord, LanguageView};
use crate::text::{
    chars_eq_str, chars_of, find_from, int_token_fits, int_token_val, is_int_token,
    lemma_find_from, opt_str_view, parse_int_chars, string_from_chars, sub_chars,
    sub_chars_trim_end, trim_both, trim_end_spec, trim_spec, vec_find_from,
};

verus! {

/// Why a record text could not be read.
#[derive(Clone, Copy, Debug, PartialEq, Eq, Structural)]
pub enum ParseError {
    /// A line is neither blank, a scalar field, a block opener nor a closer,
    /// or a known field carries a value of the wrong shape.
    Malformed,
    /// A field the record schema does not contain: the undocumented
    /// `position` field in a family record, or a field the language schema
    /// does not list.
    UnknownField,
    /// A block closer without an open block, or a block left open at the
    /// end.
    Unbalanced,
    /// The record declares no non-empty name or id.
    MissingName,
    /// A numeric field does not hold an integer the reader accepts.
    BadNumber,
}

/// One font file within a family.
#[derive(Clone, Debug)]
pub struct FontRecord {
    /// Font file name, unique within its family.
    pub filename: String,
    /// Style string, such as `normal` or `italic`.
    pub style: String,
    /// Weight, such as 400.
    pub weight: i32,
}

/// The mathematical content of a [`FontRecord`].
pub struct FontView {
    pub filename: Seq<char>,
    pub style: Seq<char>,
    pub weight: int,
}

impl View for FontRecord {
    type V = FontView;

    open spec fn view(&self) -> FontView {
        FontView { filename: self.filename@, style: self.style@, weight: self.weight as int }
    }
}

impl DeepView for FontRecord {
    type V = FontView;

    open spec fn deep_view(&self) -> FontView {
        self.view()
    }
}

/// One font family's metadata record.
#[derive(Clone, Debug)]
pub struct FamilyRecord {
    /// Family name, non-empty whenever parsing succeeded.
    pub name: String,
    /// Declared primary language id, when present.
    pub primary_language: Option<String>,
    /// Declared primary script id, when present.
    pub primary_script: Option<String>,
    /// The family's fonts, in record order.
    pub fonts: Vec<FontRecord>,
}

/// The mathematical content of a [`FamilyRecord`].
pub struct FamilyView {
    pub name: Seq<char>,
    pub primary_language: Option<Seq<char>>,
    pub primary_script: Option<Seq<char>>,
    pub fonts: Seq<FontView>,
}

impl View for FamilyRecord {
    type V = FamilyView;

    open spec fn view(&self) -> FamilyView {
        FamilyView {
            name: self.name@,
            primary_language: opt_str_view(self.primary_language),
            primary_script: opt_str_view(self.primary_script),
            fonts: self.fonts.deep_view(),
        }
    }
}

/// The shape of one line of record text.
pub enum LineShape {
    /// Only whitespace.
    Blank,
    /// A lone `}`.
    Close,
    /// `key {`, carrying the key.
    Open(Seq<char>),
    /// `key: value`, carrying the key and the raw value.
    Scalar(Seq<char>, Seq<char>),
    /// Anything else.
    Bad,
}

/// What shape a line has, after trimming: blank; a lone `}`; `key {`;
/// `key: value` split at the first colon; otherwise bad.
pub open spec fn classify_spec(line: Seq<char>) -> LineShape {
    let t = trim_spec(line);
    if t.len() == 0 {
        LineShape::Blank
    } else if t.len() == 1 && t[0] == '}' {
        LineShape::Close
    } else if t[t.len() - 1] == '{' {
        let key = trim_end_spec(t.subrange(0, t.len() - 1));
        if key.len() == 0 {
            LineShape::Bad
        } else {
            LineShape::Open(key)
        }
    } else {
        match find_from(t, 0, ':') {
            Some(j) => {
                let key = trim_end_spec(t.subrange(0, j));
                if key.len() == 0 {
                    LineShape::Bad
                } else {
                    LineShape::Scalar(key, trim_spec(t.subrange(j + 1, t.len() as int)))
                }
            },
            None => LineShape::Bad,
        }
    }
}

/// Executable line shapes, mirroring [`LineShape`].
enum LineToken {
    Blank,
    Close,
    Open(Vec<char>),
    Scalar(Vec<char>, Vec<char>),
    Bad,
}

impl View for LineToken {
    type V = LineShape;

    closed spec fn view(&self) -> LineShape {
        match self {
            LineToken::Blank => LineShape::Blank,
            LineToken::Close => LineShape::Close,
            LineToken::Open(k) => LineShape::Open(k@),
            LineToken::Scalar(k, v) => LineShape::Scalar(k@, v@),
            LineToken::Bad => LineShape::Bad,
        }
    }
}

/// Classifies one line of record text.
fn classify(line: &Vec<char>) -> (r: LineToken)
    ensures
        r@ == classify_spec(line@),
{
    let t = trim_both(line);
    let n = t.len();
    if n == 0 {
        LineToken::Blank
    } else if n == 1 && t[0] == '}' {
        LineToken::Close
    } else if t[n - 1] == '{' {
        let key = sub_chars_trim_end(&t, 0, n - 1);
        proof {
            assert(t@.subrange(0, n - 1) =~= t@.subrange(0, t@.len() - 1));
        }
        if key.len() == 0 {
            LineToken::Bad
        } else {
            LineToken::Open(key)
        }
    } else {
        match vec_find_from(&t, 0, ':') {
            Some(j) => {
                let key = sub_chars_trim_end(&t, 0, j);
                if key.len() == 0 {
                    LineToken::Bad
                } else {
                    let rest = sub_chars(&t, j + 1, n);
                    let value = trim_both(&rest);
                    LineToken::Scalar(key, value)
                }
            },
            None => LineToken::Bad,
        }
    }
}

/// The content between one pair of enclosing double quotes, when the value
/// is exactly one quoted string with no quote inside.
pub open spec fn quoted_content(v: Seq<char>) -> Option<Seq<char>> {
    if v.len() >= 2 && v[0] == '"' && find_from(v, 1, '"') == Some(v.len() - 1) {
        Some(v.subrange(1, v.len() - 1))
    } else {
        None
    }
}

/// Executable form of [`quoted_content`].
fn quoted(v: &Vec<char>) -> (r: Option<Vec<char>>)
    ensures
        match r {
            Some(c) => quoted_content(v@) == Some(c@),
            None => quoted_content(v@) is None,
        },
{
    if v.len() < 2 {
        return None;
    }
    if v[0] != '"' {
        return None;
    }
    match vec_find_from(v, 1, '"') {
        Some(q) => {
            if q == v.len() - 1 {
                Some(sub_chars(v, 1, q))
            } else {
                None
            }
        },
        None => None,
    }
}

/// Whether an integer token fits a 32-bit weight.
pub open spec fn weight_token_ok(v: Seq<char>) -> bool {
    is_int_token(v) && int_token_fits(v) && -2147483648 <= int_token_val(v) <= 2147483647
}

/// The family reader's state between lines.
pub struct FamilyAcc {
    pub name: Option<Seq<char>>,
    pub primary_language: Option<Seq<char>>,
    pub primary_script: Option<Seq<char>>,
    pub fonts: Seq<FontView>,
    /// The font being collected while inside a `fonts { ... }` block.
    pub font: Option<FontView>,
    /// How many skipped blocks are open around the current line.
    pub depth: int,
}

/// The family reader's state before any line.
pub open spec fn family_acc_init() -> FamilyAcc {
    FamilyAcc {
        name: None,
        primary_language: None,
        primary_script: None,
        fonts: Seq::empty(),
        font: None,
        depth: 0,
    }
}

/// `st` with its skip depth replaced.
pub open spec fn family_at_depth(st: FamilyAcc, depth: int) -> FamilyAcc {
    FamilyAcc {
        name: st.name,
        primary_language: st.primary_language,
        primary_script: st.primary_script,
        fonts: st.fonts,
        font: st.font,
        depth,
    }
}

/// How one line advances the family reader.
///
/// Inside a skipped block only openers and closers count. Otherwise the
/// reader captures `name`, `primary_language`, `primary_script` and
/// `fonts { ... }` blocks with their `filename`, `style` and `weight`;
/// every other field of the schema is skipped, as a scalar or as a whole
/// block. The undocumented `position` field is outside the schema and is
/// rejected wherever it is interpreted.
pub open spec fn family_step(st: FamilyAcc, line: Seq<char>) -> Result<FamilyAcc, ParseError> {
    let k = classify_spec(line);
    if st.depth > 0 {
        match k {
            LineShape::Open(_) => Ok(family_at_depth(st, st.depth + 1)),
            LineShape::Close => Ok(family_at_depth(st, st.depth - 1)),
            _ => Ok(st),
        }
    } else {
        match k {
            LineShape::Blank => Ok(st),
            LineShape::Close => match st.font {
                Some(f) => Ok(
                    FamilyAcc {
                        name: st.name,
                        primary_language: st.primary_language,
                        primary_script: st.primary_script,
                        fonts: st.fonts.push(f),
                        font: None,
                        depth: 0,
                    },
                ),
                None => Err(ParseError::Unbalanced),
            },
            LineShape::Open(key) => if key == "position"@ {
                Err(ParseError::UnknownField)
            } else if st.font is None && key == "fonts"@ {
                Ok(
                    FamilyAcc {
                        name: st.name,
                        primary_language: st.primary_language,
                        primary_script: st.primary_script,
                        fonts: st.fonts,
                        font: Some(
                            FontView { filename: Seq::empty(), style: Seq::empty(), weight: 0 },
                        ),
                        depth: 0,
                    },
                )
            } else {
                Ok(family_at_depth(st, 1))
            },
            LineShape::Scalar(key, value) => if key == "position"@ {
                Err(ParseError::UnknownField)
            } else {
                match st.font {
                    Some(f) => if key == "filename"@ {
                        match quoted_content(value) {
                            Some(q) => Ok(
                                FamilyAcc {
                                    name: st.name,
                                    primary_language: st.primary_language,
                                    primary_script: st.primary_script,
                                    fonts: st.fonts,
                                    font: Some(
                                        FontView { filename: q, style: f.style, weight: f.weight },
                                    ),
                                    depth: 0,
                                },
                            ),
                            None => Err(ParseError::Malformed),
                        }
                    } else if key == "style"@ {
                        match quoted_content(value) {
                            Some(q) => Ok(
                                FamilyAcc {
                                    name: st.name,
                                    primary_language: st.primary_language,
                                    primary_script: st.primary_script,
                                    fonts: st.fonts,
                                    font: Some(
                                        FontView {
                                            filename: f.filename,
                                            style: q,
                                            weight: f.weight,
                                        },
                                    ),
                                    depth: 0,
                                },
                            ),
                            None => Err(ParseError::Malformed),
                        }
                    } else if key == "weight"@ {
                        if weight_token_ok(value) {
                            Ok(
                                FamilyAcc {
                                    name: st.name,
                                    primary_language: st.primary_language,
                                    primary_script: st.primary_script,
                                    fonts: st.fonts,
                                    font: Some(
                                        FontView {
                                            filename: f.filename,
                                            style: f.style,
                                            weight: int_token_val(value),
                                        },
                                    ),
                                    depth: 0,
                                },
                            )
                        } else {
                            Err(ParseError::BadNumber)
                        }
                    } else {
                        Ok(st)
                    },
                    None => if key == "name"@ {
                        match quoted_content(value) {
                            Some(q) => Ok(
                                FamilyAcc {
                                    name: Some(q),
                                    primary_language: st.primary_language,
                                    primary_script: st.primary_script,
                                    fonts: st.fonts,
                                    font: None,
                                    depth: 0,
                                },
                            ),
                            None => Err(ParseError::Malformed),
                        }
                    } else if key == "primary_language"@ {
                        match quoted_content(value) {
                            Some(q) => Ok(
                                FamilyAcc {
                                    name: st.name,
                                    primary_language: Some(q),
                                    primary_script: st.primary_script,
                                    fonts: st.fonts,
                                    font: None,
                                    depth: 0,
                                },
                            ),
                            None => Err(ParseError::Malformed),
                        }
                    } else if key == "primary_script"@ {
                        match quoted_content(value) {
                            Some(q) => Ok(
                                FamilyAcc {
                                    name: st.name,
                                    primary_language: st.primary_language,
                                    primary_script: Some(q),
                                    fonts: st.fonts,
                                    font: None,
                                    depth: 0,
                                },
                            ),
                            None => Err(ParseError::Malformed),
                        }
                    } else {
                        Ok(st)
                    },
                }
            },
            LineShape::Bad => Err(ParseError::Malformed),
        }
    }
}

/// What the family reader yields at the end of the text.
pub open spec fn family_finish(st: FamilyAcc) -> Result<FamilyView, ParseError> {
    if st.depth > 0 || st.font is Some {
        Err(ParseError::Unbalanced)
    } else {
        match st.name {
            None => Err(ParseError::MissingName),
            Some(nm) => if nm.len() == 0 {
                Err(ParseError::MissingName)
            } else {
                Ok(
                    FamilyView {
                        name: nm,
                        primary_language: st.primary_language,
                        primary_script: st.primary_script,
                        fonts: st.fonts,
                    },
                )
            },
        }
    }
}

/// What reading the text from `pos` on yields, starting in state `st`:
/// lines are consumed one at a time up to the end of the text.
pub open spec fn family_parse_from(s: Seq<char>, pos: int, st: FamilyAcc) -> Result<
    FamilyView,
    ParseError,
>
    decreases s.len() - pos,
    via family_parse_from_decreases
{
    if pos >= s.len() || pos < 0 {
        family_finish(st)
    } else {
        let e = match find_from(s, pos, '\n') {
            Some(k) => k,
            None => s.len() as int,
        };
        let nxt = if e + 1 > s.len() {
            s.len() as int
        } else {
            e + 1
        };
        match family_step(st, s.subrange(pos, e)) {
            Err(x) => Err(x),
            Ok(st2) => family_parse_from(s, nxt, st2),
        }
    }
}

#[via_fn]
proof fn family_parse_from_decreases(s: Seq<char>, pos: int, st: FamilyAcc) {
    if 0 <= pos < s.len() {
        lemma_find_from(s, pos, '\n');
    }
}

/// What reading a whole family record text yields.
pub open spec fn family_parse_spec(s: Seq<char>) -> Result<FamilyView, ParseError> {
    family_parse_from(s, 0, family_acc_init())
}

/// The word whose blocks [`read_family`] strips before reading.
pub open spec fn position_word() -> Seq<char> {
    seq!['p', 'o', 's', 'i', 't', 'i', 'o', 'n']
}

/// Whether the text contains the word `position` anywhere.
pub open spec fn has_position(s: Seq<char>) -> bool {
    exists|i: int| 0 <= i && i + 8 <= s.len() && (#[trigger] s.subrange(i, i + 8)) == position_word()
}

/// Executable test for [`has_position`].
fn contains_position(v: &Vec<char>) -> (r: bool)
    ensures
        r == has_position(v@),
{
    let n = v.len();
    if n < 8 {
        proof {
            assert(!has_position(v@));
        }
        return false;
    }
    let mut i: usize = 0;
    while i <= n - 8
        invariant
            8 <= n == v@.len(),
            0 <= i,
            i <= n - 8 + 1,
            forall|k: int| 0 <= k < i ==> (#[trigger] v@.subrange(k, k + 8)) != position_word(),
        decreases n - i,
    {
        if v[i] == 'p' && v[i + 1] == 'o' && v[i + 2] == 's' && v[i + 3] == 'i' && v[i + 4] == 't'
            && v[i + 5] == 'i' && v[i + 6] == 'o' && v[i + 7] == 'n' {
            proof {
                assert(v@.subrange(i as int, i + 8) =~= position_word());
            }
            return true;
        }
        proof {
            let w = v@.subrange(i as int, i + 8);
            if w == position_word() {
                assert(w[0] == 'p' && w[1] == 'o' && w[2] == 's' && w[3] == 'i' && w[4] == 't'
                    && w[5] == 'i' && w[6] == 'o' && w[7] == 'n');
                assert(false);
            }
        }
        i = i + 1;
    }
    proof {
        assert forall|k: int| 0 <= k && k + 8 <= v@.len() implies (#[trigger] v@.subrange(k, k + 8))
            != position_word() by {
            assert(k < i);
        }
    }
    false
}

/// What remains of a text after the undocumented position blocks are
/// stripped out; a function of the text alone.
pub uninterp spec fn strip_position_of(s: Seq<char>) -> Seq<char>;

/// Relies on `regex::Regex::replace_all` with the fixed, valid pattern
/// `(?m)position\s+\{[^}]*\}`: removes every block of that shape from the
/// text; the result is a function of the text alone.
#[verifier::external_body]
fn strip_position_blocks(s: &str) -> (r: String)
    ensures
        r@ == strip_position_of(s@),
{
    let re = regex::Regex::new(r"(?m)position\s+\{[^}]*\}").expect("a valid pattern");
    re.replace_all(s, "").into_owned()
}

/// What [`read_family`] yields: the text is read as a family record, after
/// the undocumented position blocks are stripped when the word `position`
/// occurs anywhere in it.
pub open spec fn family_read_spec(s: Seq<char>) -> Result<FamilyView, ParseError> {
    if has_position(s) {
        family_parse_spec(strip_position_of(s))
    } else {
        family_parse_spec(s)
    }
}

/// The family reader's executable state between lines.
struct FamilyState {
    name: Option<String>,
    primary_language: Option<String>,
    primary_script: Option<String>,
    fonts: Vec<FontRecord>,
    font: Option<FontRecord>,
    depth: usize,
}

impl View for FamilyState {
    type V = FamilyAcc;

    closed spec fn view(&self) -> FamilyAcc {
        FamilyAcc {
            name: opt_str_view(self.name),
            primary_language: opt_str_view(self.primary_language),
            primary_script: opt_str_view(self.primary_script),
            fonts: self.fonts.deep_view(),
            font: match self.font {
                Some(f) => Some(f@),
                None => None,
            },
            depth: self.depth as int,
        }
    }
}

/// Executable form of [`family_step`].
fn family_step_exec(st: FamilyState, line: &Vec<char>) -> (r: Result<FamilyState, ParseError>)
    requires
        st.depth < usize::MAX,
    ensures
        match r {
            Ok(s2) => family_step(st@, line@) == Ok::<FamilyAcc, ParseError>(s2@) && s2.depth
                <= st.depth + 1,
            Err(e) => family_step(st@, line@) == Err::<FamilyAcc, ParseError>(e),
        },
{
    let FamilyState { name, primary_language, primary_script, fonts, font, depth } = st;
    let k = classify(line);
    if depth > 0 {
        return match k {
            LineToken::Open(_) => Ok(
                FamilyState {
                    name,
                    primary_language,
                    primary_script,
                    fonts,
                    font,
                    depth: depth + 1,
                },
            ),
            LineToken::Close => Ok(
                FamilyState {
                    name,
                    primary_language,
                    primary_script,
                    fonts,
                    font,
                    depth: depth - 1,
                },
            ),
            _ => Ok(FamilyState { name, primary_language, primary_script, fonts, font, depth }),
        };
    }
    match k {
        LineToken::Blank => Ok(
            FamilyState { name, primary_language, primary_script, fonts, font, depth: 0 },
        ),
        LineToken::Close => match font {
            Some(f) => {
                let mut fonts2 = fonts;
                fonts2.push(f);
                proof {
                    assert(fonts2.deep_view() =~= fonts.deep_view().push(f@));
                }
                Ok(
                    FamilyState {
                        name,
                        primary_language,
                        primary_script,
                        fonts: fonts2,
                        font: None,
                        depth: 0,
                    },
                )
            },
            None => Err(ParseError::Unbalanced),
        },
        LineToken::Open(key) => {
            if chars_eq_str(&key, "position") {
                Err(ParseError::UnknownField)
            } else if font.is_none() && chars_eq_str(&key, "fonts") {
                Ok(
                    FamilyState {
                        name,
                        primary_language,
                        primary_script,
                        fonts,
                        font: Some(
                            FontRecord {
                                filename: String::new(),
                                style: String::new(),
                                weight: 0,
                            },
                        ),
                        depth: 0,
                    },
                )
            } else {
                Ok(FamilyState { name, primary_language, primary_script, fonts, font, depth: 1 })
            }
        },
        LineToken::Scalar(key, value) => {
            if chars_eq_str(&key, "position") {
                return Err(ParseError::UnknownField);
            }
            match font {
                Some(f) => {
                    if chars_eq_str(&key, "filename") {
                        match quoted(&value) {
                            Some(q) => Ok(
                                FamilyState {
                                    name,
                                    primary_language,
                                    primary_script,
                                    fonts,
                                    font: Some(
                                        FontRecord {
                                            filename: string_from_chars(&q),
                                            style: f.style,
                                            weight: f.weight,
                                        },
                                    ),
                                    depth: 0,
                                },
                            ),
                            None => Err(ParseError::Malformed),
                        }
                    } else if chars_eq_str(&key, "style") {
                        match quoted(&value) {
                            Some(q) => Ok(
                                FamilyState {
                                    name,
                                    primary_language,
                                    primary_script,
                                    fonts,
                                    font: Some(
                                        FontRecord {
                                            filename: f.filename,
                                            style: string_from_chars(&q),
                                            weight: f.weight,
                                        },
                                    ),
                                    depth: 0,
                                },
                            ),
                            None => Err(ParseError::Malformed),
                        }
                    } else if chars_eq_str(&key, "weight") {
                        match parse_int_chars(&value) {
                            Some(x) => {
                                if -2147483648 <= x && x <= 2147483647 {
                                    Ok(
                                        FamilyState {
                                            name,
                                            primary_language,
                                            primary_script,
                                            fonts,
                                            font: Some(
                                                FontRecord {
                                                    filename: f.filename,
                                                    style: f.style,
                                                    weight: x as i32,
                                                },
                                            ),
                                            depth: 0,
                                        },
                                    )
                                } else {
                                    Err(ParseError::BadNumber)
                                }
                            },
                            None => Err(ParseError::BadNumber),
                        }
                    } else {
                        Ok(
                            FamilyState {
                                name,
                                primary_language,
                                primary_script,
                                fonts,
                                font: Some(f),
                                depth: 0,
                            },
                        )
                    }
                },
                None => {
                    if chars_eq_str(&key, "name") {
                        match quoted(&value) {
                            Some(q) => Ok(
                                FamilyState {
                                    name: Some(string_from_chars(&q)),
                                    primary_language,
                                    primary_script,
                                    fonts,
                                    font: None,
                                    depth: 0,
                                },
                            ),
                            None => Err(ParseError::Malformed),
                        }
                    } else if chars_eq_str(&key, "primary_language") {
                        match quoted(&value) {
                            Some(q) => Ok(
                                FamilyState {
                                    name,
                                    primary_language: Some(string_from_chars(&q)),
                                    primary_script,
                                    fonts,
                                    font: None,
                                    depth: 0,
                                },
                            ),
                            None => Err(ParseError::Malformed),
                        }
                    } else if chars_eq_str(&key, "primary_script") {
                        match quoted(&value) {
                            Some(q) => Ok(
                                FamilyState {
                                    name,
                                    primary_language,
                                    primary_script: Some(string_from_chars(&q)),
                                    fonts,
                                    font: None,
                                    depth: 0,
                                },
                            ),
                            None => Err(ParseError::Malformed),
                        }
                    } else {
                        Ok(
                            FamilyState {
                                name,
                                primary_language,
                                primary_script,
                                fonts,
                                font: None,
                                depth: 0,
                            },
                        )
                    }
                },
            }
        },
        LineToken::Bad => Err(ParseError::Malformed),
    }
}

/// Reads a whole family record from its characters.
fn parse_family_core(cs: &Vec<char>) -> (r: Result<FamilyRecord, ParseError>)
    ensures
        match r {
            Ok(f) => family_parse_spec(cs@) == Ok::<FamilyView, ParseError>(f@),
            Err(e) => family_parse_spec(cs@) == Err::<FamilyView, ParseError>(e),
        },
{
    let n = cs.len();
    let mut st = FamilyState {
        name: None,
        primary_language: None,
        primary_script: None,
        fonts: Vec::new(),
        font: None,
        depth: 0,
    };
    proof {
        assert(st@.fonts =~= family_acc_init().fonts);
        assert(st@ == family_acc_init());
    }
    let mut pos: usize = 0;
    while pos < n
        invariant
            pos <= n == cs@.len(),
            st.depth <= pos,
            family_parse_from(cs@, 0, family_acc_init()) == family_parse_from(
                cs@,
                pos as int,
                st@,
            ),
        decreases n - pos,
    {
        let ghost st0 = st@;
        let ghost pos0 = pos as int;
        let e: usize;
        let nxt: usize;
        match vec_find_from(cs, pos, '\n') {
            Some(k) => {
                e = k;
                nxt = k + 1;
            },
            None => {
                e = n;
                nxt = n;
            },
        }
        let line = sub_chars(cs, pos, e);
        match family_step_exec(st, &line) {
            Err(x) => {
                proof {
                    assert(family_parse_from(cs@, pos0, st0) == Err::<FamilyView, ParseError>(x));
                }
                return Err(x);
            },
            Ok(st2) => {
                st = st2;
                proof {
                    assert(family_parse_from(cs@, pos0, st0) == family_parse_from(
                        cs@,
                        nxt as int,
                        st@,
                    ));
                }
            },
        }
        pos = nxt;
    }
    if st.depth > 0 || st.font.is_some() {
        return Err(ParseError::Unbalanced);
    }
    match st.name {
        None => Err(ParseError::MissingName),
        Some(nm) => {
            if nm.as_str().unicode_len() == 0 {
                Err(ParseError::MissingName)
            } else {
                Ok(
                    FamilyRecord {
                        name: nm,
                        primary_language: st.primary_language,
                        primary_script: st.primary_script,
                        fonts: st.fonts,
                    },
                )
            }
        },
    }
}

/// Reads a family record from the text of a family metadata file.
///
/// When the text mentions the word `position` anywhere, every undocumented
/// `position { ... }` block is first stripped out; the remaining text must
/// read as a family record with a non-empty name. Fields of the schema the
/// library does not work with are skipped.
pub fn read_family(s: &str) -> (r: Result<FamilyRecord, ParseError>)
    ensures
        match r {
            Ok(f) => family_read_spec(s@) == Ok::<FamilyView, ParseError>(f@),
            Err(e) => family_read_spec(s@) == Err::<FamilyView, ParseError>(e),
        },
{
    let cs = chars_of(s);
    if contains_position(&cs) {
        let stripped = strip_position_blocks(s);
        let cs2 = chars_of(stripped.as_str());
        parse_family_core(&cs2)
    } else {
        parse_family_core(&cs)
    }
}

/// The language reader's state between lines.
pub struct LanguageAcc {
    pub id: Option<Seq<char>>,
    pub script: Option<Seq<char>>,
    pub population: Option<int>,
    /// How many skipped blocks are open around the current line.
    pub depth: int,
}

/// The language reader's state before any line.
pub open spec fn language_acc_init() -> LanguageAcc {
    LanguageAcc { id: None, script: None, population: None, depth: 0 }
}

/// Whether the language schema lists `key` as a scalar field the library
/// does not read: `language`, `name`, `preferred_name`, `autonym`,
/// `historical`, `note`, and the repeated `region` and `source`.
pub open spec fn language_skipped_scalar(key: Seq<char>) -> bool {
    ||| key == "language"@
    ||| key == "name"@
    ||| key == "preferred_name"@
    ||| key == "autonym"@
    ||| key == "historical"@
    ||| key == "note"@
    ||| key == "region"@
    ||| key == "source"@
}

/// Whether the language schema lists `key` as a message field, skipped as a
/// whole block: `exemplar_chars` and `sample_text`.
pub open spec fn language_skipped_block(key: Seq<char>) -> bool {
    key == "exemplar_chars"@ || key == "sample_text"@
}

/// How one line advances the language reader.
///
/// Inside a skipped block only openers and closers count. At the top level
/// the `id`, `script` and `population` fields are captured, the other
/// fields of the language schema are skipped by name, and a field the
/// schema does not list is rejected.
pub open spec fn language_step(st: LanguageAcc, line: Seq<char>) -> Result<
    LanguageAcc,
    ParseError,
> {
    match classify_spec(line) {
        LineShape::Blank => Ok(st),
        LineShape::Close => if st.depth > 0 {
            Ok(
                LanguageAcc {
                    id: st.id,
                    script: st.script,
                    population: st.population,
                    depth: st.depth - 1,
                },
            )
        } else {
            Err(ParseError::Unbalanced)
        },
        LineShape::Open(key) => if st.depth > 0 {
            Ok(
                LanguageAcc {
                    id: st.id,
                    script: st.script,
                    population: st.population,
                    depth: st.depth + 1,
                },
            )
        } else if language_skipped_block(key) {
            Ok(LanguageAcc { id: st.id, script: st.script, population: st.population, depth: 1 })
        } else {
            Err(ParseError::UnknownField)
        },
        LineShape::Scalar(key, value) => if st.depth > 0 {
            Ok(st)
        } else if key == "id"@ {
            match quoted_content(value) {
                Some(q) => Ok(
                    LanguageAcc {
                        id: Some(q),
                        script: st.script,
                        population: st.population,
                        depth: 0,
                    },
                ),
                None => Err(ParseError::Malformed),
            }
        } else if key == "script"@ {
            match quoted_content(value) {
                Some(q) => Ok(
                    LanguageAcc { id: st.id, script: Some(q), population: st.population, depth: 0 },
                ),
                None => Err(ParseError::Malformed),
            }
        } else if key == "population"@ {
            if is_int_token(value) && int_token_fits(value) {
                Ok(
                    LanguageAcc {
                        id: st.id,
                        script: st.script,
                        population: Some(int_token_val(value)),
                        depth: 0,
                    },
                )
            } else {
                Err(ParseError::BadNumber)
            }
        } else if language_skipped_scalar(key) {
            Ok(st)
        } else {
            Err(ParseError::UnknownField)
        },
        LineShape::Bad => if st.depth > 0 {
            Ok(st)
        } else {
            Err(ParseError::Malformed)
        },
    }
}

/// What the language reader yields at the end of the text.
pub open spec fn language_finish(st: LanguageAcc) -> Result<LanguageView, ParseError> {
    if st.depth > 0 {
        Err(ParseError::Unbalanced)
    } else {
        match st.id {
            None => Err(ParseError::MissingName),
            Some(id) => if id.len() == 0 {
                Err(ParseError::MissingName)
            } else {
                Ok(
                    LanguageView {
                        id,
                        script: st.script,
                        population: match st.population {
                            Some(p) => p,
                            None => 0,
                        },
                    },
                )
            },
        }
    }
}

/// What reading the text from `pos` on yields, starting in state `st`.
pub open spec fn language_parse_from(s: Seq<char>, pos: int, st: LanguageAcc) -> Result<
    LanguageView,
    ParseError,
>
    decreases s.len() - pos,
    via language_parse_from_decreases
{
    if pos >= s.len() || pos < 0 {
        language_finish(st)
    } else {
        let e = match find_from(s, pos, '\n') {
            Some(k) => k,
            None => s.len() as int,
        };
        let nxt = if e + 1 > s.len() {
            s.len() as int
        } else {
            e + 1
        };
        match language_step(st, s.subrange(pos, e)) {
            Err(x) => Err(x),
            Ok(st2) => language_parse_from(s, nxt, st2),
        }
    }
}

#[via_fn]
proof fn language_parse_from_decreases(s: Seq<char>, pos: int, st: LanguageAcc) {
    if 0 <= pos < s.len() {
        lemma_find_from(s, pos, '\n');
    }
}

/// What reading a whole language record text yields.
pub open spec fn language_parse_spec(s: Seq<char>) -> Result<LanguageView, ParseError> {
    language_parse_from(s, 0, language_acc_init())
}

/// The language reader's executable state between lines.
struct LanguageState {
    id: Option<String>,
    script: Option<String>,
    population: Option<i64>,
    depth: usize,
}

impl View for LanguageState {
    type V = LanguageAcc;

    closed spec fn view(&self) -> LanguageAcc {
        LanguageAcc {
            id: opt_str_view(self.id),
            script: opt_str_view(self.script),
            population: match self.population {
                Some(p) => Some(p as int),
                None => None,
            },
            depth: self.depth as int,
        }
    }
}

/// Executable test for [`language_skipped_scalar`].
fn is_language_skipped_scalar(key: &Vec<char>) -> (r: bool)
    ensures
        r == language_skipped_scalar(key@),
{
    chars_eq_str(key, "language") || chars_eq_str(key, "name") || chars_eq_str(
        key,
        "preferred_name",
    ) || chars_eq_str(key, "autonym") || chars_eq_str(key, "historical") || chars_eq_str(
        key,
        "note",
    ) || chars_eq_str(key, "region") || chars_eq_str(key, "source")
}

/// Executable form of [`language_step`].
fn language_step_exec(st: LanguageState, line: &Vec<char>) -> (r: Result<
    LanguageState,
    ParseError,
>)
    requires
        st.depth < usize::MAX,
    ensures
        match r {
            Ok(s2) => language_step(st@, line@) == Ok::<LanguageAcc, ParseError>(s2@) && s2.depth
                <= st.depth + 1,
            Err(e) => language_step(st@, line@) == Err::<LanguageAcc, ParseError>(e),
        },
{
    let LanguageState { id, script, population, depth } = st;
    match classify(line) {
        LineToken::Blank => Ok(LanguageState { id, script, population, depth }),
        LineToken::Close => {
            if depth > 0 {
                Ok(LanguageState { id, script, population, depth: depth - 1 })
            } else {
                Err(ParseError::Unbalanced)
            }
        },
        LineToken::Open(key) => {
            if depth > 0 {
                Ok(LanguageState { id, script, population, depth: depth + 1 })
            } else if chars_eq_str(&key, "exemplar_chars") || chars_eq_str(&key, "sample_text") {
                Ok(LanguageState { id, script, population, depth: 1 })
            } else {
                Err(ParseError::UnknownField)
            }
        },
        LineToken::Scalar(key, value) => {
            if depth > 0 {
                Ok(LanguageState { id, script, population, depth })
            } else if chars_eq_str(&key, "id") {
                match quoted(&value) {
                    Some(q) => Ok(
                        LanguageState {
                            id: Some(string_from_chars(&q)),
                            script,
                            population,
                            depth: 0,
                        },
                    ),
                    None => Err(ParseError::Malformed),
                }
            } else if chars_eq_str(&key, "script") {
                match quoted(&value) {
                    Some(q) => Ok(
                        LanguageState {
                            id,
                            script: Some(string_from_chars(&q)),
                            population,
                            depth: 0,
                        },
                    ),
                    None => Err(ParseError::Malformed),
                }
            } else if chars_eq_str(&key, "population") {
                match parse_int_chars(&value) {
                    Some(x) => Ok(LanguageState { id, script, population: Some(x), depth: 0 }),
                    None => Err(ParseError::BadNumber),
                }
            } else if is_language_skipped_scalar(&key) {
                Ok(LanguageState { id, script, population, depth })
            } else {
                Err(ParseError::UnknownField)
            }
        },
        LineToken::Bad => {
            if depth > 0 {
                Ok(LanguageState { id, script, population, depth })
            } else {
                Err(ParseError::Malformed)
            }
        },
    }
}

/// Reads a language record from the text of a language knowledge-base file.
///
/// The record must declare a non-empty `id`; a missing `population` counts
/// as zero; the language schema's other fields are skipped by name, and a
/// field the schema does not list is rejected.
pub fn read_language(s: &str) -> (r: Result<LanguageRecord, ParseError>)
    ensures
        match r {
            Ok(l) => language_parse_spec(s@) == Ok::<LanguageView, ParseError>(l@),
            Err(e) => language_parse_spec(s@) == Err::<LanguageView, ParseError>(e),
        },
{
    let cs = chars_of(s);
    let n = cs.len();
    let mut st = LanguageState { id: None, script: None, population: None, depth: 0 };
    proof {
        assert(st@ == language_acc_init());
    }
    let mut pos: usize = 0;
    while pos < n
        invariant
            pos <= n == cs@.len(),
            cs@ == s@,
            st.depth <= pos,
            language_parse_from(cs@, 0, language_acc_init()) == language_parse_from(
                cs@,
                pos as int,
                st@,
            ),
        decreases n - pos,
    {
        let ghost st0 = st@;
        let ghost pos0 = pos as int;
        let e: usize;
        let nxt: usize;
        match vec_find_from(&cs, pos, '\n') {
            Some(k) => {
                e = k;
                nxt = k + 1;
            },
            None => {
                e = n;
                nxt = n;
            },
        }
        let line = sub_chars(&cs, pos, e);
        match language_step_exec(st, &line) {
            Err(x) => {
                proof {
                    assert(language_parse_from(cs@, pos0, st0) == Err::<LanguageView, ParseError>(
                        x,
                    ));
                }
                return Err(x);
            },
            Ok(st2) => {
                st = st2;
                proof {
                    assert(language_parse_from(cs@, pos0, st0) == language_parse_from(
                        cs@,
                        nxt as int,
                        st@,
                    ));
                }
            },
        }
        pos = nxt;
    }
    if st.depth > 0 {
        return Err(ParseError::Unbalanced);
    }
    match st.id {
        None => Err(ParseError::MissingName),
        Some(id) => {
            if id.as_str().unicode_len() == 0 {
                Err(ParseError::MissingName)
            } else {
                Ok(
                    LanguageRecord {
                        id,
                        script: st.script,
                        population: match st.population {
                            Some(p) => p,
                            None => 0,
                        },
                    },
                )
            }
        },
    }
}

} // verus!
