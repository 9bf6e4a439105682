//! Quality-tag entries and tag definitions parsed from CSV rows.

use vstd::prelude::*;

use crate::csv::{csv_values, tokenize_spec};
use crate::text::{chars_of, float_token, is_float_token};

verus! {

/// Why a tag row or a tag file could not be read.
#[derive(Clone, Copy, Debug, PartialEq, Eq, Structural)]
pub enum TagError {
    /// A double quote opened a field and never closed.
    UnterminatedQuote,
    /// A row held a number of fields the format does not allow.
    WrongFieldCount,
    /// A value field was not a numeric token.
    InvalidValue,
    /// The file itself could not be read.
    Io,
}

/// A tag entry for a family.
///
/// A tagging is an association of a family (and optionally a specific
/// designspace location within that family) with a tag and a numeric value
/// for that tag.
#[derive(Clone, Debug)]
pub struct Tagging {
    /// Font family name.
    pub family: String,
    /// Optional designspace location within the family, empty when absent.
    pub loc: String,
    /// Tag name.
    pub tag: String,
    /// Tag value, kept as the numeric token that appeared in the row.
    pub value: String,
}

/// The mathematical content of a [`Tagging`].
pub struct TagView {
    pub family: Seq<char>,
    pub loc: Seq<char>,
    pub tag: Seq<char>,
    pub value: Seq<char>,
}

impl View for Tagging {
    type V = TagView;

    open spec fn view(&self) -> TagView {
        TagView {
            family: self.family@,
            loc: self.loc@,
            tag: self.tag@,
            value: self.value@,
        }
    }
}

impl DeepView for Tagging {
    type V = TagView;

    open spec fn deep_view(&self) -> TagView {
        self.view()
    }
}

/// What parsing one tag row yields: three fields are (family, tag, value)
/// with an empty location, four are (family, location, tag, value); the value
/// must be a numeric token.
pub open spec fn tag_parse_spec(s: Seq<char>) -> Result<TagView, TagError> {
    match tokenize_spec(s) {
        None => Err(TagError::UnterminatedQuote),
        Some(f) => if f.len() == 3 {
            if is_float_token(f[2]) {
                Ok(TagView { family: f[0], loc: Seq::empty(), tag: f[1], value: f[2] })
            } else {
                Err(TagError::InvalidValue)
            }
        } else if f.len() == 4 {
            if is_float_token(f[3]) {
                Ok(TagView { family: f[0], loc: f[1], tag: f[2], value: f[3] })
            } else {
                Err(TagError::InvalidValue)
            }
        } else {
            Err(TagError::WrongFieldCount)
        },
    }
}

impl Tagging {
    /// Parses one CSV row into a tag entry.
    pub fn from_str(s: &str) -> (r: Result<Tagging, TagError>)
        ensures
            match r {
                Ok(t) => tag_parse_spec(s@) == Ok::<TagView, TagError>(t@),
                Err(e) => tag_parse_spec(s@) == Err::<TagView, TagError>(e),
            },
    {
        let vals = match csv_values(s) {
            None => {
                return Err(TagError::UnterminatedQuote);
            },
            Some(v) => v,
        };
        if vals.len() == 3 {
            let vc = chars_of(vals[2].as_str());
            if !float_token(&vc) {
                return Err(TagError::InvalidValue);
            }
            Ok(Tagging {
                family: vals[0].clone(),
                loc: String::new(),
                tag: vals[1].clone(),
                value: vals[2].clone(),
            })
        } else if vals.len() == 4 {
            let vc = chars_of(vals[3].as_str());
            if !float_token(&vc) {
                return Err(TagError::InvalidValue);
            }
            Ok(Tagging {
                family: vals[0].clone(),
                loc: vals[1].clone(),
                tag: vals[2].clone(),
                value: vals[3].clone(),
            })
        } else {
            Err(TagError::WrongFieldCount)
        }
    }
}

/// Metadata for a tag.
#[derive(Clone, Debug)]
pub struct TagMetadata {
    /// Tag name.
    pub tag: String,
    /// Minimum tag value, kept as the numeric token that appeared in the row.
    pub min_value: String,
    /// Maximum tag value, kept as the numeric token that appeared in the row.
    pub max_value: String,
    /// User friendly name for the tag.
    pub prompt_name: String,
}

/// The mathematical content of a [`TagMetadata`].
pub struct TagMetadataView {
    pub tag: Seq<char>,
    pub min_value: Seq<char>,
    pub max_value: Seq<char>,
    pub prompt_name: Seq<char>,
}

impl View for TagMetadata {
    type V = TagMetadataView;

    open spec fn view(&self) -> TagMetadataView {
        TagMetadataView {
            tag: self.tag@,
            min_value: self.min_value@,
            max_value: self.max_value@,
            prompt_name: self.prompt_name@,
        }
    }
}

impl DeepView for TagMetadata {
    type V = TagMetadataView;

    open spec fn deep_view(&self) -> TagMetadataView {
        self.view()
    }
}

/// What parsing one tag-definition row yields: exactly four fields
/// (tag, minimum, maximum, prompt name) with numeric minimum and maximum.
pub open spec fn tag_metadata_parse_spec(s: Seq<char>) -> Result<TagMetadataView, TagError> {
    match tokenize_spec(s) {
        None => Err(TagError::UnterminatedQuote),
        Some(f) => if f.len() == 4 {
            if is_float_token(f[1]) && is_float_token(f[2]) {
                Ok(TagMetadataView { tag: f[0], min_value: f[1], max_value: f[2], prompt_name: f[3] })
            } else {
                Err(TagError::InvalidValue)
            }
        } else {
            Err(TagError::WrongFieldCount)
        },
    }
}

impl TagMetadata {
    /// Parses one CSV row into a tag definition.
    pub fn from_str(s: &str) -> (r: Result<TagMetadata, TagError>)
        ensures
            match r {
                Ok(t) => tag_metadata_parse_spec(s@) == Ok::<TagMetadataView, TagError>(t@),
                Err(e) => tag_metadata_parse_spec(s@) == Err::<TagMetadataView, TagError>(e),
            },
    {
        let vals = match csv_values(s) {
            None => {
                return Err(TagError::UnterminatedQuote);
            },
            Some(v) => v,
        };
        if vals.len() == 4 {
            let minc = chars_of(vals[1].as_str());
            let maxc = chars_of(vals[2].as_str());
            if !(float_token(&minc) && float_token(&maxc)) {
                return Err(TagError::InvalidValue);
            }
            Ok(TagMetadata {
                tag: vals[0].clone(),
                min_value: vals[1].clone(),
                max_value: vals[2].clone(),
                prompt_name: vals[3].clone(),
            })
        } else {
            Err(TagError::WrongFieldCount)
        }
    }
}

/// What parsing the rows from `i` on yields: the entries in order, or the
/// first row error.
pub open spec fn tags_parse_from(lines: Seq<Seq<char>>, i: int) -> Result<Seq<TagView>, TagError>
    decreases lines.len() - i,
{
    if i >= lines.len() || i < 0 {
        Ok(Seq::empty())
    } else {
        match tag_parse_spec(lines[i]) {
            Err(e) => Err(e),
            Ok(t) => match tags_parse_from(lines, i + 1) {
                Err(e) => Err(e),
                Ok(rest) => Ok(seq![t] + rest),
            },
        }
    }
}

/// What parsing every row of a tag file set yields.
pub open spec fn read_tags_spec(lines: Seq<Seq<char>>) -> Result<Seq<TagView>, TagError> {
    tags_parse_from(lines, 0)
}

/// Parses the rows of the repository's tag files, in order.
///
/// A single bad row fails the whole read, as does an unterminated quote.
pub fn read_tags(lines: &Vec<String>) -> (r: Result<Vec<Tagging>, TagError>)
    ensures
        match r {
            Ok(v) => read_tags_spec(lines.deep_view()) == Ok::<Seq<TagView>, TagError>(
                v.deep_view(),
            ),
            Err(e) => read_tags_spec(lines.deep_view()) == Err::<Seq<TagView>, TagError>(e),
        },
{
    let ghost ls = lines.deep_view();
    let mut out: Vec<Tagging> = Vec::new();
    let mut i: usize = 0;
    while i < lines.len()
        invariant
            i <= lines@.len(),
            ls == lines.deep_view(),
            match tags_parse_from(ls, i as int) {
                Ok(rest) => tags_parse_from(ls, 0) == Ok::<Seq<TagView>, TagError>(
                    out.deep_view() + rest,
                ),
                Err(e) => tags_parse_from(ls, 0) == Err::<Seq<TagView>, TagError>(e),
            },
        decreases lines@.len() - i,
    {
        let ghost acc0 = out.deep_view();
        proof {
            assert(ls[i as int] == lines@[i as int]@);
        }
        match Tagging::from_str(lines[i].as_str()) {
            Err(e) => {
                return Err(e);
            },
            Ok(t) => {
                out.push(t);
                proof {
                    assert(out.deep_view() =~= acc0.push(t@));
                    match tags_parse_from(ls, i + 1) {
                        Ok(rest) => {
                            assert(acc0 + (seq![t@] + rest) =~= out.deep_view() + rest);
                        },
                        Err(_) => {},
                    }
                }
            },
        }
        i = i + 1;
    }
    proof {
        assert(out.deep_view() + Seq::<TagView>::empty() =~= out.deep_view());
    }
    Ok(out)
}

/// What parsing the tag-definition rows from `i` on yields.
pub open spec fn tag_metadata_parse_from(lines: Seq<Seq<char>>, i: int) -> Result<
    Seq<TagMetadataView>,
    TagError,
>
    decreases lines.len() - i,
{
    if i >= lines.len() || i < 0 {
        Ok(Seq::empty())
    } else {
        match tag_metadata_parse_spec(lines[i]) {
            Err(e) => Err(e),
            Ok(t) => match tag_metadata_parse_from(lines, i + 1) {
                Err(e) => Err(e),
                Ok(rest) => Ok(seq![t] + rest),
            },
        }
    }
}

/// What parsing every row of the tag-definition file yields.
pub open spec fn read_tag_metadata_spec(lines: Seq<Seq<char>>) -> Result<
    Seq<TagMetadataView>,
    TagError,
> {
    tag_metadata_parse_from(lines, 0)
}

/// Parses the rows of the repository's tag-definition file, in order.
///
/// A single bad row fails the whole read, as does an unterminated quote.
pub fn read_tag_metadata(lines: &Vec<String>) -> (r: Result<Vec<TagMetadata>, TagError>)
    ensures
        match r {
            Ok(v) => read_tag_metadata_spec(lines.deep_view()) == Ok::<
                Seq<TagMetadataView>,
                TagError,
            >(v.deep_view()),
            Err(e) => read_tag_metadata_spec(lines.deep_view()) == Err::<
                Seq<TagMetadataView>,
                TagError,
            >(e),
        },
{
    let ghost ls = lines.deep_view();
    let mut out: Vec<TagMetadata> = Vec::new();
    let mut i: usize = 0;
    while i < lines.len()
        invariant
            i <= lines@.len(),
            ls == lines.deep_view(),
            match tag_metadata_parse_from(ls, i as int) {
                Ok(rest) => tag_metadata_parse_from(ls, 0) == Ok::<Seq<TagMetadataView>, TagError>(
                    out.deep_view() + rest,
                ),
                Err(e) => tag_metadata_parse_from(ls, 0) == Err::<Seq<TagMetadataView>, TagError>(
                    e,
                ),
            },
        decreases lines@.len() - i,
    {
        let ghost acc0 = out.deep_view();
        proof {
            assert(ls[i as int] == lines@[i as int]@);
        }
        match TagMetadata::from_str(lines[i].as_str()) {
            Err(e) => {
                return Err(e);
            },
            Ok(t) => {
                out.push(t);
                proof {
                    assert(out.deep_view() =~= acc0.push(t@));
                    match tag_metadata_parse_from(ls, i + 1) {
                        Ok(rest) => {
                            assert(acc0 + (seq![t@] + rest) =~= out.deep_view() + rest);
                        },
                        Err(_) => {},
                    }
                }
            },
        }
        i = i + 1;
    }
    proof {
        assert(out.deep_view() + Seq::<TagMetadataView>::empty() =~= out.deep_view());
    }
    Ok(out)
}

} // verus!
