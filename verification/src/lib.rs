//! A read-only accessor layer over a font-foundry metadata repository.
//!
//! The crate discovers, parses, caches and cross-references per-family
//! metadata records, a bundled language knowledge base, and CSV-encoded
//! quality tags, so that callers can ask which font file best represents a
//! family, which language sample text should use, and which quality tags a
//! family carries. All filesystem work stays with the caller: the index is
//! handed file contents and serves every later query from its write-once
//! caches.

pub mod csv;
pub mod fonts;
pub mod index;
pub mod langs;
pub mod records;
pub mod tags;
pub mod text;

pub use csv::csv_values;
pub use fonts::{exemplar, exemplar_score, select_font, FontStyle};
pub use index::GoogleFonts;
pub use langs::{iter_languages, LanguageRecord};
pub use records::{read_family, read_language, FamilyRecord, FontRecord, ParseError};
pub use tags::{read_tag_metadata, read_tags, TagError, TagMetadata, Tagging};
