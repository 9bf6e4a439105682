use gf_metadata::csv_values;
use gf_metadata::tags::TagError;
use gf_metadata::{TagMetadata, Tagging};

#[test]
fn parse_tag3() {
    Tagging::from_str("Roboto Slab, /quant/stroke_width_min, 26.31").expect("To parse");
}

#[test]
fn parse_tag4() {
    Tagging::from_str("Roboto Slab, wght@100, /quant/stroke_width_min, 26.31").expect("To parse");
}

#[test]
fn parse_tag_quoted() {
    Tagging::from_str("Georama, \"ital,wght@1,100\", /quant/stroke_width_min, 16.97")
        .expect("To parse");
}

#[test]
fn parse_tag_quoted2() {
    Tagging::from_str("\"\",t,1").expect("To parse");
}

#[test]
fn tokenize_quoted_empty_field() {
    let fields = csv_values("\"\",t,1").expect("tokenizes");
    assert_eq!(fields, vec!["".to_string(), "t".to_string(), "1".to_string()]);
}

#[test]
fn tokenize_quoted_field_with_commas() {
    let fields =
        csv_values("Georama, \"ital,wght@1,100\", /quant/stroke_width_min, 16.97").expect("tokenizes");
    assert_eq!(fields.len(), 4);
    assert_eq!(fields[0], "Georama");
    assert_eq!(fields[1], "ital,wght@1,100");
    assert_eq!(fields[2], "/quant/stroke_width_min");
    assert_eq!(fields[3], "16.97");
}

#[test]
fn tokenize_trims_unquoted_fields() {
    let fields = csv_values("  Roboto Slab ,  x  ").expect("tokenizes");
    assert_eq!(fields, vec!["Roboto Slab".to_string(), "x".to_string()]);
}

#[test]
fn tokenize_empty_line() {
    let fields = csv_values("").expect("tokenizes");
    assert!(fields.is_empty());
}

#[test]
fn tokenize_unterminated_quote() {
    assert!(csv_values("\"abc,1").is_none());
}

#[test]
fn tag3_fields() {
    let t = Tagging::from_str("Roboto Slab, /quant/stroke_width_min, 26.31").expect("To parse");
    assert_eq!(t.family, "Roboto Slab");
    assert_eq!(t.loc, "");
    assert_eq!(t.tag, "/quant/stroke_width_min");
    assert_eq!(t.value, "26.31");
}

#[test]
fn tag4_fields() {
    let t =
        Tagging::from_str("Roboto Slab, wght@100, /quant/stroke_width_min, 26.31").expect("To parse");
    assert_eq!(t.family, "Roboto Slab");
    assert_eq!(t.loc, "wght@100");
    assert_eq!(t.tag, "/quant/stroke_width_min");
    assert_eq!(t.value, "26.31");
}

#[test]
fn tag_wrong_field_count() {
    assert!(matches!(Tagging::from_str("a,b"), Err(TagError::WrongFieldCount)));
    assert!(matches!(Tagging::from_str("a,b,c,d,e"), Err(TagError::WrongFieldCount)));
}

#[test]
fn tag_invalid_value() {
    assert!(matches!(Tagging::from_str("a, t, abc"), Err(TagError::InvalidValue)));
    assert!(matches!(Tagging::from_str("a, t, 1e"), Err(TagError::InvalidValue)));
    assert!(matches!(Tagging::from_str("a, t, ."), Err(TagError::InvalidValue)));
}

#[test]
fn tag_unterminated_quote_error() {
    assert!(matches!(Tagging::from_str("\"abc"), Err(TagError::UnterminatedQuote)));
}

#[test]
fn tag_numeric_token_shapes() {
    assert!(Tagging::from_str("a, t, 1e5").is_ok());
    assert!(Tagging::from_str("a, t, -0.5").is_ok());
    assert!(Tagging::from_str("a, t, +3.14").is_ok());
    assert!(Tagging::from_str("a, t, .5").is_ok());
    assert!(Tagging::from_str("a, t, 1.").is_ok());
    assert!(Tagging::from_str("a, t, 2E-3").is_ok());
    assert!(Tagging::from_str("a, t, inf").is_ok());
    assert!(Tagging::from_str("a, t, -Infinity").is_ok());
    assert!(Tagging::from_str("a, t, NaN").is_ok());
    assert!(Tagging::from_str("a, t, infx").is_err());
}

#[test]
fn tag_metadata_fields() {
    let m = TagMetadata::from_str("/quant/stroke_width_min, 0, 100, stroke width")
        .expect("To parse");
    assert_eq!(m.tag, "/quant/stroke_width_min");
    assert_eq!(m.min_value, "0");
    assert_eq!(m.max_value, "100");
    assert_eq!(m.prompt_name, "stroke width");
}

#[test]
fn tag_metadata_errors() {
    assert!(matches!(TagMetadata::from_str("a,b,c"), Err(TagError::WrongFieldCount)));
    assert!(matches!(TagMetadata::from_str("a, x, 1, p"), Err(TagError::InvalidValue)));
    assert!(matches!(TagMetadata::from_str("a, 1, x, p"), Err(TagError::InvalidValue)));
}

#[test]
fn read_tags_all_rows() {
    let lines = vec![
        "Roboto, /quant/a, 1.5".to_string(),
        "Lato, wght@700, /quant/b, 2".to_string(),
    ];
    let tags = gf_metadata::read_tags(&lines).expect("To parse");
    assert_eq!(tags.len(), 2);
    assert_eq!(tags[0].family, "Roboto");
    assert_eq!(tags[1].loc, "wght@700");
}

#[test]
fn read_tags_one_bad_row_fails_the_file() {
    let lines = vec!["Roboto, /quant/a, 1.5".to_string(), "broken".to_string()];
    assert!(matches!(gf_metadata::read_tags(&lines), Err(TagError::WrongFieldCount)));
}

#[test]
fn read_tag_metadata_rows() {
    let lines = vec![
        "/quant/a, 0, 1, first".to_string(),
        "/quant/b, -1, 1, second".to_string(),
    ];
    let defs = gf_metadata::read_tag_metadata(&lines).expect("To parse");
    assert_eq!(defs.len(), 2);
    assert_eq!(defs[1].min_value, "-1");
}

#[test]
fn read_tag_metadata_bad_row_fails_the_file() {
    let lines = vec!["/quant/a, 0, 1, first".to_string(), "a, b".to_string()];
    assert!(gf_metadata::read_tag_metadata(&lines).is_err());
}

#[test]
fn tokenize_trailing_separator() {
    // A trailing comma ends the line: no empty final field follows it.
    assert_eq!(csv_values("a,").expect("tokenizes"), vec!["a".to_string()]);
    // Trailing whitespace after the comma is one more, empty, field.
    assert_eq!(csv_values("a, ").expect("tokenizes"), vec!["a".to_string(), "".to_string()]);
}
