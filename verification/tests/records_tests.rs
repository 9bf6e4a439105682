use gf_metadata::{read_family, read_language, ParseError};

const ROBOTO: &str = "name: \"Roboto\"\n\
designer: \"Christian Robertson\"\n\
license: \"OFL\"\n\
fonts {\n\
  filename: \"Roboto[wdth,wght].ttf\"\n\
  style: \"normal\"\n\
  weight: 400\n\
}\n";

#[test]
fn family_basic_fields() {
    let fam = read_family(ROBOTO).expect("To parse");
    assert_eq!(fam.name, "Roboto");
    assert!(fam.primary_language.is_none());
    assert!(fam.primary_script.is_none());
    assert_eq!(fam.fonts.len(), 1);
    assert_eq!(fam.fonts[0].filename, "Roboto[wdth,wght].ttf");
    assert_eq!(fam.fonts[0].style, "normal");
    assert_eq!(fam.fonts[0].weight, 400);
}

#[test]
fn family_several_fonts_in_order() {
    let text = "name: \"Lato\"\n\
fonts {\n  filename: \"Lato-Regular.ttf\"\n  style: \"normal\"\n  weight: 400\n}\n\
fonts {\n  filename: \"Lato-Italic.ttf\"\n  style: \"italic\"\n  weight: 400\n}\n";
    let fam = read_family(text).expect("To parse");
    assert_eq!(fam.fonts.len(), 2);
    assert_eq!(fam.fonts[0].filename, "Lato-Regular.ttf");
    assert_eq!(fam.fonts[1].style, "italic");
}

#[test]
fn family_primary_lang_script() {
    let text = "name: \"Kosugi Maru\"\n\
primary_script: \"Jpan\"\n\
primary_language: \"Invalid\"\n";
    let fam = read_family(text).expect("To parse");
    assert_eq!(fam.primary_script.as_deref(), Some("Jpan"));
    assert_eq!(fam.primary_language.as_deref(), Some("Invalid"));
}

#[test]
fn family_with_position_block_parses() {
    // The undocumented block would be rejected; stripping saves the text.
    let text = "name: \"Wix Madefor Text\"\n\
fonts {\n\
  filename: \"WixMadeforText[wght].ttf\"\n\
  style: \"normal\"\n\
  weight: 400\n\
  position {\n\
    x: 1\n\
    y: 2\n\
  }\n\
}\n";
    let fam = read_family(text).expect("To parse");
    assert_eq!(fam.name, "Wix Madefor Text");
    assert_eq!(fam.fonts.len(), 1);
    assert_eq!(fam.fonts[0].filename, "WixMadeforText[wght].ttf");
}

#[test]
fn family_unknown_blocks_are_skipped() {
    // Schema fields the library does not work with pass through unread.
    let text = "name: \"X\"\n\
axes {\n  tag: \"wght\"\n  min_value: 100.0\n}\n\
source {\n  repository_url: \"https://example.test\"\n  files {\n    a: \"b\"\n  }\n}\n\
fonts {\n  filename: \"X.ttf\"\n}\n";
    let fam = read_family(text).expect("To parse");
    assert_eq!(fam.name, "X");
    assert_eq!(fam.fonts.len(), 1);
}

#[test]
fn family_position_field_is_rejected() {
    // The one field outside the schema. Written without whitespace before
    // the brace the stripping pattern passes it by, so the reader's own
    // rejection shows - the failure that makes the stripping necessary.
    let block = "name: \"X\"\nfonts {\n  position{\n    x: 1\n  }\n}\n";
    assert!(matches!(read_family(block), Err(ParseError::UnknownField)));
    let scalar = "name: \"X\"\nposition: 5\n";
    assert!(matches!(read_family(scalar), Err(ParseError::UnknownField)));
}

#[test]
fn family_word_position_alone_is_harmless() {
    let text = "name: \"X\"\ndesigner: \"position expert\"\n";
    let fam = read_family(text).expect("To parse");
    assert_eq!(fam.name, "X");
}

#[test]
fn family_missing_name() {
    assert!(matches!(read_family("designer: \"A\"\n"), Err(ParseError::MissingName)));
    assert!(matches!(read_family("name: \"\"\n"), Err(ParseError::MissingName)));
}

#[test]
fn family_unbalanced_braces() {
    assert!(matches!(read_family("name: \"X\"\nfonts {\n"), Err(ParseError::Unbalanced)));
    assert!(matches!(read_family("name: \"X\"\n}\n"), Err(ParseError::Unbalanced)));
}

#[test]
fn family_bad_weight() {
    let text = "name: \"X\"\nfonts {\n  weight: heavy\n}\n";
    assert!(matches!(read_family(text), Err(ParseError::BadNumber)));
}

#[test]
fn family_malformed_line() {
    assert!(matches!(read_family("name: \"X\"\njust words\n"), Err(ParseError::Malformed)));
}

#[test]
fn family_unknown_scalars_ignored() {
    let text = "name: \"X\"\nsubsets: \"latin\"\ndate_added: \"2020-01-01\"\n";
    assert!(read_family(text).is_ok());
}

#[test]
fn family_unknown_font_sub_block_is_skipped() {
    let text = "name: \"X\"\nfonts {\n  filename: \"X.ttf\"\n  metadata {\n    a: 1\n  }\n  weight: 700\n}\n";
    let fam = read_family(text).expect("To parse");
    assert_eq!(fam.fonts.len(), 1);
    assert_eq!(fam.fonts[0].filename, "X.ttf");
    assert_eq!(fam.fonts[0].weight, 700);
}

#[test]
fn language_basic_fields() {
    let text = "id: \"xx_Test\"\nscript: \"Test\"\npopulation: 42\n";
    let lang = read_language(text).expect("To parse");
    assert_eq!(lang.id, "xx_Test");
    assert_eq!(lang.script.as_deref(), Some("Test"));
    assert_eq!(lang.population, 42);
}

#[test]
fn language_skips_unknown_blocks() {
    let text = "id: \"aa_Latn\"\nscript: \"Latn\"\n\
exemplar_chars {\n  base: \"a b c\"\n}\n\
sample_text {\n  masthead_full: \"abc\"\n}\n\
population: 7\n";
    let lang = read_language(text).expect("To parse");
    assert_eq!(lang.id, "aa_Latn");
    assert_eq!(lang.population, 7);
}

#[test]
fn language_defaults_population_to_zero() {
    let lang = read_language("id: \"ry_Test\"\n").expect("To parse");
    assert_eq!(lang.population, 0);
    assert!(lang.script.is_none());
}

#[test]
fn language_field_outside_the_schema_is_rejected() {
    assert!(matches!(read_language("id: \"a\"\nfoo: 1\n"), Err(ParseError::UnknownField)));
    assert!(matches!(
        read_language("id: \"a\"\nweird {\n  x: 1\n}\n"),
        Err(ParseError::UnknownField)
    ));
}

#[test]
fn language_schema_scalars_are_skipped() {
    let text = "id: \"aa\"\nlanguage: \"aa\"\nname: \"Afar\"\nregion: \"DJ\"\nregion: \"ER\"\nhistorical: true\npopulation: 3\n";
    let lang = read_language(text).expect("To parse");
    assert_eq!(lang.id, "aa");
    assert_eq!(lang.population, 3);
}

#[test]
fn language_errors() {
    assert!(matches!(read_language("script: \"Latn\"\n"), Err(ParseError::MissingName)));
    assert!(matches!(read_language("}\n"), Err(ParseError::Unbalanced)));
    assert!(matches!(
        read_language("id: \"a\"\npopulation: lots\n"),
        Err(ParseError::BadNumber)
    ));
}

#[test]
fn family_negative_weight() {
    let text = "name: \"X\"\nfonts {\n  filename: \"X.ttf\"\n  weight: -100\n}\n";
    let fam = read_family(text).expect("To parse");
    assert_eq!(fam.fonts[0].weight, -100);
}

#[test]
fn family_weight_out_of_range() {
    let too_big_for_weight = "name: \"X\"\nfonts {\n  weight: 3000000000\n}\n";
    assert!(matches!(read_family(too_big_for_weight), Err(ParseError::BadNumber)));
    let too_many_digits = "name: \"X\"\nfonts {\n  weight: 1000000000000000000\n}\n";
    assert!(matches!(read_family(too_many_digits), Err(ParseError::BadNumber)));
}

#[test]
fn language_large_population() {
    let lang = read_language("id: \"a\"\npopulation: 123456789012345678\n").expect("To parse");
    assert_eq!(lang.population, 123456789012345678);
}
