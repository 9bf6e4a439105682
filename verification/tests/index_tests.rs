use gf_metadata::{FamilyRecord, FontRecord, GoogleFonts, TagError};

const ROBOTO: &str = "name: \"Roboto\"\n\
fonts {\n  filename: \"Roboto[wdth,wght].ttf\"\n  style: \"normal\"\n  weight: 400\n}\n";

const LATO: &str = "name: \"Lato\"\n\
fonts {\n  filename: \"Lato-Regular.ttf\"\n  style: \"normal\"\n  weight: 400\n}\n";

fn repo_files() -> Vec<(String, String)> {
    vec![
        ("repo/roboto/METADATA.pb".to_string(), ROBOTO.to_string()),
        ("repo/lato/METADATA.pb".to_string(), LATO.to_string()),
        ("repo/broken/METADATA.pb".to_string(), "no name here\n".to_string()),
    ]
}

fn font(filename: &str) -> FontRecord {
    FontRecord { filename: filename.to_string(), style: "normal".to_string(), weight: 400 }
}

fn plain_family(primary_language: Option<&str>, primary_script: Option<&str>) -> FamilyRecord {
    FamilyRecord {
        name: "Test".to_string(),
        primary_language: primary_language.map(|s| s.to_string()),
        primary_script: primary_script.map(|s| s.to_string()),
        fonts: vec![],
    }
}

#[test]
fn families_keep_parse_failures() {
    let mut gf = GoogleFonts::new("repo".to_string(), None);
    assert!(!gf.has_families());
    gf.provide_family_files(repo_files());
    let fams = gf.families();
    assert_eq!(fams.len(), 3);
    assert!(fams[0].1.is_ok());
    assert!(fams[1].1.is_ok());
    assert!(fams[2].1.is_err());
    assert_eq!(fams[0].0, "repo/roboto/METADATA.pb");
}

#[test]
fn family_filter_keeps_matching_paths() {
    let mut gf = GoogleFonts::new("repo".to_string(), Some("roboto".to_string()));
    gf.provide_family_files(repo_files());
    let fams = gf.families();
    assert_eq!(fams.len(), 1);
    assert_eq!(fams[0].0, "repo/roboto/METADATA.pb");
}

#[test]
fn family_filter_that_does_not_compile_keeps_nothing() {
    let mut gf = GoogleFonts::new("repo".to_string(), Some("(".to_string()));
    gf.provide_family_files(repo_files());
    assert!(gf.families().is_empty());
}

#[test]
fn families_cache_is_write_once() {
    let mut gf = GoogleFonts::new("repo".to_string(), None);
    gf.provide_family_files(repo_files());
    let count = gf.families().len();
    // A second provide changes nothing, and repeated reads agree.
    gf.provide_family_files(vec![("other".to_string(), LATO.to_string())]);
    assert_eq!(gf.families().len(), count);
    assert_eq!(gf.families()[0].0, "repo/roboto/METADATA.pb");
}

#[test]
fn family_resolves_font_by_file_name() {
    let mut gf = GoogleFonts::new("repo".to_string(), None);
    gf.provide_family_files(repo_files());
    gf.build_font_index();
    let (path, fam) = gf.family(&font("Lato-Regular.ttf")).expect("resolves");
    assert_eq!(path.as_str(), "repo/lato/METADATA.pb");
    assert_eq!(fam.name, "Lato");
    assert!(gf.family(&font("Nowhere.ttf")).is_none());
}

#[test]
fn family_collision_last_write_wins() {
    let mut gf = GoogleFonts::new("repo".to_string(), None);
    gf.provide_family_files(vec![
        ("repo/a/METADATA.pb".to_string(), "name: \"A\"\nfonts {\n  filename: \"Same.ttf\"\n}\n".to_string()),
        ("repo/b/METADATA.pb".to_string(), "name: \"B\"\nfonts {\n  filename: \"Same.ttf\"\n}\n".to_string()),
    ]);
    gf.build_font_index();
    let (_, fam) = gf.family(&font("Same.ttf")).expect("resolves");
    assert_eq!(fam.name, "B");
}

#[test]
fn font_in_failed_family_is_unresolvable() {
    let mut gf = GoogleFonts::new("repo".to_string(), None);
    gf.provide_family_files(vec![(
        "repo/broken/METADATA.pb".to_string(),
        "fonts {\n  filename: \"Ghost.ttf\"\n}\n".to_string(),
    )]);
    gf.build_font_index();
    assert!(gf.family(&font("Ghost.ttf")).is_none());
}

#[test]
fn font_index_is_write_once() {
    let mut gf = GoogleFonts::new("repo".to_string(), None);
    gf.provide_family_files(repo_files());
    assert!(!gf.has_font_index());
    gf.build_font_index();
    assert!(gf.has_font_index());
    gf.build_font_index();
    let (path, _) = gf.family(&font("Roboto[wdth,wght].ttf")).expect("resolves");
    assert_eq!(path.as_str(), "repo/roboto/METADATA.pb");
}

#[test]
fn find_font_binary_present() {
    let mut gf = GoogleFonts::new("repo".to_string(), None);
    gf.provide_family_files(repo_files());
    gf.build_font_index();
    let p = gf.find_font_binary(&font("Roboto[wdth,wght].ttf"), true).expect("a path");
    assert_eq!(p, "repo/roboto/Roboto[wdth,wght].ttf");
}

#[test]
fn find_font_binary_missing_file_is_none_not_error() {
    let mut gf = GoogleFonts::new("repo".to_string(), None);
    gf.provide_family_files(repo_files());
    gf.build_font_index();
    // The family resolves, but the sibling file is absent from disk.
    assert!(gf.family(&font("Roboto[wdth,wght].ttf")).is_some());
    assert!(gf.find_font_binary(&font("Roboto[wdth,wght].ttf"), false).is_none());
}

#[test]
fn language_lookup() {
    let gf = GoogleFonts::new("repo".to_string(), None);
    let en = gf.language("en_Latn").expect("known id");
    assert_eq!(en.id, "en_Latn");
    assert!(en.population > 0);
    assert!(gf.language("zz_Nothing").is_none());
    assert!(!gf.languages().is_empty());
}

#[test]
fn primary_language_uses_declared_language() {
    let gf = GoogleFonts::new("repo".to_string(), None);
    let fam = plain_family(Some("en_Latn"), None);
    assert_eq!(gf.primary_language(&fam).id, "en_Latn");
}

#[test]
fn primary_language_falls_back_to_script() {
    let gf = GoogleFonts::new("repo".to_string(), None);
    // An invalid declared language, then the most populous Jpan entry.
    let fam = plain_family(Some("Invalid"), Some("Jpan"));
    let lang = gf.primary_language(&fam);
    assert_eq!(lang.script.as_deref(), Some("Jpan"));
    assert_eq!(lang.id, "ja_Jpan");
}

#[test]
fn primary_language_final_fallback() {
    let gf = GoogleFonts::new("repo".to_string(), None);
    let fam = plain_family(None, None);
    assert_eq!(gf.primary_language(&fam).id, "en_Latn");
    let unknown_script = plain_family(None, Some("Zzzz"));
    assert_eq!(gf.primary_language(&unknown_script).id, "en_Latn");
}

#[test]
fn tags_cache_and_errors() {
    let mut gf = GoogleFonts::new("repo".to_string(), None);
    assert!(!gf.has_tags());
    gf.provide_tag_lines(Some(vec!["Roboto, /quant/a, 1.5".to_string()]));
    assert!(gf.has_tags());
    let tags = gf.tags().expect("parsed");
    assert_eq!(tags.len(), 1);
    assert_eq!(tags[0].family, "Roboto");
    // Write-once: a second provide is ignored.
    gf.provide_tag_lines(Some(vec![]));
    assert_eq!(gf.tags().expect("parsed").len(), 1);
}

#[test]
fn tags_io_failure_is_cached() {
    let mut gf = GoogleFonts::new("repo".to_string(), None);
    gf.provide_tag_lines(None);
    assert!(matches!(gf.tags(), Err(TagError::Io)));
    gf.provide_tag_lines(Some(vec!["Roboto, /quant/a, 1.5".to_string()]));
    assert!(matches!(gf.tags(), Err(TagError::Io)));
}

#[test]
fn tag_metadata_cache() {
    let mut gf = GoogleFonts::new("repo".to_string(), None);
    assert!(!gf.has_tag_metadata());
    gf.provide_tag_metadata_lines(Some(vec!["/quant/a, 0, 1, first".to_string()]));
    assert!(gf.has_tag_metadata());
    let defs = gf.tag_metadata().expect("parsed");
    assert_eq!(defs.len(), 1);
    assert_eq!(defs[0].prompt_name, "first");
    gf.provide_tag_metadata_lines(None);
    assert!(gf.tag_metadata().is_ok());
}

#[test]
fn tag_metadata_bad_row_is_cached_error() {
    let mut gf = GoogleFonts::new("repo".to_string(), None);
    gf.provide_tag_metadata_lines(Some(vec!["broken".to_string()]));
    assert!(matches!(gf.tag_metadata(), Err(TagError::WrongFieldCount)));
}

#[test]
fn repo_dir_is_kept() {
    let gf = GoogleFonts::new("some/checkout".to_string(), None);
    assert_eq!(gf.repo_dir().as_str(), "some/checkout");
}

#[test]
fn iter_languages_contains_default() {
    let langs = gf_metadata::iter_languages();
    assert!(langs.iter().any(|l| l.id == "en_Latn"));
    assert!(langs.len() > 1000);
}

#[test]
fn find_font_binary_beside_bare_metadata_path() {
    let mut gf = GoogleFonts::new("repo".to_string(), None);
    gf.provide_family_files(vec![(
        "METADATA.pb".to_string(),
        "name: \"X\"\nfonts {\n  filename: \"X.ttf\"\n}\n".to_string(),
    )]);
    gf.build_font_index();
    let font = FontRecord { filename: "X.ttf".to_string(), style: String::new(), weight: 0 };
    assert_eq!(gf.find_font_binary(&font, true).expect("a path"), "X.ttf");
}
