use gf_metadata::{exemplar, exemplar_score, select_font, FamilyRecord, FontRecord, FontStyle};

fn font(filename: &str, style: &str, weight: i32) -> FontRecord {
    FontRecord { filename: filename.to_string(), style: style.to_string(), weight }
}

fn family(fonts: Vec<FontRecord>) -> FamilyRecord {
    FamilyRecord {
        name: "Test".to_string(),
        primary_language: None,
        primary_script: None,
        fonts,
    }
}

#[test]
fn score_style_match() {
    let f = font("A-Regular.ttf", "normal", 400);
    assert_eq!(exemplar_score(&f, FontStyle::Normal, 400), 16);
    assert_eq!(exemplar_score(&f, FontStyle::Italic, 400), 0);
}

#[test]
fn score_distance_penalty() {
    let f = font("A-Thin.ttf", "normal", 100);
    // 16 for style, minus 3 for 300 weight distance, no heavier bonus.
    assert_eq!(exemplar_score(&f, FontStyle::Normal, 400), 13);
}

#[test]
fn score_heavier_bonus() {
    let lighter = font("A.ttf", "normal", 300);
    let heavier = font("A.ttf", "normal", 500);
    // Equidistant, but the heavier one gets the asymmetric +1.
    assert_eq!(exemplar_score(&lighter, FontStyle::Normal, 400), 15);
    assert_eq!(exemplar_score(&heavier, FontStyle::Normal, 400), 16);
}

#[test]
fn score_variable_marker() {
    let f = font("A[wght].ttf", "normal", 400);
    assert_eq!(exemplar_score(&f, FontStyle::Normal, 400), 18);
    let not_variable = font("A[wght?.ttf", "normal", 400);
    assert_eq!(exemplar_score(&not_variable, FontStyle::Normal, 400), 16);
}

#[test]
fn exemplar_empty_family() {
    assert!(exemplar(&family(vec![])).is_none());
    assert!(select_font(&family(vec![]), FontStyle::Italic, 700).is_none());
}

#[test]
fn exemplar_single_font() {
    let fam = family(vec![font("Only.ttf", "italic", 900)]);
    assert_eq!(exemplar(&fam).expect("a font").filename, "Only.ttf");
}

#[test]
fn exemplar_prefers_variable() {
    let fam = family(vec![
        font("A-Regular.ttf", "normal", 400),
        font("A[wdth,wght].ttf", "normal", 400),
        font("A-Italic.ttf", "italic", 400),
    ]);
    assert_eq!(exemplar(&fam).expect("a font").filename, "A[wdth,wght].ttf");
}

#[test]
fn exemplar_first_wins_ties() {
    let fam = family(vec![
        font("First.ttf", "normal", 400),
        font("Second.ttf", "normal", 400),
    ]);
    assert_eq!(exemplar(&fam).expect("a font").filename, "First.ttf");
}

#[test]
fn select_prefers_requested_style() {
    let fam = family(vec![
        font("A-Regular.ttf", "normal", 400),
        font("A-Italic.ttf", "italic", 400),
    ]);
    let picked = select_font(&fam, FontStyle::Italic, 400).expect("a font");
    assert_eq!(picked.filename, "A-Italic.ttf");
}

#[test]
fn select_prefers_closest_weight() {
    let fam = family(vec![
        font("A-Thin.ttf", "normal", 100),
        font("A-Medium.ttf", "normal", 500),
        font("A-Black.ttf", "normal", 900),
    ]);
    let picked = select_font(&fam, FontStyle::Normal, 700).expect("a font");
    assert_eq!(picked.filename, "A-Black.ttf");
}

#[test]
fn style_strings() {
    assert_eq!(FontStyle::Normal.style(), "normal");
    assert_eq!(FontStyle::Italic.style(), "italic");
}
