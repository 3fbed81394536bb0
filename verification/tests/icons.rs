use mado::{unique_variant_name, variant_name, StringSet};

#[test]
fn creates_pascal_case_variant_names() {
    assert_eq!(
        variant_name("align-center-horizontal"),
        "AlignCenterHorizontal"
    );
    assert_eq!(variant_name("badge_3d"), "Badge3d");
}

#[test]
fn prefixes_numeric_names() {
    assert_eq!(variant_name("360-degrees"), "Icon360Degrees");
}

#[test]
fn handles_empty_or_symbol_only_names() {
    assert_eq!(variant_name(""), "Icon");
    assert_eq!(variant_name("---"), "Icon");
}

#[test]
fn avoids_reserved_keywords() {
    assert_eq!(variant_name("self"), "SelfIcon");
    assert_eq!(variant_name("super"), "SuperIcon");
    assert_eq!(variant_name("crate"), "CrateIcon");
    assert_eq!(variant_name("extern"), "ExternIcon");
}

#[test]
fn disambiguates_duplicate_variant_names() {
    let mut used = StringSet::new();
    assert_eq!(unique_variant_name("arrow-left", &mut used), "ArrowLeft");
    assert_eq!(unique_variant_name("arrow_left", &mut used), "ArrowLeft2");
    assert_eq!(unique_variant_name("arrow.left", &mut used), "ArrowLeft3");
}

#[test]
fn non_ascii_characters_separate_words() {
    assert_eq!(variant_name("café-au-lait"), "CafAuLait");
    assert_eq!(variant_name("mixedCase"), "MixedCase");
    assert_eq!(variant_name("9"), "Icon9");
    assert_eq!(variant_name("Self"), "SelfIcon");
    assert_eq!(variant_name("selfie"), "Selfie");
}

#[test]
fn every_variant_name_is_an_identifier() {
    for stem in ["", "0", "--x--", "ümlaut", "a b c", "123abc", "extern", "z9"] {
        let name = variant_name(stem);
        assert!(!name.is_empty());
        assert!(name.chars().all(|c| c.is_ascii_alphanumeric()));
        assert!(name.chars().next().is_some_and(|c| c.is_ascii_alphabetic()));
    }
}

#[test]
fn unique_names_are_recorded_and_skip_taken_numbers() {
    let mut used = StringSet::new();
    assert!(used.insert("Star2".to_string()));
    assert_eq!(unique_variant_name("star", &mut used), "Star");
    assert_eq!(unique_variant_name("star", &mut used), "Star3");
    assert!(used.contains("Star"));
    assert!(used.contains("Star3"));
    assert!(!used.insert("Star".to_string()));
    assert_eq!(used.len(), 3);
}
