use std::rc::Rc;

use docdoc::errors::DocdocError;
use docdoc::theme::Theme;
use docdoc::yaml::{MetaEntry, YamlNode};

const GOOD: &str = "name: plain\nassets:\n  - style.css\n  - logo.png\nmetadata:\n  title: Default\n";

#[test]
fn valid_descriptor_loads() {
    let theme = Theme::from_text(String::from("themes/plain"), GOOD).unwrap();
    assert_eq!(theme.get_name().as_str(), "plain");
    assert_eq!(theme.get_path().as_str(), "themes/plain");
    let assets: Vec<&str> = theme.get_assets().iter().map(|a| a.as_str()).collect();
    assert_eq!(assets, vec!["themes/plain/style.css", "themes/plain/logo.png"]);
    let entries = &theme.get_metadata().entries;
    assert_eq!(entries.len(), 1);
    assert_eq!(entries[0].key.as_str(), "title");
    assert_eq!(*entries[0].value, YamlNode::Text(String::from("Default")));
}

#[test]
fn empty_asset_list_is_valid() {
    let theme =
        Theme::from_text(String::from("t"), "name: n\nassets: []\nmetadata: {}\n").unwrap();
    assert!(theme.get_assets().is_empty());
    assert!(theme.get_metadata().entries.is_empty());
}

#[test]
fn descriptor_that_is_not_yaml_is_not_valid() {
    let err = Theme::from_text(String::from("t"), "a: [1\n").unwrap_err();
    assert_eq!(err, DocdocError::ThemeNotValid(String::from("t")));
}

#[test]
fn descriptor_that_is_not_a_mapping_misses_the_name() {
    let err = Theme::from_text(String::from("t"), "- 1\n- 2\n").unwrap_err();
    assert_eq!(err, DocdocError::ThemeNameMissing);
}

#[test]
fn missing_name_is_reported() {
    let err =
        Theme::from_text(String::from("t"), "assets: []\nmetadata: {}\n").unwrap_err();
    assert_eq!(err, DocdocError::ThemeNameMissing);
}

#[test]
fn non_string_name_is_reported() {
    let err = Theme::from_text(String::from("t"), "name: [1]\nassets: []\nmetadata: {}\n")
        .unwrap_err();
    assert_eq!(err, DocdocError::ThemeNameNotValid);
}

#[test]
fn missing_assets_are_reported() {
    let err = Theme::from_text(String::from("t"), "name: n\nmetadata: {}\n").unwrap_err();
    assert_eq!(err, DocdocError::ThemeAssetsMissing);
}

#[test]
fn non_list_assets_are_reported() {
    let err = Theme::from_text(String::from("t"), "name: n\nassets: 1\nmetadata: {}\n")
        .unwrap_err();
    assert_eq!(err, DocdocError::ThemeAssetsNotValid);
}

#[test]
fn non_string_asset_item_is_reported() {
    let err = Theme::from_text(
        String::from("t"),
        "name: n\nassets:\n  - ok.css\n  - 3\nmetadata: {}\n",
    )
    .unwrap_err();
    assert_eq!(err, DocdocError::ThemeAssetsNotValid);
}

#[test]
fn missing_metadata_is_reported() {
    let err = Theme::from_text(String::from("t"), "name: n\nassets: []\n").unwrap_err();
    assert_eq!(err, DocdocError::ThemeMetadataMissing);
}

#[test]
fn non_mapping_metadata_is_reported() {
    let err = Theme::from_text(String::from("t"), "name: n\nassets: []\nmetadata: 5\n")
        .unwrap_err();
    assert_eq!(err, DocdocError::ThemeMetadataNotValid);
}

#[test]
fn name_error_wins_over_later_errors() {
    let err = Theme::from_text(String::from("t"), "name: [1]\nassets: 1\nmetadata: 5\n")
        .unwrap_err();
    assert_eq!(err, DocdocError::ThemeNameNotValid);
}

#[test]
fn theme_metadata_keeps_nested_values() {
    let theme = Theme::from_text(
        String::from("t"),
        "name: n\nassets: []\nmetadata:\n  nav:\n    home: /\n",
    )
    .unwrap();
    let entries = &theme.get_metadata().entries;
    assert_eq!(entries.len(), 1);
    assert_eq!(entries[0].key.as_str(), "nav");
    assert_eq!(
        *entries[0].value,
        YamlNode::Table(vec![MetaEntry {
            key: String::from("home"),
            value: Rc::new(YamlNode::Text(String::from("/"))),
        }])
    );
}
