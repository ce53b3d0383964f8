use docdoc::document::Document;
use docdoc::errors::DocdocError;
use docdoc::markdown::Markdown;
use docdoc::yaml::YamlNode;

#[test]
fn split_no_delimiter_returns_input_unchanged() {
    let text = "just a body\nwith two lines\n";
    let md = Markdown::parse(text).unwrap();
    assert_eq!(md.frontmatter(), None);
    assert_eq!(md.content(), text);
}

#[test]
fn split_nearly_delimited_text_is_all_body() {
    let text = "--- \ntitle: Hi\n---\nbody";
    let md = Markdown::parse(text).unwrap();
    assert_eq!(md.frontmatter(), None);
    assert_eq!(md.content(), text);
}

#[test]
fn split_well_formed_round_trips() {
    let text = "---\ntitle: Hi\n---\n# Body\n";
    let md = Markdown::parse(text).unwrap();
    let block = md.frontmatter().unwrap();
    assert_eq!(block, "---\ntitle: Hi\n---\n");
    assert_eq!(md.content(), "# Body\n");
    let mut rejoined = String::from(block);
    rejoined.push_str(md.content());
    assert_eq!(rejoined, text);
}

#[test]
fn split_unterminated_frontmatter_fails() {
    let err = Markdown::parse("---\ntitle: Hi\n").unwrap_err();
    assert_eq!(err, DocdocError::UnterminatedFrontmatter);
}

#[test]
fn split_lone_delimiter_fails() {
    let err = Markdown::parse("---\n").unwrap_err();
    assert_eq!(err, DocdocError::UnterminatedFrontmatter);
}

#[test]
fn split_empty_text_is_all_body() {
    let md = Markdown::parse("").unwrap();
    assert_eq!(md.frontmatter(), None);
    assert_eq!(md.content(), "");
}

#[test]
fn split_adjacent_delimiters_gives_empty_block_and_body() {
    let md = Markdown::parse("---\n---\n").unwrap();
    assert_eq!(md.frontmatter(), Some("---\n---\n"));
    assert_eq!(md.content(), "");
}

#[test]
fn split_takes_first_closing_delimiter() {
    let md = Markdown::parse("---\na: 1\n---\nmiddle\n---\nrest").unwrap();
    assert_eq!(md.frontmatter(), Some("---\na: 1\n---\n"));
    assert_eq!(md.content(), "middle\n---\nrest");
}

#[test]
fn from_text_parses_frontmatter_mapping() {
    let doc = Document::from_text(String::from("docs/a.md"), "---\ntitle: Hi\n---\nbody").unwrap();
    assert_eq!(doc.get_path().as_str(), "docs/a.md");
    assert_eq!(doc.get_body().as_str(), "body");
    let entries = &doc.get_metadata().entries;
    assert_eq!(entries.len(), 1);
    assert_eq!(entries[0].key.as_str(), "title");
    assert_eq!(*entries[0].value, YamlNode::Text(String::from("Hi")));
}

#[test]
fn from_text_without_frontmatter_has_empty_metadata() {
    let doc = Document::from_text(String::from("a.md"), "# Hello\n").unwrap();
    assert_eq!(doc.get_body().as_str(), "# Hello\n");
    assert!(doc.get_metadata().entries.is_empty());
}

#[test]
fn from_text_unterminated_fails() {
    let err = Document::from_text(String::from("a.md"), "---\ntitle: Hi\n").unwrap_err();
    assert_eq!(err, DocdocError::UnterminatedFrontmatter);
}

#[test]
fn from_text_non_mapping_frontmatter_fails() {
    let err = Document::from_text(String::from("a.md"), "---\n- item\n---\nbody").unwrap_err();
    assert_eq!(err, DocdocError::MetadataParseError);
}

#[test]
fn from_text_empty_frontmatter_fails() {
    let err = Document::from_text(String::from("a.md"), "---\n---\nbody").unwrap_err();
    assert_eq!(err, DocdocError::MetadataParseError);
}

#[test]
fn from_text_keeps_metadata_order_and_types() {
    let text = "---\ntitle: T\ncount: 3\nok: true\nratio: 1.5\nnothing: null\n---\nx";
    let doc = Document::from_text(String::from("a.md"), text).unwrap();
    let entries = &doc.get_metadata().entries;
    assert_eq!(entries.len(), 5);
    assert_eq!(entries[0].key.as_str(), "title");
    assert_eq!(*entries[0].value, YamlNode::Text(String::from("T")));
    assert_eq!(entries[1].key.as_str(), "count");
    assert_eq!(*entries[1].value, YamlNode::Integer(3));
    assert_eq!(entries[2].key.as_str(), "ok");
    assert_eq!(*entries[2].value, YamlNode::Boolean(true));
    assert_eq!(entries[3].key.as_str(), "ratio");
    assert_eq!(*entries[3].value, YamlNode::Real(String::from("1.5")));
    assert_eq!(entries[4].key.as_str(), "nothing");
    assert_eq!(*entries[4].value, YamlNode::Null);
}
