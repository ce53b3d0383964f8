use docdoc::markdown::{markdown_to_html, MarkdownParser};

#[test]
fn commonmark_renders_heading() {
    let html = markdown_to_html("# Hello\n", &MarkdownParser::CommonMark).unwrap();
    assert_eq!(html, "<h1>Hello</h1>\n");
}

#[test]
fn commonmark_renders_paragraph() {
    let html = markdown_to_html("Hello *world*.\n", &MarkdownParser::CommonMark).unwrap();
    assert_eq!(html, "<p>Hello <em>world</em>.</p>\n");
}

#[test]
fn commonmark_renders_tables() {
    let html = markdown_to_html("| a | b |\n| - | - |\n| 1 | 2 |\n", &MarkdownParser::CommonMark)
        .unwrap();
    assert!(html.contains("<table>"), "no table in: {}", html);
}

#[test]
fn gfm_renders_strikethrough() {
    let html =
        markdown_to_html("~~gone~~\n", &MarkdownParser::GithubFlavoredMarkdown).unwrap();
    assert!(html.contains("<del>gone</del>"), "no strikethrough in: {}", html);
}

#[test]
fn both_dialects_agree_on_plain_paragraphs() {
    let body = "Hello *world*, this is plain text.\n";
    let common = markdown_to_html(body, &MarkdownParser::CommonMark).unwrap();
    let gfm = markdown_to_html(body, &MarkdownParser::GithubFlavoredMarkdown).unwrap();
    assert_eq!(common, gfm);
}

#[test]
fn both_dialects_agree_on_lists_and_code() {
    let body = "- one\n- two\n\nSome `code` here.\n";
    let common = markdown_to_html(body, &MarkdownParser::CommonMark).unwrap();
    let gfm = markdown_to_html(body, &MarkdownParser::GithubFlavoredMarkdown).unwrap();
    assert_eq!(common, gfm);
}

#[test]
fn gfm_headings_gain_generated_ids() {
    let body = "# Title\n\nA paragraph.\n";
    let common = markdown_to_html(body, &MarkdownParser::CommonMark).unwrap();
    let gfm = markdown_to_html(body, &MarkdownParser::GithubFlavoredMarkdown).unwrap();
    assert_eq!(common, "<h1>Title</h1>\n<p>A paragraph.</p>\n");
    assert!(gfm.starts_with("<h1 id=\"title\">Title"), "no heading id in: {}", gfm);
    assert!(gfm.ends_with("</h1>\n<p>A paragraph.</p>\n"), "paragraph differs in: {}", gfm);
}

#[test]
fn commonmark_rewrites_rooted_md_links() {
    let html =
        markdown_to_html("[guide](/docs/guide/setup.md)\n", &MarkdownParser::CommonMark).unwrap();
    assert!(html.contains("href=\"/guide/setup.html\""), "link not rewritten in: {}", html);
}

#[test]
fn gfm_rewrites_rooted_md_links() {
    let html = markdown_to_html(
        "[guide](/docs/guide/setup.md)\n",
        &MarkdownParser::GithubFlavoredMarkdown,
    )
    .unwrap();
    assert!(html.contains("href=\"/guide/setup.html\""), "link not rewritten in: {}", html);
}

#[test]
fn commonmark_keeps_external_links() {
    let html =
        markdown_to_html("[x](https://example.com/x.md)\n", &MarkdownParser::CommonMark).unwrap();
    assert!(html.contains("href=\"https://example.com/x.md\""), "link changed in: {}", html);
}

#[test]
fn gfm_keeps_relative_links() {
    let html = markdown_to_html("[x](../sibling.md)\n", &MarkdownParser::GithubFlavoredMarkdown)
        .unwrap();
    assert!(html.contains("href=\"../sibling.md\""), "link changed in: {}", html);
}
