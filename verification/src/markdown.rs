//! Markdown handling: splitting a raw document into frontmatter and body,
//! rewriting intra-site links, and rendering the body to HTML under one of
//! two dialects.

use vstd::prelude::*;

use crate::errors::DocdocError;
use crate::paths::{dest_of, ends_with_md, map_destination, segments_of, split_segments};

verus! {

/// The Markdown dialect to parse the body with.
#[derive(Debug)]
pub enum MarkdownParser {
    CommonMark,
    GithubFlavoredMarkdown,
}

/// A raw document split into its optional frontmatter block and its body.
/// The frontmatter block, when present, carries both delimiter lines, so the
/// block and the content concatenate back to the input text.
#[derive(Debug)]
pub struct Markdown<'a> {
    pub frontmatter: Option<&'a str>,
    pub content: &'a str,
}

/// The delimiter line `---\n` stands at position `i` of `t`.
pub open spec fn is_delim_at(t: Seq<char>, i: int) -> bool {
    &&& 0 <= i
    &&& i + 4 <= t.len()
    &&& t[i] == '-'
    &&& t[i + 1] == '-'
    &&& t[i + 2] == '-'
    &&& t[i + 3] == '\n'
}

/// The text opens with the frontmatter delimiter line.
pub open spec fn starts_with_delim(t: Seq<char>) -> bool {
    is_delim_at(t, 0)
}

/// A closing delimiter line stands at position `c`, past the opening one.
pub open spec fn is_close_at(t: Seq<char>, c: int) -> bool {
    c >= 4 && is_delim_at(t, c)
}

/// Some closing delimiter line exists.
pub open spec fn has_close(t: Seq<char>) -> bool {
    exists|c: int| is_close_at(t, c)
}

/// `c` is the first closing delimiter position.
pub open spec fn is_first_close(t: Seq<char>, c: int) -> bool {
    &&& is_close_at(t, c)
    &&& forall|j: int| 4 <= j < c ==> !is_delim_at(t, j)
}

/// There is at most one first closing delimiter position, so the split that
/// `Markdown::parse` promises is a function of the text alone.
pub proof fn lemma_first_close_unique(t: Seq<char>, c1: int, c2: int)
    requires
        is_first_close(t, c1),
        is_first_close(t, c2),
    ensures
        c1 == c2,
{
}

impl<'a> Markdown<'a> {
    /// Splits a raw document. A text that does not open with the delimiter
    /// line is all body. One that opens with it must close it: the block up
    /// to and including the first closing delimiter becomes the frontmatter
    /// and the rest the content, and the two concatenate back to the input.
    /// An opening delimiter without a closing one is a fatal error.
    pub fn parse(text: &'a str) -> (r: Result<Markdown<'a>, DocdocError>)
        ensures
            match r {
                Ok(m) => {
                    &&& (!starts_with_delim(text@) ==> m.frontmatter is None && m.content@
                        == text@)
                    &&& (starts_with_delim(text@) ==> exists|c: int|
                        {
                            &&& #[trigger] is_first_close(text@, c)
                            &&& m.frontmatter matches Some(f) && f@ == text@.subrange(0, c + 4)
                            &&& m.content@ == text@.subrange(c + 4, text@.len() as int)
                        })
                    &&& (m.frontmatter matches Some(f) ==> f@ + m.content@ == text@
                        && starts_with_delim(text@))
                },
                Err(e) => {
                    &&& e is UnterminatedFrontmatter
                    &&& starts_with_delim(text@)
                    &&& !has_close(text@)
                },
            },
    {
        let n = text.unicode_len();
        let opens = n >= 4 && text.get_char(0) == '-' && text.get_char(1) == '-' && text.get_char(
            2,
        ) == '-' && text.get_char(3) == '\n';
        if !opens {
            return Ok(Markdown { frontmatter: None, content: text });
        }
        let mut i: usize = 4;
        while i <= n - 4
            invariant
                4 <= i,
                i <= n,
                n == text@.len(),
                n >= 4,
                starts_with_delim(text@),
                forall|j: int| 4 <= j < i ==> !is_delim_at(text@, j),
            decreases n - i,
        {
            if text.get_char(i) == '-' && text.get_char(i + 1) == '-' && text.get_char(i + 2) == '-'
                && text.get_char(i + 3) == '\n' {
                let fm = text.substring_char(0, i + 4);
                let content = text.substring_char(i + 4, n);
                proof {
                    assert(is_first_close(text@, i as int));
                    assert(fm@ + content@ =~= text@);
                }
                return Ok(Markdown { frontmatter: Some(fm), content });
            }
            i += 1;
        }
        proof {
            assert(!has_close(text@)) by {
                if has_close(text@) {
                    let c = choose|c: int| is_close_at(text@, c);
                    assert(c + 4 <= text@.len());
                    assert(4 <= c < i);
                    assert(!is_delim_at(text@, c));
                }
            }
        }
        Err(DocdocError::UnterminatedFrontmatter)
    }

    /// The frontmatter block, with both delimiter lines, if one was present.
    pub fn frontmatter(&self) -> (r: Option<&'a str>)
        ensures
            r == self.frontmatter,
    {
        self.frontmatter
    }

    /// The body: everything after the frontmatter block, or the whole text.
    pub fn content(&self) -> (r: &'a str)
        ensures
            r == self.content,
    {
        self.content
    }
}

/// A link target is rewritten exactly when it is root-rooted and its final
/// normal segment carries a `.md` extension over a non-empty stem.
pub open spec fn link_is_rewritten(u: Seq<char>) -> bool {
    &&& u.len() > 0
    &&& u[0] == '/'
    &&& segments_of(u).len() > 0
    &&& segments_of(u).last().len() >= 4
    &&& ends_with_md(segments_of(u).last())
}

/// The link rewrite rule: a root-rooted `.md` target is mapped through the
/// destination rule with an empty root and its first segment dropped; any
/// other target is left unchanged.
pub open spec fn link_rewrite(u: Seq<char>) -> Seq<char> {
    if link_is_rewritten(u) {
        dest_of(u, Seq::empty(), true)
    } else {
        u
    }
}

/// Rewrites one link target by the link rewrite rule.
pub fn handle_link(url: &str) -> (r: String)
    ensures
        r@ == link_rewrite(url@),
{
    let n = url.unicode_len();
    if n == 0 || url.get_char(0) != '/' {
        return String::from_str(url);
    }
    let segs = split_segments(url);
    if segs.len() == 0 {
        return String::from_str(url);
    }
    let last = segs[segs.len() - 1].as_str();
    let ghost lastv = segments_of(url@).last();
    proof {
        assert(segs.deep_view()[segs@.len() - 1] == segs@[segs@.len() - 1]@);
        assert(last@ == lastv);
    }
    let m = last.unicode_len();
    if m < 4 {
        return String::from_str(url);
    }
    if !(last.get_char(m - 3) == '.' && last.get_char(m - 2) == 'm' && last.get_char(m - 1) == 'd')
    {
        return String::from_str(url);
    }
    let r = map_destination(url, "", true);
    proof {
        reveal_strlit("");
        assert(("")@ =~= Seq::<char>::empty());
    }
    r
}

/// The name of the HTML that the CommonMark renderer produces for a body,
/// with tables enabled and link targets rewritten by the link rewrite rule.
pub uninterp spec fn commonmark_html_of(markdown: Seq<char>) -> Seq<char>;

/// The name of the HTML that the GitHub-flavored renderer produces for a
/// body, with the GitHub extensions enabled and link targets rewritten by the
/// link rewrite rule.
pub uninterp spec fn gfm_html_of(markdown: Seq<char>) -> Seq<char>;

/// The HTML a body renders to under a dialect.
pub open spec fn rendered_html(markdown: Seq<char>, parser: MarkdownParser) -> Seq<char> {
    match parser {
        MarkdownParser::CommonMark => commonmark_html_of(markdown),
        MarkdownParser::GithubFlavoredMarkdown => gfm_html_of(markdown),
    }
}

/// Relies on pulldown_cmark: `Parser::new_ext` with tables enabled and
/// `html::push_html` emit HTML that depends on the input text alone. Link
/// destinations are passed through the verified `handle_link` before
/// emission.
#[verifier::external_body]
fn render_commonmark(markdown: &str) -> (r: String)
    ensures
        r@ == commonmark_html_of(markdown@),
{
    let mut options = pulldown_cmark::Options::empty();
    options.insert(pulldown_cmark::Options::ENABLE_TABLES);
    let events = pulldown_cmark::Parser::new_ext(markdown, options).map(|event| match event {
        pulldown_cmark::Event::Start(pulldown_cmark::Tag::Link { link_type, dest_url, title, id }) =>
            pulldown_cmark::Event::Start(pulldown_cmark::Tag::Link {
                link_type, dest_url: handle_link(&dest_url).into(), title, id,
            }),
        other => other,
    });
    let mut html = String::new();
    pulldown_cmark::html::push_html(&mut html, events);
    html
}

/// Relies on comrak: `parse_document` and `format_html` with the
/// GitHub-flavored extensions (strikethrough, tables, autolinks, task lists,
/// superscript, heading ids, `github_pre_lang`) emit HTML that depends on the
/// input text alone. Link destinations are rewritten in the syntax tree with
/// the verified `handle_link` before emission.
#[verifier::external_body]
fn render_gfm(markdown: &str) -> (r: String)
    ensures
        r@ == gfm_html_of(markdown@),
{
    let options = gfm_options();
    let arena = comrak::Arena::new();
    let root = comrak::parse_document(&arena, markdown, &options);
    for node in root.descendants() {
        if let comrak::nodes::NodeValue::Link(ref mut link) = node.data.borrow_mut().value {
            link.url = handle_link(&link.url);
        }
    }
    let mut html = String::new();
    let _ = comrak::format_html(root, &options, &mut html);
    html
}

/// comrak's option set, declared so that it can pass between the wrappers.
#[verifier::external_type_specification]
#[verifier::external_body]
pub struct ExComrakOptions<'c>(comrak::Options<'c>);

/// Relies on comrak's `Options`: builds the option set of the GitHub-flavored
/// dialect for `render_gfm`.
#[verifier::external_body]
fn gfm_options() -> comrak::Options<'static> {
    let mut options = comrak::Options::default();
    options.extension.strikethrough = true;
    options.extension.table = true;
    options.extension.autolink = true;
    options.extension.tasklist = true;
    options.extension.superscript = true;
    options.extension.header_id_prefix = Some(String::new());
    options.render.github_pre_lang = true;
    options
}

/// Renders a Markdown body to HTML under the selected dialect. Both dialects
/// rewrite every link target with the same rule; rendering itself always
/// succeeds.
pub fn markdown_to_html(markdown: &str, parser: &MarkdownParser) -> (r: Result<String, DocdocError>)
    ensures
        r matches Ok(h) && h@ == rendered_html(markdown@, *parser),
{
    match parser {
        MarkdownParser::CommonMark => Ok(render_commonmark(markdown)),
        MarkdownParser::GithubFlavoredMarkdown => Ok(render_gfm(markdown)),
    }
}

} // verus!
