//! Documents: a path, an ordered metadata mapping, and a body. A document is
//! built from raw text by splitting off the optional frontmatter block and
//! parsing it as a YAML mapping; its body is later replaced by rendered HTML
//! and its path by the mapped destination.

use vstd::prelude::*;

use crate::errors::DocdocError;
use crate::markdown::{
    has_close, is_first_close, markdown_to_html, rendered_html, starts_with_delim, Markdown,
    MarkdownParser,
};
use crate::theme::Theme;
use crate::yaml::{inserted_all, merge_metadata, merged_entries, parse_yaml_text, yaml_of,
    MetaEntry, Metadata, YamlNode};

verus! {

/// A document flowing through the pipeline.
#[derive(Debug)]
pub struct Document {
    pub path: String,
    pub metadata: Metadata,
    pub body: String,
}

impl Document {
    /// Builds a document from its parts.
    pub fn new(path: String, metadata: Metadata, body: String) -> (d: Document)
        ensures
            d.path == path,
            d.metadata == metadata,
            d.body == body,
    {
        Document { path, metadata, body }
    }

    /// Builds a document from the raw text read at `path`. The text is split
    /// at the frontmatter delimiters; a present frontmatter block must parse
    /// as a YAML mapping, which becomes the metadata; without one the
    /// metadata is empty and the whole text is the body.
    pub fn from_text(path: String, text: &str) -> (r: Result<Document, DocdocError>)
        ensures
            match r {
                Ok(d) => {
                    &&& d.path == path
                    &&& (!starts_with_delim(text@) ==> d.body@ == text@ && d.metadata.entries@
                        == Seq::<MetaEntry>::empty())
                    &&& (starts_with_delim(text@) ==> exists|c: int|
                        {
                            &&& #[trigger] is_first_close(text@, c)
                            &&& d.body@ == text@.subrange(c + 4, text@.len() as int)
                            &&& (yaml_of(text@.subrange(4, c)) matches Some(YamlNode::Table(es))
                                && d.metadata.entries == es)
                        })
                },
                Err(e) => {
                    ||| (e is UnterminatedFrontmatter && starts_with_delim(text@) && !has_close(
                        text@,
                    ))
                    ||| (e is MetadataParseError && starts_with_delim(text@) && exists|c: int|
                        {
                            &&& #[trigger] is_first_close(text@, c)
                            &&& !(yaml_of(text@.subrange(4, c)) matches Some(YamlNode::Table(_)))
                        })
                },
            },
    {
        let md = match Markdown::parse(text) {
            Ok(m) => m,
            Err(e) => {
                return Err(e);
            },
        };
        match md.frontmatter() {
            None => Ok(
                Document {
                    path,
                    metadata: Metadata::empty(),
                    body: String::from_str(md.content()),
                },
            ),
            Some(f) => {
                let ghost c = choose|c: int|
                    {
                        &&& #[trigger] is_first_close(text@, c)
                        &&& f@ == text@.subrange(0, c + 4)
                        &&& md.content@ == text@.subrange(c + 4, text@.len() as int)
                    };
                let n = f.unicode_len();
                proof {
                    assert(n == c + 4);
                    assert(f@.subrange(4, n - 4 as int) =~= text@.subrange(4, c));
                }
                let inner = f.substring_char(4, n - 4);
                match parse_yaml_text(inner) {
                    Some(node) => match node {
                        YamlNode::Table(es) => Ok(
                            Document {
                                path,
                                metadata: Metadata { entries: es },
                                body: String::from_str(md.content()),
                            },
                        ),
                        _ => Err(DocdocError::MetadataParseError),
                    },
                    None => Err(DocdocError::MetadataParseError),
                }
            },
        }
    }

    /// The document's path.
    pub fn get_path(&self) -> (r: &String)
        ensures
            *r == self.path,
    {
        &self.path
    }

    /// The document's metadata.
    pub fn get_metadata(&self) -> (r: &Metadata)
        ensures
            *r == self.metadata,
    {
        &self.metadata
    }

    /// The document's body.
    pub fn get_body(&self) -> (r: &String)
        ensures
            *r == self.body,
    {
        &self.body
    }

    /// Replaces the document's path.
    pub fn set_path(&mut self, path: String)
        ensures
            final(self).path == path,
            final(self).metadata == old(self).metadata,
            final(self).body == old(self).body,
    {
        self.path = path;
    }

    /// Replaces the document's metadata.
    pub fn set_metadata(&mut self, metadata: Metadata)
        ensures
            final(self).metadata == metadata,
            final(self).path == old(self).path,
            final(self).body == old(self).body,
    {
        self.metadata = metadata;
    }

    /// Replaces the document's body.
    pub fn set_body(&mut self, body: String)
        ensures
            final(self).body == body,
            final(self).path == old(self).path,
            final(self).metadata == old(self).metadata,
    {
        self.body = body;
    }
}

/// A mapping with every override fragment written into it, in order.
pub open spec fn overridden_all(entries: Seq<MetaEntry>, overrides: Seq<Metadata>) -> Seq<
    MetaEntry,
>
    decreases overrides.len(),
{
    if overrides.len() == 0 {
        entries
    } else {
        overridden_all(inserted_all(entries, overrides[0].entries@), overrides.drop_first())
    }
}

/// Runs the document side of the pipeline up to template rendering: builds
/// the document from the raw text read at `path`, layers each override
/// fragment onto its metadata by plain overwrite, and replaces its body with
/// the HTML it renders to under the dialect.
pub fn prepare_document(
    path: String,
    text: &str,
    overrides: Vec<Metadata>,
    parser: &MarkdownParser,
) -> (r: Result<Document, DocdocError>)
    ensures
        match r {
            Ok(d) => {
                &&& d.path == path
                &&& (!starts_with_delim(text@) ==> d.metadata.entries@ == overridden_all(
                    Seq::<MetaEntry>::empty(),
                    overrides@,
                ) && d.body@ == rendered_html(text@, *parser))
                &&& (starts_with_delim(text@) ==> exists|c: int|
                    {
                        &&& #[trigger] is_first_close(text@, c)
                        &&& (yaml_of(text@.subrange(4, c)) matches Some(YamlNode::Table(es))
                            && d.metadata.entries@ == overridden_all(es@, overrides@))
                        &&& d.body@ == rendered_html(
                            text@.subrange(c + 4, text@.len() as int),
                            *parser,
                        )
                    })
            },
            Err(e) => {
                ||| (e is UnterminatedFrontmatter && starts_with_delim(text@) && !has_close(
                    text@,
                ))
                ||| (e is MetadataParseError && starts_with_delim(text@) && exists|c: int|
                    {
                        &&& #[trigger] is_first_close(text@, c)
                        &&& !(yaml_of(text@.subrange(4, c)) matches Some(YamlNode::Table(_)))
                    })
            },
        },
{
    let mut document = match Document::from_text(path, text) {
        Ok(d) => d,
        Err(e) => {
            return Err(e);
        },
    };
    let ghost base = document.metadata.entries@;
    let ghost path0 = document.path;
    let ghost body0 = document.body;
    let mut overrides = overrides;
    let ghost all = overrides@;
    while overrides.len() > 0
        invariant
            overridden_all(base, all) == overridden_all(
                document.metadata.entries@,
                overrides@,
            ),
            document.path == path0,
            document.body == body0,
        decreases overrides@.len(),
    {
        let ghost pending = overrides@;
        let ov = overrides.remove(0);
        document.metadata.apply_overrides(ov);
        proof {
            assert(overrides@ =~= pending.drop_first());
        }
    }
    let html = match markdown_to_html(document.body.as_str(), parser) {
        Ok(h) => h,
        Err(e) => {
            return Err(e);
        },
    };
    document.set_body(html);
    Ok(document)
}

/// The document as it is handed to the template renderer: the same path and
/// body, its metadata replaced by the theme's metadata with the document's
/// values merged in under the theme's allow-list.
pub fn merged_document(theme: &Theme, document: &Document) -> (r: Document)
    ensures
        r.path == document.path,
        r.body == document.body,
        r.metadata.entries@ == merged_entries(theme.metadata.entries@, document.metadata.entries@),
{
    let metadata = merge_metadata(&theme.metadata, &document.metadata);
    Document { path: document.path.clone(), metadata, body: document.body.clone() }
}

} // verus!
