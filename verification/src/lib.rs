//! docdoc converts a Markdown document with an optional YAML frontmatter
//! block into a themed HTML page.
//!
//! The library holds the core of the pipeline: splitting frontmatter from
//! the body, parsing metadata, mapping source paths to destination paths,
//! rewriting intra-site links, rendering Markdown under two dialects, and
//! merging document metadata into a theme's declared metadata. Reading and
//! writing files, template rendering and asset copying are the caller's
//! concern.

pub mod document;
pub mod errors;
pub mod markdown;
pub mod paths;
pub mod theme;
pub mod yaml;
