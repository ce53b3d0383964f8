//! The error kinds of the conversion pipeline. Every failure is fatal: the
//! caller aborts the conversion and reports the error.

use vstd::prelude::*;

verus! {

/// One error kind per way the pipeline can fail. Variants that concern a
/// particular file carry its path so the report can point at it.
#[derive(Debug, PartialEq)]
pub enum DocdocError {
    /// The document opens a frontmatter block and never closes it.
    UnterminatedFrontmatter,
    /// Frontmatter or override text is not a YAML mapping.
    MetadataParseError,
    /// The source document does not exist.
    DocumentNotFound(String),
    /// The source document exists but is not a regular file.
    DocumentNotFile(String),
    /// The theme directory does not exist.
    ThemeNotFound(String),
    /// The theme path is not a directory, or its descriptor is not YAML.
    ThemeNotValid(String),
    /// The theme directory has no `theme.yml`.
    ThemeFileMissing(String),
    /// The theme descriptor declares no `name`.
    ThemeNameMissing,
    /// The theme descriptor's `name` is not a string.
    ThemeNameNotValid,
    /// The theme descriptor declares no `assets`.
    ThemeAssetsMissing,
    /// The theme descriptor's `assets` is not a list of strings.
    ThemeAssetsNotValid,
    /// The theme descriptor declares no `metadata`.
    ThemeMetadataMissing,
    /// The theme descriptor's `metadata` is not a mapping.
    ThemeMetadataNotValid,
    /// The template engine failed on the selected template.
    RenderError(String),
    /// A read, write or copy failed.
    IoError(String),
}

/// The report for an error: a fixed description, with the offending path or
/// detail quoted where the variant carries one.
pub open spec fn message_of(e: DocdocError) -> Seq<char> {
    match e {
        DocdocError::UnterminatedFrontmatter => "Frontmatter never ends"@,
        DocdocError::MetadataParseError => "Metadata is not a YAML mapping"@,
        DocdocError::DocumentNotFound(p) => "Document not found: '"@ + p@ + "'"@,
        DocdocError::DocumentNotFile(p) => "Document not valid: '"@ + p@ + "'"@,
        DocdocError::ThemeNotFound(p) => "Theme not found: '"@ + p@ + "'"@,
        DocdocError::ThemeNotValid(p) => "Theme not valid: '"@ + p@ + "'"@,
        DocdocError::ThemeFileMissing(p) => "Theme missing 'theme.yml' file: '"@ + p@ + "'"@,
        DocdocError::ThemeNameMissing => "Theme name missing"@,
        DocdocError::ThemeNameNotValid => "Theme name not valid"@,
        DocdocError::ThemeAssetsMissing => "Theme assets missing"@,
        DocdocError::ThemeAssetsNotValid => "Theme assets not valid"@,
        DocdocError::ThemeMetadataMissing => "Theme metadata missing"@,
        DocdocError::ThemeMetadataNotValid => "Theme metadata not valid"@,
        DocdocError::RenderError(m) => "Template rendering failed: '"@ + m@ + "'"@,
        DocdocError::IoError(m) => "Input or output failed: '"@ + m@ + "'"@,
    }
}

impl DocdocError {
    /// The report for this error.
    pub fn message(&self) -> (r: String)
        ensures
            r@ == message_of(*self),
    {
        match self {
            DocdocError::UnterminatedFrontmatter => String::from_str("Frontmatter never ends"),
            DocdocError::MetadataParseError => String::from_str("Metadata is not a YAML mapping"),
            DocdocError::DocumentNotFound(p) => quoted("Document not found: '", p),
            DocdocError::DocumentNotFile(p) => quoted("Document not valid: '", p),
            DocdocError::ThemeNotFound(p) => quoted("Theme not found: '", p),
            DocdocError::ThemeNotValid(p) => quoted("Theme not valid: '", p),
            DocdocError::ThemeFileMissing(p) => quoted("Theme missing 'theme.yml' file: '", p),
            DocdocError::ThemeNameMissing => String::from_str("Theme name missing"),
            DocdocError::ThemeNameNotValid => String::from_str("Theme name not valid"),
            DocdocError::ThemeAssetsMissing => String::from_str("Theme assets missing"),
            DocdocError::ThemeAssetsNotValid => String::from_str("Theme assets not valid"),
            DocdocError::ThemeMetadataMissing => String::from_str("Theme metadata missing"),
            DocdocError::ThemeMetadataNotValid => String::from_str("Theme metadata not valid"),
            DocdocError::RenderError(m) => quoted("Template rendering failed: '", m),
            DocdocError::IoError(m) => quoted("Input or output failed: '", m),
        }
    }
}

/// Builds `prefix` + `detail` + `'`, used for the messages that quote a path.
fn quoted(prefix: &str, detail: &String) -> (r: String)
    ensures
        r@ == prefix@ + detail@ + "'"@,
{
    let mut r = String::from_str(prefix);
    r.append(detail.as_str());
    r.append("'");
    r
}

} // verus!
