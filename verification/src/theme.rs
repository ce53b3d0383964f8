//! Themes: a named directory of templates and assets together with the
//! metadata keys, and their default values, that templates may reference.
//! The descriptor text (`theme.yml`) is validated here; reading it from disk
//! is the caller's concern.

use vstd::prelude::*;

use crate::errors::DocdocError;
use crate::yaml::{
    has_key, first_key_index, is_first_key_index, lemma_first_key_index_of, find_key_str, rc_dup,
    parse_yaml_text, yaml_of, MetaEntry, Metadata, YamlNode,
};

verus! {

/// A loaded theme: its name, its directory, the full paths of its assets,
/// and the metadata keys it declares for its templates.
#[derive(Debug)]
pub struct Theme {
    pub name: String,
    pub path: String,
    pub assets: Vec<String>,
    pub metadata: Metadata,
}

/// What the descriptor's `name` entry yields: the name string, or the error
/// when the entry is missing, the document is not a mapping, or the entry is
/// not a string.
pub open spec fn spec_theme_name(doc: YamlNode) -> Result<Seq<char>, DocdocError> {
    match doc {
        YamlNode::Table(entries) => {
            if !has_key(entries@, "name"@) {
                Err(DocdocError::ThemeNameMissing)
            } else {
                match *entries@[first_key_index(entries@, "name"@)].value {
                    YamlNode::Text(s) => Ok(s@),
                    _ => Err(DocdocError::ThemeNameNotValid),
                }
            }
        },
        _ => Err(DocdocError::ThemeNameMissing),
    }
}

/// Every item of the list is a string.
pub open spec fn all_text_items(items: Seq<YamlNode>) -> bool {
    forall|i: int| 0 <= i < items.len() ==> (#[trigger] items[i]) is Text
}

/// The characters of a string item.
pub open spec fn text_item(n: YamlNode) -> Seq<char> {
    match n {
        YamlNode::Text(s) => s@,
        _ => Seq::empty(),
    }
}

/// Each asset item prefixed with the theme directory and a separator.
pub open spec fn asset_paths(root: Seq<char>, items: Seq<YamlNode>) -> Seq<Seq<char>> {
    Seq::new(items.len(), |i: int| root + seq!['/'] + text_item(items[i]))
}

/// What the descriptor's `assets` entry yields: the full asset paths under
/// `root`, or the error when the entry is missing, not a list, or holds a
/// non-string item.
pub open spec fn spec_theme_assets(doc: YamlNode, root: Seq<char>) -> Result<
    Seq<Seq<char>>,
    DocdocError,
> {
    match doc {
        YamlNode::Table(entries) => {
            if !has_key(entries@, "assets"@) {
                Err(DocdocError::ThemeAssetsMissing)
            } else {
                match *entries@[first_key_index(entries@, "assets"@)].value {
                    YamlNode::List(items) => if all_text_items(items@) {
                        Ok(asset_paths(root, items@))
                    } else {
                        Err(DocdocError::ThemeAssetsNotValid)
                    },
                    _ => Err(DocdocError::ThemeAssetsNotValid),
                }
            }
        },
        _ => Err(DocdocError::ThemeAssetsMissing),
    }
}

/// What the descriptor's `metadata` entry yields: its entries, or the error
/// when the entry is missing or not a mapping.
pub open spec fn spec_theme_metadata(doc: YamlNode) -> Result<Seq<MetaEntry>, DocdocError> {
    match doc {
        YamlNode::Table(entries) => {
            if !has_key(entries@, "metadata"@) {
                Err(DocdocError::ThemeMetadataMissing)
            } else {
                match *entries@[first_key_index(entries@, "metadata"@)].value {
                    YamlNode::Table(m) => Ok(m@),
                    _ => Err(DocdocError::ThemeMetadataNotValid),
                }
            }
        },
        _ => Err(DocdocError::ThemeMetadataMissing),
    }
}

impl Theme {
    /// Validates a theme descriptor read from `path`. The descriptor must be
    /// a YAML mapping with a string `name`, a list of string `assets`, and a
    /// `metadata` mapping; each asset path is prefixed with the theme
    /// directory. The checks run in that order and the first failure wins.
    #[verifier::loop_isolation(false)]
    pub fn from_text(path: String, text: &str) -> (r: Result<Theme, DocdocError>)
        ensures
            match yaml_of(text@) {
                None => r matches Err(e) && e matches DocdocError::ThemeNotValid(p) && p@
                    == path@,
                Some(doc) => match r {
                    Ok(t) => {
                        &&& spec_theme_name(doc) matches Ok(n) && t.name@ == n
                        &&& spec_theme_assets(doc, path@) matches Ok(a) && t.assets.deep_view()
                            == a
                        &&& spec_theme_metadata(doc) matches Ok(m) && t.metadata.entries@ == m
                        &&& t.path == path
                    },
                    Err(e) => {
                        ||| (spec_theme_name(doc) matches Err(e2) && e == e2)
                        ||| (spec_theme_name(doc) is Ok && (spec_theme_assets(doc, path@) matches Err(e2)
                            && e == e2))
                        ||| (spec_theme_name(doc) is Ok && spec_theme_assets(doc, path@) is Ok
                            && (spec_theme_metadata(doc) matches Err(e2) && e == e2))
                    },
                },
            },
    {
        let doc = match parse_yaml_text(text) {
            Some(d) => d,
            None => {
                return Err(DocdocError::ThemeNotValid(path));
            },
        };
        let entries = match &doc {
            YamlNode::Table(es) => es,
            _ => {
                return Err(DocdocError::ThemeNameMissing);
            },
        };

        let name = match find_key_str(entries, "name") {
            None => {
                return Err(DocdocError::ThemeNameMissing);
            },
            Some(i) => {
                proof {
                    lemma_first_key_index_of(entries@, "name"@, i as int);
                }
                match &*entries[i].value {
                    YamlNode::Text(s) => s.clone(),
                    _ => {
                        return Err(DocdocError::ThemeNameNotValid);
                    },
                }
            },
        };

        let assets = match find_key_str(entries, "assets") {
            None => {
                return Err(DocdocError::ThemeAssetsMissing);
            },
            Some(i) => {
                proof {
                    lemma_first_key_index_of(entries@, "assets"@, i as int);
                }
                match &*entries[i].value {
                    YamlNode::List(items) => {
                        let mut assets: Vec<String> = Vec::new();
                        let mut j: usize = 0;
                        while j < items.len()
                            invariant
                                j <= items@.len(),
                                assets@.len() == j,
                                forall|k: int| 0 <= k < j ==> (#[trigger] items@[k]) is Text,
                                forall|k: int| 0 <= k < j ==> (#[trigger] assets.deep_view()[k])
                                    == path@ + seq!['/'] + text_item(items@[k]),
                            decreases items@.len() - j,
                        {
                            match &items[j] {
                                YamlNode::Text(s) => {
                                    let ghost prev = assets.deep_view();
                                    let mut a = path.clone();
                                    a.append("/");
                                    a.append(s.as_str());
                                    assets.push(a);
                                    proof {
                                        reveal_strlit("/");
                                        assert(("/")@ =~= seq!['/']);
                                        assert(assets.deep_view() =~= prev.push(
                                            path@ + seq!['/'] + text_item(items@[j as int]),
                                        ));
                                    }
                                },
                                _ => {
                                    return Err(DocdocError::ThemeAssetsNotValid);
                                },
                            }
                            j += 1;
                        }
                        proof {
                            assert(assets.deep_view() =~= asset_paths(path@, items@));
                        }
                        assets
                    },
                    _ => {
                        return Err(DocdocError::ThemeAssetsNotValid);
                    },
                }
            },
        };

        let metadata = match find_key_str(entries, "metadata") {
            None => {
                return Err(DocdocError::ThemeMetadataMissing);
            },
            Some(i) => {
                proof {
                    lemma_first_key_index_of(entries@, "metadata"@, i as int);
                }
                match &*entries[i].value {
                    YamlNode::Table(m) => {
                        let mut mes: Vec<MetaEntry> = Vec::new();
                        let mut j: usize = 0;
                        while j < m.len()
                            invariant
                                j <= m@.len(),
                                mes@.len() == j,
                                forall|k: int| 0 <= k < j ==> mes@[k] == m@[k],
                            decreases m@.len() - j,
                        {
                            mes.push(m[j].clone());
                            j += 1;
                        }
                        proof {
                            assert(mes@ =~= m@);
                        }
                        Metadata { entries: mes }
                    },
                    _ => {
                        return Err(DocdocError::ThemeMetadataNotValid);
                    },
                }
            },
        };

        Ok(Theme { name, path, assets, metadata })
    }

    /// The theme's name.
    pub fn get_name(&self) -> (r: &String)
        ensures
            *r == self.name,
    {
        &self.name
    }

    /// The theme's directory.
    pub fn get_path(&self) -> (r: &String)
        ensures
            *r == self.path,
    {
        &self.path
    }

    /// The full paths of the theme's assets.
    pub fn get_assets(&self) -> (r: &Vec<String>)
        ensures
            *r == self.assets,
    {
        &self.assets
    }

    /// The metadata keys and default values the theme declares.
    pub fn get_metadata(&self) -> (r: &Metadata)
        ensures
            *r == self.metadata,
    {
        &self.metadata
    }
}

} // verus!
