//! The YAML-typed metadata model: an ordered string-keyed mapping whose
//! values are scalars, sequences or nested mappings, together with the merge
//! rules that combine document metadata with a theme's declared metadata.

use vstd::prelude::*;

use std::rc::Rc;

use crate::errors::DocdocError;

verus! {

/// A YAML-typed value. Reals keep their textual form, so that no value of
/// the model needs floating point.
#[derive(Debug, PartialEq)]
pub enum YamlNode {
    Null,
    Boolean(bool),
    Integer(i64),
    Real(String),
    Text(String),
    List(Vec<YamlNode>),
    Table(Vec<MetaEntry>),
}

/// One key-value pair of a mapping. The value is shared, so copying an entry
/// copies a handle to the same value.
#[derive(Debug, PartialEq)]
pub struct MetaEntry {
    pub key: String,
    pub value: Rc<YamlNode>,
}

/// An ordered string-keyed mapping of YAML-typed values.
#[derive(Debug, PartialEq)]
pub struct Metadata {
    pub entries: Vec<MetaEntry>,
}

/// Relies on `Rc::clone`: the clone is a handle to the same value.
#[verifier::external_body]
pub(crate) fn rc_dup(v: &Rc<YamlNode>) -> (r: Rc<YamlNode>)
    ensures
        r == *v,
{
    Rc::clone(v)
}

impl Clone for MetaEntry {
    /// A copied entry equals the entry it was copied from.
    fn clone(&self) -> (r: Self)
        ensures
            r == *self,
    {
        MetaEntry { key: self.key.clone(), value: rc_dup(&self.value) }
    }
}

/// Some entry carries the key `k`.
pub open spec fn has_key(entries: Seq<MetaEntry>, k: Seq<char>) -> bool {
    exists|i: int| 0 <= i < entries.len() && (#[trigger] entries[i].key@) == k
}

/// `i` is the position of the first entry carrying the key `k`.
pub open spec fn is_first_key_index(entries: Seq<MetaEntry>, k: Seq<char>, i: int) -> bool {
    &&& 0 <= i < entries.len()
    &&& entries[i].key@ == k
    &&& forall|j: int| 0 <= j < i ==> (#[trigger] entries[j].key@) != k
}

/// The position of the first entry carrying the key `k`, when one exists.
pub open spec fn first_key_index(entries: Seq<MetaEntry>, k: Seq<char>) -> int {
    choose|i: int| is_first_key_index(entries, k, i)
}

/// A position that is a first position for `k` is the `first_key_index`.
pub proof fn lemma_first_key_index_of(entries: Seq<MetaEntry>, k: Seq<char>, i: int)
    requires
        is_first_key_index(entries, k, i),
    ensures
        has_key(entries, k),
        first_key_index(entries, k) == i,
{
    assert(has_key(entries, k));
    assert(exists|j: int| is_first_key_index(entries, k, j));
    let w = first_key_index(entries, k);
    assert(is_first_key_index(entries, k, w));
}

/// Compares two strings character by character.
pub(crate) fn str_eq(a: &str, b: &str) -> (r: bool)
    ensures
        r == (a@ == b@),
{
    let n = a.unicode_len();
    let m = b.unicode_len();
    if n != m {
        proof {
            assert(a@ != b@) by {
                if a@ == b@ {
                    assert(a@.len() == b@.len());
                }
            }
        }
        return false;
    }
    let mut i: usize = 0;
    while i < n
        invariant
            i <= n,
            n == a@.len(),
            n == b@.len(),
            forall|j: int| 0 <= j < i ==> a@[j] == b@[j],
        decreases n - i,
    {
        if a.get_char(i) != b.get_char(i) {
            proof {
                assert(a@ != b@) by {
                    if a@ == b@ {
                        assert(a@[i as int] == b@[i as int]);
                    }
                }
            }
            return false;
        }
        i += 1;
    }
    proof {
        assert(a@ =~= b@);
    }
    true
}

/// Finds the first entry whose key is `key`, given as a string slice.
pub(crate) fn find_key_str(entries: &Vec<MetaEntry>, key: &str) -> (r: Option<usize>)
    ensures
        match r {
            Some(i) => is_first_key_index(entries@, key@, i as int),
            None => !has_key(entries@, key@),
        },
{
    let mut i: usize = 0;
    while i < entries.len()
        invariant
            i <= entries@.len(),
            forall|j: int| 0 <= j < i ==> (#[trigger] entries@[j].key@) != key@,
        decreases entries@.len() - i,
    {
        if str_eq(entries[i].key.as_str(), key) {
            return Some(i);
        }
        i += 1;
    }
    proof {
        assert(!has_key(entries@, key@)) by {
            if has_key(entries@, key@) {
                let w = choose|j: int|
                    0 <= j < entries@.len() && (#[trigger] entries@[j].key@) == key@;
                assert(entries@[w].key@ != key@);
            }
        }
    }
    None
}

/// What one theme entry becomes under the merge: its value is overridden by
/// the document's value for the same key when the document carries that key,
/// and kept otherwise. Keys and their order are the theme's own.
pub open spec fn merged_entry(theme_entry: MetaEntry, doc: Seq<MetaEntry>) -> MetaEntry {
    if has_key(doc, theme_entry.key@) {
        MetaEntry { key: theme_entry.key, value: doc[first_key_index(doc, theme_entry.key@)].value }
    } else {
        theme_entry
    }
}

/// The merged mapping: one entry per theme entry, in theme order; document
/// keys that the theme does not declare are dropped.
pub open spec fn merged_entries(theme: Seq<MetaEntry>, doc: Seq<MetaEntry>) -> Seq<MetaEntry> {
    Seq::new(theme.len(), |i: int| merged_entry(theme[i], doc))
}

/// Merges document metadata into theme metadata. The theme's keys are an
/// allow-list: the result has exactly the theme's keys in the theme's order,
/// each with the document's value where the document carries the key and the
/// theme's value where it does not.
pub fn merge_metadata(theme: &Metadata, doc: &Metadata) -> (r: Metadata)
    ensures
        r.entries@ == merged_entries(theme.entries@, doc.entries@),
{
    let mut entries: Vec<MetaEntry> = Vec::new();
    let mut i: usize = 0;
    while i < theme.entries.len()
        invariant
            i <= theme.entries@.len(),
            entries@.len() == i,
            forall|j: int| 0 <= j < i ==> entries@[j] == merged_entry(
                theme.entries@[j],
                doc.entries@,
            ),
        decreases theme.entries@.len() - i,
    {
        let te = &theme.entries[i];
        match find_key_str(&doc.entries, te.key.as_str()) {
            Some(j) => {
                proof {
                    lemma_first_key_index_of(doc.entries@, te.key@, j as int);
                }
                let e = MetaEntry { key: te.key.clone(), value: rc_dup(&doc.entries[j].value) };
                entries.push(e);
            },
            None => {
                entries.push(te.clone());
            },
        }
        i += 1;
    }
    proof {
        assert(entries@ =~= merged_entries(theme.entries@, doc.entries@));
    }
    Metadata { entries }
}

/// What a mapping becomes when one entry is written into it: an entry whose
/// key it already carries overwrites the value at the first position of that
/// key, keeping the position; a new key is appended at the end.
pub open spec fn insert_entry(entries: Seq<MetaEntry>, e: MetaEntry) -> Seq<MetaEntry> {
    if has_key(entries, e.key@) {
        let i = first_key_index(entries, e.key@);
        entries.update(i, MetaEntry { key: entries[i].key, value: e.value })
    } else {
        entries.push(e)
    }
}

/// A mapping with every entry of `extra` written into it, in order.
pub open spec fn inserted_all(entries: Seq<MetaEntry>, extra: Seq<MetaEntry>) -> Seq<MetaEntry>
    decreases extra.len(),
{
    if extra.len() == 0 {
        entries
    } else {
        inserted_all(insert_entry(entries, extra[0]), extra.drop_first())
    }
}

impl Metadata {
    /// The empty mapping.
    pub fn empty() -> (m: Metadata)
        ensures
            m.entries@ == Seq::<MetaEntry>::empty(),
    {
        let entries: Vec<MetaEntry> = Vec::new();
        proof {
            assert(entries@ =~= Seq::<MetaEntry>::empty());
        }
        Metadata { entries }
    }

    /// Writes every entry of `extra` into this mapping, in order: a key the
    /// mapping already carries is overwritten in place, a new key is
    /// appended. Unlike the theme merge, this plain overwrite may introduce
    /// new keys.
    pub fn apply_overrides(&mut self, extra: Metadata)
        ensures
            final(self).entries@ == inserted_all(old(self).entries@, extra.entries@),
    {
        let mut extra = extra;
        let ghost extra0 = extra.entries@;
        while extra.entries.len() > 0
            invariant
                inserted_all(old(self).entries@, extra0) == inserted_all(
                    self.entries@,
                    extra.entries@,
                ),
            decreases extra.entries@.len(),
        {
            let ghost before = self.entries@;
            let ghost pending = extra.entries@;
            let e = extra.entries.remove(0);
            proof {
                assert(extra.entries@ =~= pending.drop_first());
            }
            match find_key_str(&self.entries, e.key.as_str()) {
                Some(i) => {
                    proof {
                        lemma_first_key_index_of(self.entries@, e.key@, i as int);
                    }
                    let old_e = self.entries.remove(i);
                    self.entries.insert(i, MetaEntry { key: old_e.key, value: e.value });
                    proof {
                        assert(self.entries@ =~= insert_entry(before, e));
                    }
                },
                None => {
                    self.entries.push(e);
                    proof {
                        assert(self.entries@ =~= insert_entry(before, e));
                    }
                },
            }
        }
    }
}

/// The name of what the YAML parser returns for a text: the first document
/// of the text, as the library's tree, or nothing when the text is not YAML,
/// holds no document, or holds a mapping with a non-string key.
pub uninterp spec fn yaml_of(text: Seq<char>) -> Option<YamlNode>;

/// yaml_rust's parsed value, declared so the conversion can receive it.
#[verifier::external_type_specification]
#[verifier::external_body]
pub struct ExYaml(yaml_rust::Yaml);

/// Relies on yaml_rust::YamlLoader::load_from_str: parses YAML text into
/// documents; the result depends on the text alone. The first document is
/// kept and converted to the library's tree by `yaml_to_node`.
#[verifier::external_body]
pub(crate) fn parse_yaml_text(text: &str) -> (r: Option<YamlNode>)
    ensures
        r == yaml_of(text@),
{
    yaml_rust::YamlLoader::load_from_str(text)
        .ok()
        .and_then(|docs| docs.into_iter().next())
        .and_then(yaml_to_node)
}

/// Parses a metadata fragment, such as a command-line override: the text
/// must be a YAML mapping, which becomes a `Metadata`.
pub fn parse_metadata(text: &str) -> (r: Result<Metadata, DocdocError>)
    ensures
        match r {
            Ok(m) => yaml_of(text@) matches Some(YamlNode::Table(es)) && m.entries == es,
            Err(e) => e is MetadataParseError && !(yaml_of(text@) matches Some(
                YamlNode::Table(_),
            )),
        },
{
    match parse_yaml_text(text) {
        Some(node) => match node {
            YamlNode::Table(es) => Ok(Metadata { entries: es }),
            _ => Err(DocdocError::MetadataParseError),
        },
        None => Err(DocdocError::MetadataParseError),
    }
}

/// Relies on the shape of yaml_rust's `Yaml` tree: converts one parsed
/// document into the library's tree, one arm per variant. An alias or a bad
/// value makes the conversion fail. Called only from `parse_yaml_text`.
#[verifier::external_body]
fn yaml_to_node(y: yaml_rust::Yaml) -> Option<YamlNode> {
    match y {
        yaml_rust::Yaml::Null => Some(YamlNode::Null),
        yaml_rust::Yaml::Boolean(b) => Some(YamlNode::Boolean(b)),
        yaml_rust::Yaml::Integer(i) => Some(YamlNode::Integer(i)),
        yaml_rust::Yaml::Real(s) => Some(YamlNode::Real(s)),
        yaml_rust::Yaml::String(s) => Some(YamlNode::Text(s)),
        yaml_rust::Yaml::Array(items) => yaml_items_to_list(items),
        hash @ yaml_rust::Yaml::Hash(_) => yaml_hash_to_table(hash),
        _ => None,
    }
}

/// Relies on the shape of yaml_rust's `Yaml` tree: converts the items of a
/// parsed array, item by item. Called only from `yaml_to_node`.
#[verifier::external_body]
fn yaml_items_to_list(items: Vec<yaml_rust::Yaml>) -> Option<YamlNode> {
    items.into_iter().map(yaml_to_node).collect::<Option<Vec<YamlNode>>>().map(YamlNode::List)
}

/// Relies on the shape of yaml_rust's `Yaml` tree: converts the entries of a
/// parsed hash, entry by entry, keeping their order. A key that is not a
/// string makes the conversion fail. Called only from `yaml_to_node`.
#[verifier::external_body]
fn yaml_hash_to_table(y: yaml_rust::Yaml) -> Option<YamlNode> {
    match y {
        yaml_rust::Yaml::Hash(h) => h
            .into_iter()
            .map(|(k, v)| match k {
                yaml_rust::Yaml::String(s) => yaml_to_node(v).map(|n| MetaEntry {
                    key: s,
                    value: Rc::new(n),
                }),
                _ => None,
            })
            .collect::<Option<Vec<MetaEntry>>>()
            .map(YamlNode::Table),
        _ => None,
    }
}

} // verus!
