//! YAML documents, as far as the catalogs read them.

use vstd::prelude::*;

verus! {

/// A YAML document. Scalars other than strings are not told apart.
#[derive(Debug)]
pub enum Yaml {
    Text(String),
    Sequence(Vec<Yaml>),
    /// The entries of a mapping, in the order of the document.
    Mapping(Vec<(Yaml, Yaml)>),
    /// A value under a tag.
    Tagged(Box<Yaml>),
    /// A number that is a non-negative integer.
    Integer(u64),
    /// Null, a boolean or another number.
    Other,
}

/// What `serde_yaml` reads from a text, or `None` where it reports an error.
pub uninterp spec fn parsed_yaml(text: Seq<char>) -> Option<Yaml>;

/// `serde_yaml::Value`, carried between the wrappers below and never looked
/// into.
#[verifier::external_type_specification]
#[verifier::external_body]
pub struct ExYamlValue(serde_yaml::Value);

/// Reads a `serde_yaml::Value` into a document of this library, variant by
/// variant; a tagged value keeps its value and loses the tag's name, and a
/// number is kept where `as_u64` gives it.
#[verifier::external_body]
fn yaml_of_value(v: &serde_yaml::Value) -> Yaml {
    match v {
        serde_yaml::Value::String(s) => Yaml::Text(s.clone()),
        serde_yaml::Value::Sequence(items) => Yaml::Sequence(
            items.iter().map(yaml_of_value).collect(),
        ),
        serde_yaml::Value::Mapping(m) => Yaml::Mapping(
            m.iter().map(|(k, x)| (yaml_of_value(k), yaml_of_value(x))).collect(),
        ),
        serde_yaml::Value::Tagged(t) => Yaml::Tagged(Box::new(yaml_of_value(&t.value))),
        serde_yaml::Value::Number(n) => n.as_u64().map(Yaml::Integer).unwrap_or(Yaml::Other),
        _ => Yaml::Other,
    }
}

/// `serde_yaml::from_str` at `serde_yaml::Value`: the document that the text
/// holds, or `None` where the text is not YAML. What it returns depends on
/// the text alone.
#[verifier::external_body]
fn parse_text(text: &str) -> (r: Option<Yaml>)
    ensures
        r == parsed_yaml(text@),
{
    match serde_yaml::from_str::<serde_yaml::Value>(text) {
        Ok(v) => Some(yaml_of_value(&v)),
        Err(_) => None,
    }
}

/// The value under any tags.
pub open spec fn untagged(y: Yaml) -> Yaml
    decreases y,
{
    match y {
        Yaml::Tagged(inner) => untagged(*inner),
        _ => y,
    }
}

/// The text of a string, looked at under any tags.
pub open spec fn text_of(y: Yaml) -> Option<Seq<char>> {
    match untagged(y) {
        Yaml::Text(s) => Some(s@),
        _ => None,
    }
}

/// The text of a string, or no text for anything else.
pub open spec fn text_or_empty(y: Yaml) -> Seq<char> {
    match text_of(y) {
        Some(s) => s,
        None => Seq::empty(),
    }
}

/// The value of the first entry whose key is the untagged string `key`.
pub open spec fn lookup(entries: Seq<(Yaml, Yaml)>, key: Seq<char>) -> Option<Yaml>
    decreases entries.len(),
{
    if entries.len() == 0 {
        None
    } else if entries[0].0 matches Yaml::Text(s) && s@ == key {
        Some(entries[0].1)
    } else {
        lookup(entries.drop_first(), key)
    }
}

impl Yaml {
    /// Reads a document from its text.
    pub fn parse(text: &str) -> (r: Option<Yaml>)
        ensures
            r == parsed_yaml(text@),
    {
        parse_text(text)
    }

    /// The value under any tags.
    pub fn untag(&self) -> (r: &Yaml)
        ensures
            *r == untagged(*self),
        decreases self,
    {
        match self {
            Yaml::Tagged(inner) => inner.untag(),
            _ => self,
        }
    }

    /// The string that the value holds under any tags.
    pub fn as_text(&self) -> (r: Option<&String>)
        ensures
            match r {
                Some(s) => text_of(*self) == Some(s@),
                None => text_of(*self) is None,
            },
    {
        match self.untag() {
            Yaml::Text(s) => Some(s),
            _ => None,
        }
    }
}

/// The value of the entry of a mapping whose key is the string `key`.
pub fn find_value<'a>(entries: &'a Vec<(Yaml, Yaml)>, key: &str) -> (r: Option<&'a Yaml>)
    ensures
        match r {
            Some(v) => lookup(entries@, key@) == Some(*v),
            None => lookup(entries@, key@) is None,
        },
{
    let wanted = key.to_owned();
    let mut i: usize = 0;
    assert(entries@.subrange(0, entries@.len() as int) =~= entries@);
    while i < entries.len()
        invariant
            i <= entries.len(),
            wanted@ == key@,
            lookup(entries@, key@) == lookup(
                entries@.subrange(i as int, entries@.len() as int),
                key@,
            ),
        decreases entries.len() - i,
    {
        let ghost rest = entries@.subrange(i as int, entries@.len() as int);
        assert(rest[0] == entries@[i as int]);
        assert(rest.drop_first() =~= entries@.subrange(i + 1, entries@.len() as int));
        match &entries[i].0 {
            Yaml::Text(s) => {
                if *s == wanted {
                    return Some(&entries[i].1);
                }
            },
            _ => {},
        }
        i += 1;
    }
    None
}

} // verus!
