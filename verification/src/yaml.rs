//! A YAML document tree and the lookups that configuration checks make on it.
//!
//! Text is parsed with `serde_yaml`; its tree is carried over one node for
//! one node into [`YamlValue`], on which all further logic is verified.
use serde_yaml::Value as V;
use vstd::prelude::*;

verus! {

/// A YAML number.
#[derive(Debug, Clone)]
pub enum YamlNumber {
    /// A non-negative integer.
    PosInt(u64),
    /// A negative integer.
    NegInt(i64),
    /// A floating-point number, kept as the text that YAML prints for it.
    Float(String),
}

/// A YAML value: null, boolean, number, string, sequence, mapping (entries in
/// document order, keys unique), or a value with a `!tag`.
#[derive(Debug)]
pub enum YamlValue {
    Null,
    Bool(bool),
    Number(YamlNumber),
    String(String),
    Sequence(Vec<YamlValue>),
    Mapping(Vec<(YamlValue, YamlValue)>),
    Tagged(String, Box<YamlValue>),
}

/// The value under all its tags.
pub open spec fn untag(v: YamlValue) -> YamlValue
    decreases v,
{
    match v {
        YamlValue::Tagged(_, inner) => untag(*inner),
        _ => v,
    }
}

/// Whether a mapping key is the plain string `key`.
pub open spec fn is_string_key(k: YamlValue, key: Seq<char>) -> bool {
    match k {
        YamlValue::String(s) => s@ == key,
        _ => false,
    }
}

/// The value of the first entry, at `i` or later, whose key is the string
/// `key`.
pub open spec fn entry_lookup(entries: Seq<(YamlValue, YamlValue)>, key: Seq<char>, i: int) -> Option<
    YamlValue,
>
    decreases entries.len() - i,
{
    if i < 0 || i >= entries.len() {
        None
    } else if is_string_key(entries[i].0, key) {
        Some(entries[i].1)
    } else {
        entry_lookup(entries, key, i + 1)
    }
}

/// The value that a mapping holds under the string `key`; nothing for
/// anything but a mapping (tags are looked through).
pub open spec fn yaml_get(v: YamlValue, key: Seq<char>) -> Option<YamlValue> {
    match untag(v) {
        YamlValue::Mapping(entries) => entry_lookup(entries@, key, 0),
        _ => None,
    }
}

/// The value as a non-negative integer, if it is one.
pub open spec fn yaml_as_u64(v: YamlValue) -> Option<u64> {
    match untag(v) {
        YamlValue::Number(YamlNumber::PosInt(n)) => Some(n),
        _ => None,
    }
}

/// The value as a boolean, if it is one.
pub open spec fn yaml_as_bool(v: YamlValue) -> Option<bool> {
    match untag(v) {
        YamlValue::Bool(b) => Some(b),
        _ => None,
    }
}

/// The non-negative integer under `key`, if there is one.
pub open spec fn get_u64(v: YamlValue, key: Seq<char>) -> Option<u64> {
    match yaml_get(v, key) {
        Some(x) => yaml_as_u64(x),
        None => None,
    }
}

/// The boolean under `key`, if there is one.
pub open spec fn get_bool(v: YamlValue, key: Seq<char>) -> Option<bool> {
    match yaml_get(v, key) {
        Some(x) => yaml_as_bool(x),
        None => None,
    }
}

/// The value behind an optional reference.
pub open spec fn deref_opt(o: Option<&YamlValue>) -> Option<YamlValue> {
    match o {
        Some(x) => Some(*x),
        None => None,
    }
}

impl YamlValue {
    /// The value under all its tags.
    pub fn untag_ref(&self) -> (r: &YamlValue)
        ensures
            *r == untag(*self),
        decreases self,
    {
        match self {
            YamlValue::Tagged(_, inner) => inner.untag_ref(),
            _ => self,
        }
    }

    /// The value that a mapping holds under the string `key`.
    pub fn get(&self, key: &str) -> (r: Option<&YamlValue>)
        ensures
            deref_opt(r) == yaml_get(*self, key@),
    {
        let u = self.untag_ref();
        match u {
            YamlValue::Mapping(entries) => {
                let wanted = String::from_str(key);
                let mut i: usize = 0;
                while i < entries.len()
                    invariant
                        i <= entries.len(),
                        wanted@ == key@,
                        untag(*self) == YamlValue::Mapping(*entries),
                        entry_lookup(entries@, key@, 0) == entry_lookup(entries@, key@, i as int),
                    decreases entries.len() - i,
                {
                    let found = match &entries[i].0 {
                        YamlValue::String(s) => *s == wanted,
                        _ => false,
                    };
                    assert(found == is_string_key(entries@[i as int].0, key@));
                    if found {
                        assert(is_string_key(entries@[i as int].0, key@));
                        return Some(&entries[i].1);
                    }
                    i = i + 1;
                }
                None
            },
            _ => None,
        }
    }

    /// The value as a non-negative integer, if it is one.
    pub fn as_u64(&self) -> (r: Option<u64>)
        ensures
            r == yaml_as_u64(*self),
    {
        match self.untag_ref() {
            YamlValue::Number(YamlNumber::PosInt(n)) => Some(*n),
            _ => None,
        }
    }

    /// The value as a boolean, if it is one.
    pub fn as_bool(&self) -> (r: Option<bool>)
        ensures
            r == yaml_as_bool(*self),
    {
        match self.untag_ref() {
            YamlValue::Bool(b) => Some(*b),
            _ => None,
        }
    }
}

/// The outside crate's document tree.
#[verifier::external_type_specification]
#[verifier::external_body]
pub struct ExYamlTree(serde_yaml::Value);

/// The outside crate's parse error.
#[verifier::external_type_specification]
#[verifier::external_body]
pub struct ExYamlError(serde_yaml::Error);

/// The tree that `serde_yaml` parses a text into, carried over into
/// [`YamlValue`]; nothing if it refuses the text.
pub uninterp spec fn parsed_yaml(text: Seq<char>) -> Option<YamlValue>;

/// The outside crate's number.
#[verifier::external_type_specification]
#[verifier::external_body]
pub struct ExYamlNumber(serde_yaml::Number);

/// Carries a `serde_yaml::Number` over into a [`YamlNumber`]: told apart by
/// `Number::as_u64` and `Number::as_i64`; a float keeps the text that
/// `Number` displays. Nothing is stated of it: the outside number is opaque
/// here.
#[verifier::external_body]
fn number_from_outside(n: serde_yaml::Number) -> YamlNumber {
    match (n.as_u64(), n.as_i64()) {
        (Some(u), _) => YamlNumber::PosInt(u),
        (None, Some(i)) => YamlNumber::NegInt(i),
        _ => YamlNumber::Float(n.to_string()),
    }
}

/// Carries a `serde_yaml::Value` over into a [`YamlValue`], node for node:
/// each variant becomes the variant of the same name, mapping entries keep
/// their order and a tag keeps its text. Nothing is stated of it: the
/// outside tree is opaque here; what the parse gives back is named by
/// [`parsed_yaml`].
#[verifier::external_body]
fn yaml_from_outside(v: serde_yaml::Value) -> YamlValue {
    match v {
        V::Null => YamlValue::Null,
        V::Bool(b) => YamlValue::Bool(b),
        V::Number(n) => YamlValue::Number(number_from_outside(n)),
        V::String(s) => YamlValue::String(s),
        V::Sequence(items) => YamlValue::Sequence(items.into_iter().map(yaml_from_outside).collect()),
        V::Mapping(m) => YamlValue::Mapping(m.into_iter().map(|(k, x)| (yaml_from_outside(k), yaml_from_outside(x))).collect()),
        V::Tagged(t) => YamlValue::Tagged(t.tag.to_string(), Box::new(yaml_from_outside(t.value))),
    }
}

/// Calls `serde_yaml::from_str` to parse a document into a
/// `serde_yaml::Value`. The parse depends on the text alone: the result is
/// the tree named by [`parsed_yaml`], or the parser's error exactly when
/// that name gives nothing.
#[verifier::external_body]
pub(crate) fn parse_yaml(text: &str) -> (r: Result<YamlValue, serde_yaml::Error>)
    ensures
        match r {
            Ok(v) => parsed_yaml(text@) == Some(v),
            Err(_) => parsed_yaml(text@) is None,
        },
{
    serde_yaml::from_str::<serde_yaml::Value>(text).map(yaml_from_outside)
}

} // verus!
