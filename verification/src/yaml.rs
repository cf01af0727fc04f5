//! Reading configuration values: the YAML values that operators and pipeline
//! nodes are configured with.

use vstd::prelude::*;

verus! {

/// A YAML value of `serde_yaml`, carried as an opaque value.
#[verifier::external_type_specification]
#[verifier::external_body]
pub struct ExYamlValue(serde_yaml::Value);

/// What a YAML value is, as the typed accessors tell it: `UInt` is a
/// non-negative integer that fits `u64`, `Number` any other number.
pub enum YamlKind {
    Null,
    Bool(bool),
    UInt(u64),
    Number,
    Text(Seq<char>),
    Sequence,
    Mapping,
}

/// The kind of a YAML value.
pub uninterp spec fn yaml_kind(v: serde_yaml::Value) -> YamlKind;

/// The entries of a YAML mapping that stand under a string key, by key. A
/// value that is no mapping has none.
pub uninterp spec fn yaml_entries(v: serde_yaml::Value) -> Map<Seq<char>, serde_yaml::Value>;

/// The entries of a YAML mapping as pairs of key and value, in the order of
/// the mapping. A value that is no mapping has none.
pub uninterp spec fn yaml_pairs(v: serde_yaml::Value) -> Seq<(serde_yaml::Value, serde_yaml::Value)>;

/// The view of an optional string.
pub open spec fn owned_text_view(r: Option<String>) -> Option<Seq<char>> {
    match r {
        Some(s) => Some(s@),
        None => None,
    }
}

/// The text of `v`, if it is a string.
pub open spec fn yaml_text(v: serde_yaml::Value) -> Option<Seq<char>> {
    if yaml_kind(v) is Text {
        Some(yaml_kind(v)->Text_0)
    } else {
        None
    }
}

/// The text under the string key `k` of a mapping.
pub open spec fn yaml_text_at(v: serde_yaml::Value, k: Seq<char>) -> Option<Seq<char>> {
    if yaml_entries(v).contains_key(k) {
        yaml_text(yaml_entries(v)[k])
    } else {
        None
    }
}

/// The boolean under the string key `k` of a mapping.
pub open spec fn yaml_bool_at(v: serde_yaml::Value, k: Seq<char>) -> Option<bool> {
    if yaml_entries(v).contains_key(k) && yaml_kind(yaml_entries(v)[k]) is Bool {
        Some(yaml_kind(yaml_entries(v)[k])->Bool_0)
    } else {
        None
    }
}

/// The non-negative integer under the string key `k` of a mapping.
pub open spec fn yaml_uint_at(v: serde_yaml::Value, k: Seq<char>) -> Option<u64> {
    if yaml_entries(v).contains_key(k) && yaml_kind(yaml_entries(v)[k]) is UInt {
        Some(yaml_kind(yaml_entries(v)[k])->UInt_0)
    } else {
        None
    }
}

/// `serde_yaml::Value::get` with a string key: the entry of a mapping under
/// `k`; `None` where there is none or the value is no mapping.
#[verifier::external_body]
pub(crate) fn yaml_get<'a>(v: &'a serde_yaml::Value, k: &str) -> (r: Option<&'a serde_yaml::Value>)
    ensures
        r == (if yaml_entries(*v).contains_key(k@) {
            Some(&yaml_entries(*v)[k@])
        } else {
            None
        }),
{
    v.get(k)
}

/// `serde_yaml::Value::as_str`, copied: the text of a string, `None` for any other value.
#[verifier::external_body]
pub(crate) fn yaml_as_string(v: &serde_yaml::Value) -> (r: Option<String>)
    ensures
        owned_text_view(r) == yaml_text(*v),
{
    v.as_str().map(|s| s.to_string())
}

/// `serde_yaml::Value::as_bool`.
#[verifier::external_body]
pub(crate) fn yaml_as_bool(v: &serde_yaml::Value) -> (r: Option<bool>)
    ensures
        r == (if yaml_kind(*v) is Bool {
            Some(yaml_kind(*v)->Bool_0)
        } else {
            None
        }),
{
    v.as_bool()
}

/// `serde_yaml::Value::as_u64`.
#[verifier::external_body]
pub(crate) fn yaml_as_u64(v: &serde_yaml::Value) -> (r: Option<u64>)
    ensures
        r == (if yaml_kind(*v) is UInt {
            Some(yaml_kind(*v)->UInt_0)
        } else {
            None
        }),
{
    v.as_u64()
}

/// `serde_yaml::Value::is_mapping`.
#[verifier::external_body]
pub(crate) fn yaml_is_mapping(v: &serde_yaml::Value) -> (r: bool)
    ensures
        r == (yaml_kind(*v) is Mapping),
{
    v.is_mapping()
}

/// `serde_yaml::Mapping::iter`, copied: the entries of a mapping in order;
/// none for a value that is no mapping.
#[verifier::external_body]
pub(crate) fn yaml_pairs_of(v: &serde_yaml::Value) -> (r: Vec<(serde_yaml::Value, serde_yaml::Value)>)
    ensures
        r@ == yaml_pairs(*v),
{
    match v.as_mapping() {
        Some(m) => m.iter().map(|(k, x)| (k.clone(), x.clone())).collect(),
        None => Vec::new(),
    }
}

/// `Clone` of `serde_yaml::Value`: an equal value.
#[verifier::external_body]
pub(crate) fn yaml_clone(v: &serde_yaml::Value) -> (r: serde_yaml::Value)
    ensures
        r == *v,
{
    v.clone()
}

/// The text under `key` of a configuration mapping.
pub fn str_field(config: &serde_yaml::Value, key: &str) -> (r: Option<String>)
    ensures
        owned_text_view(r) == yaml_text_at(*config, key@),
{
    match yaml_get(config, key) {
        Some(v) => yaml_as_string(v),
        None => None,
    }
}

/// The boolean under `key` of a configuration mapping.
pub fn bool_field(config: &serde_yaml::Value, key: &str) -> (r: Option<bool>)
    ensures
        r == yaml_bool_at(*config, key@),
{
    match yaml_get(config, key) {
        Some(v) => yaml_as_bool(v),
        None => None,
    }
}

/// The non-negative integer under `key` of a configuration mapping.
pub fn u64_field(config: &serde_yaml::Value, key: &str) -> (r: Option<u64>)
    ensures
        r == yaml_uint_at(*config, key@),
{
    match yaml_get(config, key) {
        Some(v) => yaml_as_u64(v),
        None => None,
    }
}

} // verus!
