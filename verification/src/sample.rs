//! The record that flows through a pipeline: one JSON object per row, with
//! typed accessors and mutators.

use vstd::prelude::*;

verus! {

/// A JSON value of `serde_json`, carried as an opaque value.
#[verifier::external_type_specification]
#[verifier::external_body]
pub struct ExJsonValue(serde_json::Value);

/// The map type behind a JSON object in `serde_json`.
#[verifier::external_type_specification]
#[verifier::external_body]
#[verifier::reject_recursive_types(K)]
#[verifier::reject_recursive_types(V)]
pub struct ExJsonMap<K, V>(serde_json::Map<K, V>);

/// What a JSON value is at its top level, as the typed accessors tell it:
/// `Int` is a number that fits a signed 64-bit integer, `Float` a number
/// held in floating point, `Number` any other.
pub enum JsonKind {
    Null,
    Bool(bool),
    Int(i64),
    Float,
    Number,
    Text(Seq<char>),
    Array,
    Object,
}

/// The kind of a JSON value.
pub uninterp spec fn json_kind(v: serde_json::Value) -> JsonKind;

/// The entries of a JSON object by key. A value that is no object has none.
pub uninterp spec fn json_entries(v: serde_json::Value) -> Map<Seq<char>, serde_json::Value>;

/// What the 64-bit XXH3 hash gives for the bytes and the seed.
pub uninterp spec fn xxh3_64(input: Seq<u8>, seed: u64) -> u64;

/// The kinds of the entries of a JSON value, by key.
pub open spec fn kinds_of(v: serde_json::Value) -> Map<Seq<char>, JsonKind> {
    json_entries(v).map_values(|x: serde_json::Value| json_kind(x))
}

/// The text under `k`, if `k` holds a string.
pub open spec fn text_at(m: Map<Seq<char>, JsonKind>, k: Seq<char>) -> Option<Seq<char>> {
    if m.contains_key(k) && m[k] is Text {
        Some(m[k]->Text_0)
    } else {
        None
    }
}

/// The integer under `k`, if `k` holds a number that fits `i64`.
pub open spec fn int_at(m: Map<Seq<char>, JsonKind>, k: Seq<char>) -> Option<i64> {
    if m.contains_key(k) && m[k] is Int {
        Some(m[k]->Int_0)
    } else {
        None
    }
}

/// The boolean under `k`, if `k` holds one.
pub open spec fn bool_at(m: Map<Seq<char>, JsonKind>, k: Seq<char>) -> Option<bool> {
    if m.contains_key(k) && m[k] is Bool {
        Some(m[k]->Bool_0)
    } else {
        None
    }
}

/// The view of an optional string.
pub open spec fn text_view(r: Option<&str>) -> Option<Seq<char>> {
    match r {
        Some(s) => Some(s@),
        None => None,
    }
}

/// `serde_json::Map::new` inside `Value::Object`: an object without entries.
#[verifier::external_body]
fn json_object() -> (r: serde_json::Value)
    ensures
        json_kind(r) is Object,
        json_entries(r) =~= Map::empty(),
{
    serde_json::Value::Object(serde_json::Map::new())
}

/// `serde_json::Value::String`: the string value holding `s`.
#[verifier::external_body]
fn json_text(s: String) -> (r: serde_json::Value)
    ensures
        json_kind(r) == JsonKind::Text(s@),
{
    serde_json::Value::String(s)
}

/// `serde_json::Number::from` an `i64`, inside `Value::Number`: the number `i`,
/// which `as_i64` gives back.
#[verifier::external_body]
fn json_int(i: i64) -> (r: serde_json::Value)
    ensures
        json_kind(r) == JsonKind::Int(i),
{
    serde_json::Value::Number(serde_json::Number::from(i))
}

/// `serde_json::Value::Bool`.
#[verifier::external_body]
fn json_bool(b: bool) -> (r: serde_json::Value)
    ensures
        json_kind(r) == JsonKind::Bool(b),
{
    serde_json::Value::Bool(b)
}

/// `serde_json::Value::Null`.
#[verifier::external_body]
fn json_null() -> (r: serde_json::Value)
    ensures
        json_kind(r) is Null,
{
    serde_json::Value::Null
}

/// `Clone` of `serde_json::Value`: an equal value.
#[verifier::external_body]
fn json_clone(v: &serde_json::Value) -> (r: serde_json::Value)
    ensures
        r == *v,
{
    v.clone()
}

/// `serde_json::Value::get` with a string key: the entry of an object under
/// `k`; `None` where there is none or the value is no object.
#[verifier::external_body]
fn json_get<'a>(v: &'a serde_json::Value, k: &str) -> (r: Option<&'a serde_json::Value>)
    ensures
        r == (if json_entries(*v).contains_key(k@) {
            Some(&json_entries(*v)[k@])
        } else {
            None
        }),
{
    v.get(k)
}

/// `serde_json::Value::as_str`: the text of a string value, `None` for any other.
#[verifier::external_body]
fn json_as_str<'a>(v: &'a serde_json::Value) -> (r: Option<&'a str>)
    ensures
        text_view(r) == (if json_kind(*v) is Text {
            Some(json_kind(*v)->Text_0)
        } else {
            None
        }),
{
    v.as_str()
}

/// `serde_json::Value::as_i64`: a number that fits `i64`, `None` for any other value.
#[verifier::external_body]
fn json_as_i64(v: &serde_json::Value) -> (r: Option<i64>)
    ensures
        r == (if json_kind(*v) is Int {
            Some(json_kind(*v)->Int_0)
        } else {
            None
        }),
{
    v.as_i64()
}

/// `serde_json::Value::as_bool`.
#[verifier::external_body]
fn json_as_bool(v: &serde_json::Value) -> (r: Option<bool>)
    ensures
        r == (if json_kind(*v) is Bool {
            Some(json_kind(*v)->Bool_0)
        } else {
            None
        }),
{
    v.as_bool()
}

/// `serde_json::Value::is_f64`: whether the value is a number held in
/// floating point.
#[verifier::external_body]
fn json_is_f64(v: &serde_json::Value) -> (r: bool)
    ensures
        r == (json_kind(*v) is Float),
{
    v.is_f64()
}

/// `serde_json::Value::as_array`: the elements of an array, `None` for any other value.
#[verifier::external_body]
fn json_as_array<'a>(v: &'a serde_json::Value) -> (r: Option<&'a Vec<serde_json::Value>>)
    ensures
        r.is_some() == (json_kind(*v) is Array),
{
    v.as_array()
}

/// `serde_json::Value::as_object`: the map of an object, `None` for any other value.
#[verifier::external_body]
fn json_as_object<'a>(v: &'a serde_json::Value) -> (r: Option<
    &'a serde_json::Map<String, serde_json::Value>,
>)
    ensures
        r.is_some() == (json_kind(*v) is Object),
{
    v.as_object()
}

/// `serde_json::Map::insert` on the map of an object: the entry under `k`
/// becomes `x`. A value that is no object is left as it is.
#[verifier::external_body]
fn json_insert(v: &mut serde_json::Value, k: String, x: serde_json::Value)
    ensures
        json_kind(*final(v)) == json_kind(*old(v)),
        json_kind(*old(v)) is Object ==> json_entries(*final(v)) == json_entries(*old(v)).insert(
            k@,
            x,
        ),
        !(json_kind(*old(v)) is Object) ==> *final(v) == *old(v),
{
    if let serde_json::Value::Object(map) = v {
        map.insert(k, x);
    }
}

/// `serde_json::Map::remove` on the map of an object: the entry under `k`
/// leaves and is returned. A value that is no object is left as it is.
#[verifier::external_body]
fn json_remove(v: &mut serde_json::Value, k: &str) -> (r: Option<serde_json::Value>)
    ensures
        json_kind(*final(v)) == json_kind(*old(v)),
        json_kind(*old(v)) is Object ==> json_entries(*final(v)) == json_entries(*old(v)).remove(
            k@,
        ),
        !(json_kind(*old(v)) is Object) ==> *final(v) == *old(v),
        r == (if json_kind(*old(v)) is Object && json_entries(*old(v)).contains_key(k@) {
            Some(json_entries(*old(v))[k@])
        } else {
            None
        }),
{
    match v {
        serde_json::Value::Object(map) => map.remove(k),
        _ => None,
    }
}

/// `serde_json::Map::keys` of an object: each key once, in the order the map
/// walks them; none for a value that is no object.
#[verifier::external_body]
fn json_keys(v: &serde_json::Value) -> (r: Vec<String>)
    ensures
        (forall|i: int| 0 <= i < r.len() ==> json_entries(*v).contains_key(#[trigger] r@[i]@)),
        (forall|k: Seq<char>|
            json_entries(*v).contains_key(k) ==> exists|i: int|
                0 <= i < r.len() && #[trigger] r@[i]@ == k),
        (forall|i: int, j: int| 0 <= i < j < r.len() ==> r@[i]@ != r@[j]@),
{
    match v {
        serde_json::Value::Object(map) => map.keys().cloned().collect(),
        _ => Vec::new(),
    }
}

/// `xxhash_rust::xxh3::xxh3_64_with_seed`.
#[verifier::external_body]
fn hash_with_seed(input: &[u8], seed: u64) -> (h: u64)
    ensures
        h == xxh3_64(input@, seed),
{
    xxhash_rust::xxh3::xxh3_64_with_seed(input, seed)
}

/// The kind of a JSON value without what it holds.
#[derive(Clone, Copy, PartialEq, Eq, Structural, Debug)]
pub enum KindTag {
    Null,
    Bool,
    Number,
    Text,
    Array,
    Object,
}

/// The tag of a kind.
pub open spec fn tag_of(kind: JsonKind) -> KindTag {
    match kind {
        JsonKind::Null => KindTag::Null,
        JsonKind::Bool(_) => KindTag::Bool,
        JsonKind::Int(_) => KindTag::Number,
        JsonKind::Float => KindTag::Number,
        JsonKind::Number => KindTag::Number,
        JsonKind::Text(_) => KindTag::Text,
        JsonKind::Array => KindTag::Array,
        JsonKind::Object => KindTag::Object,
    }
}

/// The variant of a `serde_json::Value`.
#[verifier::external_body]
pub(crate) fn kind_tag(v: &serde_json::Value) -> (r: KindTag)
    ensures
        r == tag_of(json_kind(*v)),
{
    match v {
        serde_json::Value::Null => KindTag::Null,
        serde_json::Value::Bool(_) => KindTag::Bool,
        serde_json::Value::Number(_) => KindTag::Number,
        serde_json::Value::String(_) => KindTag::Text,
        serde_json::Value::Array(_) => KindTag::Array,
        serde_json::Value::Object(_) => KindTag::Object,
    }
}

/// A copy of a JSON value.
pub fn copy_value(v: &serde_json::Value) -> (r: serde_json::Value)
    ensures
        r == *v,
{
    json_clone(v)
}

/// One row of data: a JSON value that is, by convention, an object.
pub struct Sample(pub serde_json::Value);

impl View for Sample {
    type V = Map<Seq<char>, JsonKind>;

    /// The kind of value under each column name.
    open spec fn view(&self) -> Map<Seq<char>, JsonKind> {
        kinds_of(self.0)
    }
}

impl Clone for Sample {
    fn clone(&self) -> (r: Self)
        ensures
            r == *self,
    {
        Sample(json_clone(&self.0))
    }
}

impl Default for Sample {
    fn default() -> (r: Self)
        ensures
            r.is_object(),
            r@ == Map::<Seq<char>, JsonKind>::empty(),
    {
        Sample::new()
    }
}

/// The top 53 bits of a hash: the numerator of a fraction of 2^53 in [0, 1).
pub fn unit_interval_numerator(h: u64) -> (r: u64)
    ensures
        r == h >> 11,
        r < 0x20_0000_0000_0000,
{
    assert(h >> 11 < 0x20_0000_0000_0000u64) by (bit_vector);
    h >> 11
}

impl Sample {
    /// Whether the record is a JSON object, as every record made by `new` is.
    pub open spec fn is_object(&self) -> bool {
        json_kind(self.0) is Object
    }

    /// The values of the record by column name.
    pub open spec fn entries(&self) -> Map<Seq<char>, serde_json::Value> {
        json_entries(self.0)
    }

    /// The record with column `k` set to a value of kind `x`, where the record
    /// is an object: every other column keeps its value.
    pub open spec fn with_column(&self, k: Seq<char>, x: JsonKind, after: Sample) -> bool {
        &&& after.is_object() == self.is_object()
        &&& self.is_object() ==> {
            &&& after@ == self@.insert(k, x)
            &&& after.entries().contains_key(k)
            &&& json_kind(after.entries()[k]) == x
            &&& after.entries().remove(k) == self.entries().remove(k)
        }
        &&& !self.is_object() ==> after == *self
    }

    /// A record without columns.
    pub fn new() -> (r: Self)
        ensures
            r.is_object(),
            r@ == Map::<Seq<char>, JsonKind>::empty(),
            r.entries() == Map::<Seq<char>, serde_json::Value>::empty(),
    {
        let r = Sample(json_object());
        assert(r@ =~= Map::<Seq<char>, JsonKind>::empty());
        r
    }

    /// The record that is `value`, if `value` is an object.
    pub fn from_value(value: serde_json::Value) -> (r: Option<Self>)
        ensures
            r == (if json_kind(value) is Object {
                Some(Sample(value))
            } else {
                None
            }),
    {
        match kind_tag(&value) {
            KindTag::Object => Some(Sample(value)),
            _ => None,
        }
    }

    pub fn into_value(self) -> (r: serde_json::Value)
        ensures
            r == self.0,
    {
        self.0
    }

    pub fn as_value(&self) -> (r: &serde_json::Value)
        ensures
            *r == self.0,
    {
        &self.0
    }

    pub fn as_value_mut(&mut self) -> (r: &mut serde_json::Value)
        ensures
            *r == old(self).0,
            final(self).0 == *final(r),
    {
        &mut self.0
    }

    pub fn get_str(&self, k: &str) -> (r: Option<&str>)
        ensures
            text_view(r) == text_at(self@, k@),
    {
        match json_get(&self.0, k) {
            Some(v) => json_as_str(v),
            None => None,
        }
    }

    pub fn get_i64(&self, k: &str) -> (r: Option<i64>)
        ensures
            r == int_at(self@, k@),
    {
        match json_get(&self.0, k) {
            Some(v) => json_as_i64(v),
            None => None,
        }
    }

    pub fn get_bool(&self, k: &str) -> (r: Option<bool>)
        ensures
            r == bool_at(self@, k@),
    {
        match json_get(&self.0, k) {
            Some(v) => json_as_bool(v),
            None => None,
        }
    }

    pub fn get_array(&self, k: &str) -> (r: Option<&Vec<serde_json::Value>>)
        ensures
            r.is_some() == (self@.contains_key(k@) && self@[k@] is Array),
    {
        match json_get(&self.0, k) {
            Some(v) => json_as_array(v),
            None => None,
        }
    }

    pub fn get_object(&self, k: &str) -> (r: Option<&serde_json::Map<String, serde_json::Value>>)
        ensures
            r.is_some() == (self@.contains_key(k@) && self@[k@] is Object),
    {
        match json_get(&self.0, k) {
            Some(v) => json_as_object(v),
            None => None,
        }
    }

    pub fn get(&self, k: &str) -> (r: Option<&serde_json::Value>)
        ensures
            r.is_some() == self@.contains_key(k@),
            r.is_some() ==> json_kind(*r.unwrap()) == self@[k@] && *r.unwrap() == json_entries(
                self.0,
            )[k@],
    {
        json_get(&self.0, k)
    }

    /// The value under `k`, if it is a number held in floating point.
    pub fn get_float(&self, k: &str) -> (r: Option<&serde_json::Value>)
        ensures
            r.is_some() == (self@.contains_key(k@) && self@[k@] is Float),
            r.is_some() ==> *r.unwrap() == json_entries(self.0)[k@],
    {
        match json_get(&self.0, k) {
            Some(v) => if json_is_f64(v) {
                Some(v)
            } else {
                None
            },
            None => None,
        }
    }

    /// Whether the record has a column `k`.
    pub fn has(&self, k: &str) -> (r: bool)
        ensures
            r == self@.contains_key(k@),
    {
        json_get(&self.0, k).is_some()
    }

    /// The column names, each once.
    pub fn keys(&self) -> (r: Vec<String>)
        ensures
            forall|i: int| 0 <= i < r.len() ==> self@.contains_key(#[trigger] r@[i]@),
            forall|k: Seq<char>|
                self@.contains_key(k) ==> exists|i: int| 0 <= i < r.len() && #[trigger] r@[i]@ == k,
            forall|i: int, j: int| 0 <= i < j < r.len() ==> r@[i]@ != r@[j]@,
    {
        json_keys(&self.0)
    }

    pub fn set_str(&mut self, k: &str, v: &str)
        ensures
            old(self).with_column(k@, JsonKind::Text(v@), *final(self)),
    {
        self.set_value(k, json_text(v.to_string()));
    }

    pub fn set_i64(&mut self, k: &str, v: i64)
        ensures
            old(self).with_column(k@, JsonKind::Int(v), *final(self)),
    {
        self.set_value(k, json_int(v));
    }

    pub fn set_bool(&mut self, k: &str, v: bool)
        ensures
            old(self).with_column(k@, JsonKind::Bool(v), *final(self)),
    {
        self.set_value(k, json_bool(v));
    }

    pub fn set_null(&mut self, k: &str)
        ensures
            old(self).with_column(k@, JsonKind::Null, *final(self)),
    {
        self.set_value(k, json_null());
    }

    pub fn set_value(&mut self, k: &str, v: serde_json::Value)
        ensures
            old(self).with_column(k@, json_kind(v), *final(self)),
            old(self).is_object() ==> json_entries(final(self).0) == json_entries(old(self).0).insert(
                k@,
                v,
            ),
    {
        json_insert(&mut self.0, k.to_string(), v);
        assert(old(self).is_object() ==> self@ =~= old(self)@.insert(k@, json_kind(v)));
        assert(old(self).is_object() ==> self.entries().remove(k@) =~= old(self).entries().remove(k@));
    }

    /// Takes column `k` out of the record and returns the value it held;
    /// every other column keeps its value.
    pub fn remove(&mut self, k: &str) -> (r: Option<serde_json::Value>)
        ensures
            final(self).is_object() == old(self).is_object(),
            old(self).is_object() ==> final(self)@ == old(self)@.remove(k@),
            !old(self).is_object() ==> *final(self) == *old(self),
            old(self).is_object() ==> final(self).entries() == old(self).entries().remove(k@),
            r == (if old(self).is_object() && old(self).entries().contains_key(k@) {
                Some(old(self).entries()[k@])
            } else {
                None
            }),
            r.is_some() == (old(self).is_object() && old(self)@.contains_key(k@)),
            r.is_some() ==> json_kind(r.unwrap()) == old(self)@[k@],
    {
        let r = json_remove(&mut self.0, k);
        assert(old(self).is_object() ==> self@ =~= old(self)@.remove(k@));
        r
    }

    /// A number that is fixed by the text under `id_key` (the empty text where
    /// there is none) and by `seed`: the top 53 bits of their XXH3 hash.
    pub fn rand53(&self, id_key: &str, seed: u64) -> (r: u64)
        ensures
            r == xxh3_64(
                vstd::utf8::encode_utf8(
                    match text_at(self@, id_key@) {
                        Some(id) => id,
                        None => Seq::<char>::empty(),
                    },
                ),
                seed,
            ) >> 11,
            r < 0x20_0000_0000_0000,
    {
        let id: &str = match self.get_str(id_key) {
            Some(s) => s,
            None => "",
        };
        proof {
            reveal_strlit("");
        }
        let h = hash_with_seed(id.as_bytes(), seed);
        unit_interval_numerator(h)
    }
}

} // verus!
