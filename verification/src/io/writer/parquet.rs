//! The schema of a columnar file: it is fixed at the first flush, as the
//! input schema extended by the columns that the buffered records add.

use vstd::prelude::*;
use crate::io::reader::schema::{DataType, Field, Schema};
use crate::sample::{JsonKind, Sample};
use crate::text::str_eq;

verus! {

/// Why a batch of records does not fit a columnar file.
pub enum SchemaError {
    /// The first value of a new column is an array or an object, which has
    /// no column type.
    Untypable { column: String },
    /// The schema is fixed, and a record has a column outside it.
    LateColumn { column: String },
    /// The batch holds no record.
    EmptyBatch,
}

/// The column type of a value's kind, where it has one. Null has none yet;
/// arrays and objects have none at all.
pub open spec fn type_of_kind(kind: JsonKind) -> Option<DataType> {
    match kind {
        JsonKind::Text(_) => Some(DataType::Utf8),
        JsonKind::Int(_) => Some(DataType::Int64),
        JsonKind::Float => Some(DataType::Float64),
        JsonKind::Number => Some(DataType::Float64),
        JsonKind::Bool(_) => Some(DataType::Boolean),
        _ => None,
    }
}

/// Whether a value of this kind is written to a column of this type; any
/// other value is written as null. A column of a type that records do not
/// carry takes no value.
pub open spec fn fits_column(kind: JsonKind, data_type: DataType) -> bool {
    match data_type {
        DataType::Utf8 => kind is Text,
        DataType::Int64 => kind is Int,
        DataType::Float64 => kind is Float,
        DataType::Boolean => kind is Bool,
        DataType::Other => false,
    }
}

/// The kind of the first value under `name` that is not null, in the order
/// of the records.
pub open spec fn first_kind(samples: Seq<Sample>, name: Seq<char>) -> Option<JsonKind>
    decreases samples.len(),
{
    if samples.len() == 0 {
        None
    } else if samples[0]@.contains_key(name) && !(samples[0]@[name] is Null) {
        Some(samples[0]@[name])
    } else {
        first_kind(samples.drop_first(), name)
    }
}

/// Whether a column of the records can be typed: its first value that is
/// not null is no array and no object.
pub open spec fn typable(samples: Seq<Sample>, name: Seq<char>) -> bool {
    match first_kind(samples, name) {
        Some(kind) => type_of_kind(kind) is Some,
        None => true,
    }
}

/// The type of a new column: that of its first value that is not null, and
/// text where it has none.
pub open spec fn column_type(samples: Seq<Sample>, name: Seq<char>) -> DataType {
    match first_kind(samples, name) {
        Some(kind) => match type_of_kind(kind) {
            Some(t) => t,
            None => DataType::Utf8,
        },
        None => DataType::Utf8,
    }
}

/// Whether record `p` has a column `name`.
pub open spec fn has_column(samples: Seq<Sample>, p: int, name: Seq<char>) -> bool {
    0 <= p < samples.len() && samples[p]@.contains_key(name)
}

/// Whether one of the records has a column `name`.
pub open spec fn seen_in(samples: Seq<Sample>, name: Seq<char>) -> bool {
    exists|i: int| 0 <= i < samples.len() && (#[trigger] samples[i])@.contains_key(name)
}

/// `out` is `input` evolved by the records: the columns of `input` in
/// order and with their types, then each column that the records add, once,
/// which can be typed, with the type of its first value; a column first
/// seen in an earlier record stands before one first seen in a later. Every column may hold nulls, and every
/// column of every record is there.
pub open spec fn evolved(input: Schema, samples: Seq<Sample>, out: Schema) -> bool {
    &&& out.fields@.len() >= input.fields@.len()
    &&& forall|i: int|
        0 <= i < input.fields@.len() ==> (#[trigger] out.fields@[i]).name@ == input.fields@[i].name@
            && out.fields@[i].data_type == input.fields@[i].data_type
    &&& forall|i: int| 0 <= i < out.fields@.len() ==> (#[trigger] out.fields@[i]).nullable
    &&& forall|i: int|
        input.fields@.len() <= i < out.fields@.len() ==> {
            let name = (#[trigger] out.fields@[i]).name@;
            &&& seen_in(samples, name)
            &&& !input.has(name)
            &&& typable(samples, name)
            &&& out.fields@[i].data_type == column_type(samples, name)
        }
    &&& forall|i: int, j: int|
        input.fields@.len() <= i < j < out.fields@.len() ==> (#[trigger] out.fields@[i]).name@ != (
        #[trigger] out.fields@[j]).name@
    &&& forall|i: int, j: int|
        input.fields@.len() <= i < j < out.fields@.len() ==> first_seen(
            samples,
            (#[trigger] out.fields@[i]).name@,
        ) <= first_seen(samples, (#[trigger] out.fields@[j]).name@)
    &&& forall|i: int, name: Seq<char>| #[trigger] has_column(samples, i, name) ==> out.has(name)
}

/// The position of the first record that has a column `name`; the number
/// of records where none has it.
pub open spec fn first_seen(samples: Seq<Sample>, name: Seq<char>) -> int
    decreases samples.len(),
{
    if samples.len() == 0 || samples[0]@.contains_key(name) {
        0
    } else {
        1 + first_seen(samples.drop_first(), name)
    }
}

/// A column that record `at` has and no earlier record has is first seen at `at`.
proof fn lemma_first_seen_at(samples: Seq<Sample>, name: Seq<char>, at: int)
    requires
        0 <= at < samples.len(),
        samples[at]@.contains_key(name),
        forall|p: int| 0 <= p < at ==> !(#[trigger] samples[p])@.contains_key(name),
    ensures
        first_seen(samples, name) == at,
    decreases at,
{
    if at > 0 {
        let rest = samples.drop_first();
        assert(rest[at - 1] == samples[at]);
        assert forall|p: int| 0 <= p < at - 1 implies !(#[trigger] rest[p])@.contains_key(name) by {
            assert(rest[p] == samples[p + 1]);
        }
        lemma_first_seen_at(rest, name, at - 1);
    }
}

/// Whether every column that the records add to the input can be typed.
pub open spec fn all_typable(input: Schema, samples: Seq<Sample>) -> bool {
    forall|name: Seq<char>| seen_in(samples, name) && !input.has(name) ==> #[trigger] typable(samples, name)
}

/// The new columns of an evolved schema are all that the records add, so
/// every column that the records add can be typed.
pub proof fn lemma_evolved_typable(input: Schema, samples: Seq<Sample>, out: Schema)
    requires
        evolved(input, samples, out),
    ensures
        all_typable(input, samples),
{
    assert forall|name: Seq<char>| seen_in(samples, name) && !input.has(name) implies #[trigger] typable(
        samples,
        name,
    ) by {
        let p = choose|p: int| 0 <= p < samples.len() && (#[trigger] samples[p])@.contains_key(name);
        assert(has_column(samples, p, name));
        assert(out.has(name));
        let k = choose|k: int| 0 <= k < out.fields@.len() && #[trigger] out.fields@[k].name@ == name;
        if k < input.fields@.len() {
            assert(input.fields@[k].name@ == name);
        }
    }
}

/// The kind of a record's value under `name`.
pub(crate) fn kind_under(sample: &Sample, name: &str) -> (r: Option<Option<DataType>>)
    ensures
        match r {
            None => !sample@.contains_key(name@) || sample@[name@] is Null,
            Some(t) => sample@.contains_key(name@) && !(sample@[name@] is Null) && t == type_of_kind(
                sample@[name@],
            ),
        },
{
    if sample.get_str(name).is_some() {
        Some(Some(DataType::Utf8))
    } else if sample.get_i64(name).is_some() {
        Some(Some(DataType::Int64))
    } else if sample.get_bool(name).is_some() {
        Some(Some(DataType::Boolean))
    } else {
        match sample.get(name) {
            None => None,
            Some(v) => match crate::sample::kind_tag(v) {
                crate::sample::KindTag::Null => None,
                crate::sample::KindTag::Number => Some(Some(DataType::Float64)),
                _ => Some(None),
            },
        }
    }
}

/// The cell of a record in a column: the record's value under the
/// column's name where it is of the column's type, else null.
pub fn column_cell<'a>(sample: &'a Sample, name: &str, data_type: DataType) -> (r: Option<
    &'a serde_json::Value,
>)
    ensures
        r.is_some() == (sample@.contains_key(name@) && fits_column(sample@[name@], data_type)),
        r.is_some() ==> *r.unwrap() == crate::sample::json_entries(sample.0)[name@],
{
    let fits = match data_type {
        DataType::Utf8 => sample.get_str(name).is_some(),
        DataType::Int64 => sample.get_i64(name).is_some(),
        DataType::Float64 => sample.get_float(name).is_some(),
        DataType::Boolean => sample.get_bool(name).is_some(),
        DataType::Other => false,
    };
    if fits {
        sample.get(name)
    } else {
        None
    }
}

/// The type of the column `name` of the records, or `None` where its first
/// value that is not null is an array or an object.
pub fn infer_column_type(samples: &Vec<Sample>, name: &str) -> (r: Option<DataType>)
    ensures
        r is Some == typable(samples@, name@),
        r matches Some(t) ==> t == column_type(samples@, name@),
{
    let mut i: usize = 0;
    assert(samples@.skip(0) =~= samples@);
    while i < samples.len()
        invariant
            i <= samples@.len(),
            first_kind(samples@, name@) == first_kind(samples@.skip(i as int), name@),
        decreases samples@.len() - i,
    {
        proof {
            assert(samples@.skip(i as int)[0] == samples@[i as int]);
            assert(samples@.skip(i as int).drop_first() =~= samples@.skip(i + 1));
        }
        match kind_under(&samples[i], name) {
            Some(t) => {
                return t;
            },
            None => {},
        }
        i += 1;
    }
    Some(DataType::Utf8)
}

fn names_include(fields: &Vec<Field>, name: &str) -> (r: bool)
    ensures
        r == exists|i: int| 0 <= i < fields@.len() && (#[trigger] fields@[i]).name@ == name@,
{
    let mut i: usize = 0;
    while i < fields.len()
        invariant
            i <= fields@.len(),
            forall|k: int| 0 <= k < i ==> (#[trigger] fields@[k]).name@ != name@,
        decreases fields@.len() - i,
    {
        if str_eq(fields[i].name.as_str(), name) {
            return true;
        }
        i += 1;
    }
    false
}

/// The schema of the first flush: the input schema extended to every
/// column of the buffered records, the new columns typed by their first
/// value that is not null. A new column whose first value is an array or an
/// object is refused.
pub fn evolve_schema(input: &Schema, samples: &Vec<Sample>) -> (r: Result<Schema, SchemaError>)
    ensures
        match r {
            Ok(out) => samples@.len() > 0 && evolved(*input, samples@, out) && all_typable(*input, samples@),
            Err(SchemaError::Untypable { column }) => samples@.len() > 0 && seen_in(samples@, column@)
                && !input.has(column@) && !typable(samples@, column@),
            Err(SchemaError::EmptyBatch) => samples@.len() == 0,
            Err(SchemaError::LateColumn { .. }) => false,
        },
{
    if samples.len() == 0 {
        return Err(SchemaError::EmptyBatch);
    }
    let mut fields: Vec<Field> = Vec::new();
    let mut i: usize = 0;
    while i < input.fields.len()
        invariant
            i <= input.fields@.len(),
            fields@.len() == i,
            forall|k: int|
                0 <= k < i ==> (#[trigger] fields@[k]).name@ == input.fields@[k].name@ && fields@[k].data_type
                    == input.fields@[k].data_type && fields@[k].nullable,
        decreases input.fields@.len() - i,
    {
        fields.push(
            Field {
                name: input.fields[i].name.clone(),
                data_type: input.fields[i].data_type,
                nullable: true,
            },
        );
        i += 1;
    }
    let base: usize = input.fields.len();
    let mut s: usize = 0;
    while s < samples.len()
        invariant
            s <= samples@.len(),
            base == input.fields@.len(),
            fields@.len() >= base,
            forall|k: int|
                0 <= k < base ==> (#[trigger] fields@[k]).name@ == input.fields@[k].name@ && fields@[k].data_type
                    == input.fields@[k].data_type,
            forall|k: int| 0 <= k < fields@.len() ==> (#[trigger] fields@[k]).nullable,
            forall|k: int|
                base <= k < fields@.len() ==> {
                    let name = (#[trigger] fields@[k]).name@;
                    &&& seen_in(samples@, name)
                    &&& !input.has(name)
                    &&& typable(samples@, name)
                    &&& fields@[k].data_type == column_type(samples@, name)
                },
            forall|a: int, b: int|
                base <= a < b < fields@.len() ==> (#[trigger] fields@[a]).name@ != (#[trigger] fields@[b]).name@,
            forall|k: int| base <= k < fields@.len() ==> first_seen(samples@, (#[trigger] fields@[k]).name@) <= s,
            forall|a: int, b: int|
                base <= a < b < fields@.len() ==> first_seen(samples@, (#[trigger] fields@[a]).name@)
                    <= first_seen(samples@, (#[trigger] fields@[b]).name@),
            forall|p: int, name: Seq<char>|
                p < s && #[trigger] has_column(samples@, p, name) ==> exists|k: int|
                    0 <= k < fields@.len() && (#[trigger] fields@[k]).name@ == name,
        decreases samples@.len() - s,
    {
        let keys = samples[s].keys();
        let mut j: usize = 0;
        while j < keys.len()
            invariant
                j <= keys@.len(),
                s < samples@.len(),
                base == input.fields@.len(),
                fields@.len() >= base,
                forall|k: int| 0 <= k < keys@.len() ==> samples@[s as int]@.contains_key(#[trigger] keys@[k]@),
                forall|k: int|
                    0 <= k < base ==> (#[trigger] fields@[k]).name@ == input.fields@[k].name@
                        && fields@[k].data_type == input.fields@[k].data_type,
                forall|k: int| 0 <= k < fields@.len() ==> (#[trigger] fields@[k]).nullable,
                forall|k: int|
                    base <= k < fields@.len() ==> {
                        let name = (#[trigger] fields@[k]).name@;
                        &&& seen_in(samples@, name)
                        &&& !input.has(name)
                        &&& typable(samples@, name)
                        &&& fields@[k].data_type == column_type(samples@, name)
                    },
                forall|a: int, b: int|
                    base <= a < b < fields@.len() ==> (#[trigger] fields@[a]).name@ != (
                    #[trigger] fields@[b]).name@,
                forall|k: int|
                    base <= k < fields@.len() ==> first_seen(samples@, (#[trigger] fields@[k]).name@) <= s,
                forall|a: int, b: int|
                    base <= a < b < fields@.len() ==> first_seen(samples@, (#[trigger] fields@[a]).name@)
                        <= first_seen(samples@, (#[trigger] fields@[b]).name@),
                forall|p: int, name: Seq<char>|
                    p < s && #[trigger] has_column(samples@, p, name) ==> exists|k: int|
                        0 <= k < fields@.len() && (#[trigger] fields@[k]).name@ == name,
                forall|q: int|
                    0 <= q < j ==> exists|k: int|
                        0 <= k < fields@.len() && (#[trigger] fields@[k]).name@ == (#[trigger] keys@[q])@,
            decreases keys@.len() - j,
        {
            let key = keys[j].as_str();
            let ghost before = fields@;
            if !names_include(&fields, key) {
                let data_type = match infer_column_type(samples, key) {
                    Some(t) => t,
                    None => {
                        proof {
                            assert(samples@[s as int]@.contains_key(key@));
                            lemma_not_in_input(*input, before, key@);
                        }
                        return Err(SchemaError::Untypable { column: keys[j].clone() });
                    },
                };
                proof {
                    assert(samples@[s as int]@.contains_key(key@));
                    lemma_not_in_input(*input, before, key@);
                    assert forall|p: int| 0 <= p < s implies !(#[trigger] samples@[p])@.contains_key(key@) by {
                        if samples@[p]@.contains_key(key@) {
                            assert(has_column(samples@, p, key@));
                        }
                    }
                    lemma_first_seen_at(samples@, key@, s as int);
                }
                fields.push(Field { name: keys[j].clone(), data_type, nullable: true });
                proof {
                    let added = before.len() as int;
                    assert(fields@[added].name@ == key@);
                    assert forall|k: int| 0 <= k < before.len() implies fields@[k] == before[k] by {}
                    assert forall|p: int, name: Seq<char>|
                        p < s && #[trigger] has_column(samples@, p, name) implies exists|k: int|
                        0 <= k < fields@.len() && (#[trigger] fields@[k]).name@ == name by {
                        let k = choose|k: int| 0 <= k < before.len() && (#[trigger] before[k]).name@ == name;
                        assert(fields@[k].name@ == name);
                    }
                    assert forall|q: int| 0 <= q < j + 1 implies exists|k: int|
                        0 <= k < fields@.len() && (#[trigger] fields@[k]).name@ == (#[trigger] keys@[q])@ by {
                        if q < j {
                            let k = choose|k: int|
                                0 <= k < before.len() && (#[trigger] before[k]).name@ == keys@[q]@;
                            assert(fields@[k].name@ == keys@[q]@);
                        } else {
                            assert(fields@[added].name@ == keys@[q]@);
                        }
                    }
                }
            }
            j += 1;
        }
        proof {
            assert forall|p: int, name: Seq<char>|
                p < s + 1 && #[trigger] has_column(samples@, p, name) implies exists|k: int|
                0 <= k < fields@.len() && (#[trigger] fields@[k]).name@ == name by {
                if p == s {
                    let q = choose|q: int| 0 <= q < keys@.len() && (#[trigger] keys@[q])@ == name;
                    assert(exists|k: int|
                        0 <= k < fields@.len() && (#[trigger] fields@[k]).name@ == (#[trigger] keys@[q])@);
                }
            }
        }
        s += 1;
    }
    let out = Schema { fields };
    proof {
        assert forall|p: int, name: Seq<char>| #[trigger] has_column(samples@, p, name) implies out.has(
            name,
        ) by {
            let k = choose|k: int| 0 <= k < out.fields@.len() && (#[trigger] out.fields@[k]).name@ == name;
            assert(out.fields@[k].name@ == name);
        }
        lemma_evolved_typable(*input, samples@, out);
    }
    Ok(out)
}

/// A name that is not among the fields built so far is not in the input,
/// whose columns they begin with.
proof fn lemma_not_in_input(input: Schema, fields: Seq<Field>, name: Seq<char>)
    requires
        fields.len() >= input.fields@.len(),
        forall|k: int| 0 <= k < input.fields@.len() ==> (#[trigger] fields[k]).name@ == input.fields@[k].name@,
        !(exists|i: int| 0 <= i < fields.len() && (#[trigger] fields[i]).name@ == name),
    ensures
        !input.has(name),
{
    if input.has(name) {
        let i = choose|i: int| 0 <= i < input.fields@.len() && #[trigger] input.fields@[i].name@ == name;
        assert(fields[i].name@ == name);
    }
}

/// The first column of the records that the schema lacks.
pub fn find_late_column(schema: &Schema, samples: &Vec<Sample>) -> (r: Option<String>)
    ensures
        match r {
            Some(column) => seen_in(samples@, column@) && !schema.has(column@),
            None => forall|i: int, name: Seq<char>|
                #[trigger] has_column(samples@, i, name) ==> schema.has(name),
        },
{
    let mut s: usize = 0;
    while s < samples.len()
        invariant
            s <= samples@.len(),
            forall|i: int, name: Seq<char>|
                i < s && #[trigger] has_column(samples@, i, name) ==> schema.has(name),
        decreases samples@.len() - s,
    {
        let keys = samples[s].keys();
        let mut j: usize = 0;
        while j < keys.len()
            invariant
                j <= keys@.len(),
                s < samples@.len(),
                forall|k: int| 0 <= k < keys@.len() ==> samples@[s as int]@.contains_key(#[trigger] keys@[k]@),
                forall|q: int| 0 <= q < j ==> schema.has((#[trigger] keys@[q])@),
            decreases keys@.len() - j,
        {
            if !names_include(&schema.fields, keys[j].as_str()) {
                proof {
                    assert(samples@[s as int]@.contains_key(keys@[j as int]@));
                    if schema.has(keys@[j as int]@) {
                        let i = choose|i: int|
                            0 <= i < schema.fields@.len() && #[trigger] schema.fields@[i].name@
                                == keys@[j as int]@;
                        assert(schema.fields@[i].name@ == keys@[j as int]@);
                    }
                }
                return Some(keys[j].clone());
            }
            proof {
                let i = choose|i: int|
                    0 <= i < schema.fields@.len() && (#[trigger] schema.fields@[i]).name@ == keys@[j as int]@;
                assert(schema.fields@[i].name@ == keys@[j as int]@);
            }
            j += 1;
        }
        proof {
            assert forall|i: int, name: Seq<char>|
                i < s + 1 && #[trigger] has_column(samples@, i, name) implies schema.has(name) by {
                if i == s {
                    let q = choose|q: int| 0 <= q < keys@.len() && (#[trigger] keys@[q])@ == name;
                    assert(schema.has(keys@[q]@));
                }
            }
        }
        s += 1;
    }
    None
}

/// The schema of a columnar writer: open until the first flush fixes it.
pub struct SchemaState {
    input: Schema,
    fixed: Option<Schema>,
}

impl SchemaState {
    /// The schema that the writer was made with.
    pub closed spec fn input(&self) -> Schema {
        self.input
    }

    /// The schema on disk, once the first flush has fixed it.
    pub closed spec fn fixed(&self) -> Option<Schema> {
        self.fixed
    }

    /// The state of a writer that has flushed nothing.
    pub fn new(input: Schema) -> (r: Self)
        ensures
            r.input() == input,
            r.fixed() is None,
    {
        SchemaState { input, fixed: None }
    }

    /// The schema on disk, once the first flush has fixed it.
    pub fn schema(&self) -> (r: Option<&Schema>)
        ensures
            match r {
                Some(schema) => self.fixed() == Some(*schema),
                None => self.fixed() is None,
            },
    {
        self.fixed.as_ref()
    }

    /// Whether the first flush has fixed the schema.
    pub fn is_fixed(&self) -> (r: bool)
        ensures
            r == self.fixed().is_some(),
    {
        self.fixed.is_some()
    }

    /// Checks a batch about to be flushed. A batch without records is
    /// refused. The first batch fixes the schema as the input schema
    /// evolved by its records. Every later batch must keep to the fixed
    /// schema: a column outside it is refused.
    pub fn accept(&mut self, samples: &Vec<Sample>) -> (r: Result<(), SchemaError>)
        ensures
            final(self).input() == old(self).input(),
            r is Err ==> final(self).fixed() == old(self).fixed(),
            r == Err::<(), SchemaError>(SchemaError::EmptyBatch) <==> samples@.len() == 0,
            samples@.len() > 0 ==> match old(self).fixed() {
                None => match r {
                    Ok(()) => final(self).fixed() matches Some(out) && evolved(old(self).input(), samples@, out)
                        && all_typable(old(self).input(), samples@),
                    Err(SchemaError::Untypable { column }) => {
                        &&& seen_in(samples@, column@)
                        &&& !old(self).input().has(column@)
                        &&& !typable(samples@, column@)
                    },
                    Err(_) => false,
                },
                Some(schema) => {
                    &&& final(self).fixed() == Some(schema)
                    &&& match r {
                        Ok(()) => forall|i: int, name: Seq<char>|
                            #[trigger] has_column(samples@, i, name) ==> schema.has(name),
                        Err(SchemaError::LateColumn { column }) => seen_in(samples@, column@) && !schema.has(
                            column@,
                        ),
                        Err(_) => false,
                    }
                },
            },
    {
        if samples.len() == 0 {
            return Err(SchemaError::EmptyBatch);
        }
        match &self.fixed {
            None => match evolve_schema(&self.input, samples) {
                Ok(out) => {
                    self.fixed = Some(out);
                    Ok(())
                },
                Err(e) => Err(e),
            },
            Some(schema) => match find_late_column(schema, samples) {
                Some(column) => Err(SchemaError::LateColumn { column }),
                None => Ok(()),
            },
        }
    }
}

} // verus!
