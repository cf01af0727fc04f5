//! Projecting the columns of a source: keeping the listed columns, each
//! under its new name.

use vstd::prelude::*;
use crate::io::reader::schema::{Field, Schema};
use crate::config::{first_repeat, lemma_repeat_stays};
use crate::sample::Sample;
use crate::spec::ColumnMapping;

verus! {

/// Why a projection cannot be built.
pub enum MappingError {
    /// The source has no column of this name.
    MissingColumn { name: String },
    /// Two pairs of the mapping give this new name.
    RepeatedName { name: String },
}

/// The new names of the pairs of a mapping, in order.
pub open spec fn new_names(pairs: Seq<(String, String)>) -> Seq<Seq<char>> {
    pairs.map_values(|p: (String, String)| p.0@)
}

/// The index of the first pair whose new name an earlier pair has.
pub open spec fn repeated(pairs: Seq<(String, String)>) -> Option<int> {
    first_repeat(new_names(pairs), pairs.len() as int)
}

/// The first pair whose new name an earlier pair has.
pub fn find_repeated(pairs: &Vec<(String, String)>) -> (r: Option<usize>)
    ensures
        match r {
            Some(i) => repeated(pairs@) == Some(i as int) && i < pairs@.len(),
            None => repeated(pairs@) is None,
        },
{
    let ghost names = new_names(pairs@);
    let mut i: usize = 0;
    while i < pairs.len()
        invariant
            i <= pairs@.len(),
            names == new_names(pairs@),
            first_repeat(names, i as int) is None,
        decreases pairs@.len() - i,
    {
        let mut k: usize = 0;
        while k < i
            invariant
                k <= i < pairs@.len(),
                names == new_names(pairs@),
                first_repeat(names, i as int) is None,
                forall|j: int| 0 <= j < k ==> names[j] != names[i as int],
            decreases i - k,
        {
            if crate::text::str_eq(pairs[k].0.as_str(), pairs[i].0.as_str()) {
                proof {
                    assert(names[k as int] == names[i as int]);
                    assert(first_repeat(names, i as int + 1) == Some(i as int));
                    lemma_repeat_stays(names, i as int + 1, pairs@.len() as int);
                }
                return Some(i);
            }
            k += 1;
        }
        i += 1;
    }
    None
}

/// Whether two schemas have the same columns, nullability included.
pub open spec fn same_columns(a: Schema, b: Schema) -> bool {
    &&& a.fields@.len() == b.fields@.len()
    &&& forall|i: int|
        0 <= i < a.fields@.len() ==> {
            let f = #[trigger] b.fields@[i];
            &&& f.name@ == a.fields@[i].name@
            &&& f.data_type == a.fields@[i].data_type
            &&& f.nullable == a.fields@[i].nullable
        }
}

/// The index of the first pair whose source column the schema lacks.
pub open spec fn first_missing(schema: Schema, pairs: Seq<(String, String)>) -> Option<int>
    decreases pairs.len(),
{
    if pairs.len() == 0 {
        None
    } else {
        match first_missing(schema, pairs.drop_last()) {
            Some(i) => Some(i),
            None => if schema.has(pairs.last().1@) {
                None
            } else {
                Some(pairs.len() - 1)
            },
        }
    }
}

/// The values of the record that the first `n` pairs project `sample` to:
/// each pair whose source column the record has gives its new name the
/// value of that column, a later pair overriding an earlier one of the same
/// new name.
pub open spec fn projected(pairs: Seq<(String, String)>, sample: Sample, n: int) -> Map<
    Seq<char>,
    serde_json::Value,
>
    decreases n,
{
    if n <= 0 {
        Map::empty()
    } else {
        let before = projected(pairs, sample, n - 1);
        let (new_name, source_name) = pairs[n - 1];
        if sample.entries().contains_key(source_name@) {
            before.insert(new_name@, sample.entries()[source_name@])
        } else {
            before
        }
    }
}

/// The columns that a mapping reads from a source: per pair, the position of
/// its source column, and the projected schema.
pub struct Projection {
    pub indices: Vec<usize>,
    pub schema: Schema,
}

/// `projection` reads the pairs from the schema: one column per pair, in
/// order, at the first position of the pair's source column, with the new
/// name and the source column's type.
pub open spec fn projects(schema: Schema, pairs: Seq<(String, String)>, projection: Projection) -> bool {
    &&& projection.indices@.len() == pairs.len()
    &&& projection.schema.fields@.len() == pairs.len()
    &&& forall|i: int|
        0 <= i < pairs.len() ==> {
            let k = #[trigger] projection.indices@[i];
            let f = projection.schema.fields@[i];
            &&& k < schema.fields@.len()
            &&& schema.fields@[k as int].name@ == pairs[i].1@
            &&& forall|j: int| 0 <= j < k ==> schema.fields@[j].name@ != pairs[i].1@
            &&& f.name@ == pairs[i].0@
            &&& f.data_type == schema.fields@[k as int].data_type
            &&& f.nullable == schema.fields@[k as int].nullable
        }
}

/// `out` is the schema that the pairs project the schema to.
pub open spec fn projected_by(schema: Schema, pairs: Seq<(String, String)>, out: Schema) -> bool {
    exists|indices: Vec<usize>| #[trigger] projects(schema, pairs, Projection { indices, schema: out })
}

/// Reads the pairs of a mapping from a schema. Every new name must stand
/// once, and every source column that the mapping lists must be in the
/// schema; the first pair that repeats a name is reported, or else the
/// first whose source column is missing.
pub fn project(schema: &Schema, pairs: &Vec<(String, String)>) -> (r: Result<Projection, MappingError>)
    ensures
        match r {
            Ok(projection) => repeated(pairs@) is None && first_missing(*schema, pairs@) is None && projects(
                *schema,
                pairs@,
                projection,
            ),
            Err(MappingError::RepeatedName { name }) => repeated(pairs@) matches Some(i) && name@
                == pairs@[i].0@,
            Err(MappingError::MissingColumn { name }) => repeated(pairs@) is None && (first_missing(
                *schema,
                pairs@,
            ) matches Some(i) && name@ == pairs@[i].1@),
        },
{
    if let Some(at) = find_repeated(pairs) {
        return Err(MappingError::RepeatedName { name: pairs[at].0.clone() });
    }
    let mut fields: Vec<Field> = Vec::new();
    let mut indices: Vec<usize> = Vec::new();
    let mut i: usize = 0;
    assert(pairs@.take(0) =~= Seq::empty());
    while i < pairs.len()
        invariant
            i <= pairs@.len(),
            fields@.len() == i,
            indices@.len() == i,
            repeated(pairs@) is None,
            first_missing(*schema, pairs@.take(i as int)) is None,
            forall|p: int|
                0 <= p < i ==> {
                    let k = #[trigger] indices@[p];
                    let f = fields@[p];
                    &&& k < schema.fields@.len()
                    &&& schema.fields@[k as int].name@ == pairs@[p].1@
                    &&& forall|j: int| 0 <= j < k ==> schema.fields@[j].name@ != pairs@[p].1@
                    &&& f.name@ == pairs@[p].0@
                    &&& f.data_type == schema.fields@[k as int].data_type
                    &&& f.nullable == schema.fields@[k as int].nullable
                },
        decreases pairs@.len() - i,
    {
        let ghost upto = pairs@.take(i + 1);
        proof {
            assert(upto.drop_last() =~= pairs@.take(i as int));
            assert(upto.last() == pairs@[i as int]);
        }
        match schema.index_of(pairs[i].1.as_str()) {
            None => {
                proof {
                    assert(first_missing(*schema, upto) == Some(i as int));
                    lemma_missing_stays(*schema, pairs@, i as int + 1);
                }
                return Err(MappingError::MissingColumn { name: pairs[i].1.clone() });
            },
            Some(k) => {
                proof {
                    assert(schema.fields@[k as int].name@ == pairs@[i as int].1@);
                    assert(schema.has(pairs@[i as int].1@));
                }
                fields.push(
                    Field {
                        name: pairs[i].0.clone(),
                        data_type: schema.fields[k].data_type,
                        nullable: schema.fields[k].nullable,
                    },
                );
                indices.push(k);
            },
        }
        i += 1;
    }
    assert(pairs@.take(pairs@.len() as int) =~= pairs@);
    Ok(Projection { indices, schema: Schema { fields } })
}

/// A projection of the columns of a source.
pub struct ColumnFilterReader {
    column_mapping: ColumnMapping,
    filtered_schema: Schema,
}

impl ColumnFilterReader {
    /// The pairs of new name and source name.
    pub closed spec fn pairs(&self) -> Seq<(String, String)> {
        self.column_mapping.mapping@
    }

    /// The schema of the projected records.
    pub closed spec fn projected_schema(&self) -> Schema {
        self.filtered_schema
    }

    /// The projection of a source with the given schema. Every new name
    /// must stand once and every source column that the mapping lists must
    /// be in the schema, as `project` says. The projected schema has one column per pair,
    /// in order, with the new name and the type of the source column; an
    /// empty mapping keeps the schema as it is.
    pub fn new(schema: &Schema, column_mapping: ColumnMapping) -> (r: Result<Self, MappingError>)
        ensures
            match r {
                Ok(reader) => {
                    &&& repeated(column_mapping.mapping@) is None
                    &&& first_missing(*schema, column_mapping.mapping@) is None
                    &&& reader.pairs() == column_mapping.mapping@
                    &&& column_mapping.mapping@.len() == 0 ==> same_columns(*schema, reader.projected_schema())
                    &&& column_mapping.mapping@.len() > 0 ==> projected_by(
                        *schema,
                        column_mapping.mapping@,
                        reader.projected_schema(),
                    )
                },
                Err(MappingError::RepeatedName { name }) => repeated(column_mapping.mapping@) matches Some(i)
                    && name@ == column_mapping.mapping@[i].0@,
                Err(MappingError::MissingColumn { name }) => repeated(column_mapping.mapping@) is None && (
                first_missing(*schema, column_mapping.mapping@) matches Some(i) && name@
                    == column_mapping.mapping@[i].1@),
            },
    {
        if column_mapping.mapping.len() == 0 {
            assert(repeated(column_mapping.mapping@) is None);
            let mut fields: Vec<Field> = Vec::new();
            let mut j: usize = 0;
            while j < schema.fields.len()
                invariant
                    j <= schema.fields@.len(),
                    fields@.len() == j,
                    forall|p: int|
                        0 <= p < j ==> {
                            let f = #[trigger] fields@[p];
                            &&& f.name@ == schema.fields@[p].name@
                            &&& f.data_type == schema.fields@[p].data_type
                            &&& f.nullable == schema.fields@[p].nullable
                        },
                decreases schema.fields@.len() - j,
            {
                fields.push(
                    Field {
                        name: schema.fields[j].name.clone(),
                        data_type: schema.fields[j].data_type,
                        nullable: schema.fields[j].nullable,
                    },
                );
                j += 1;
            }
            return Ok(ColumnFilterReader { column_mapping, filtered_schema: Schema { fields } });
        }
        match project(schema, &column_mapping.mapping) {
            Ok(projection) => {
                let Projection { indices, schema: filtered_schema } = projection;
                let reader = ColumnFilterReader { column_mapping, filtered_schema };
                assert(projects(
                    *schema,
                    column_mapping.mapping@,
                    Projection { indices, schema: reader.projected_schema() },
                ));
                Ok(reader)
            },
            Err(e) => Err(e),
        }
    }

    /// The schema of the projected records.
    pub fn schema(&self) -> (r: &Schema)
        ensures
            *r == self.projected_schema(),
    {
        &self.filtered_schema
    }

    /// The record with the listed columns only, each under its new name and
    /// with the value of its source column. An empty mapping keeps the
    /// record as it is.
    pub fn filter_and_rename(&self, sample: Sample) -> (r: Sample)
        ensures
            self.pairs().len() == 0 ==> r == sample,
            self.pairs().len() > 0 ==> r.is_object() && r.entries() == projected(
                self.pairs(),
                sample,
                self.pairs().len() as int,
            ),
    {
        if self.column_mapping.mapping.len() == 0 {
            return sample;
        }
        let mut filtered = Sample::new();
        let mut i: usize = 0;
        while i < self.column_mapping.mapping.len()
            invariant
                i <= self.column_mapping.mapping@.len(),
                filtered.is_object(),
                filtered.entries() == projected(self.column_mapping.mapping@, sample, i as int),
            decreases self.column_mapping.mapping@.len() - i,
        {
            let new_name = self.column_mapping.mapping[i].0.as_str();
            let source_name = self.column_mapping.mapping[i].1.as_str();
            if let Some(value) = sample.get(source_name) {
                let copy = crate::sample::copy_value(value);
                filtered.set_value(new_name, copy);
            }
            i += 1;
        }
        filtered
    }
}

/// A missing column found among the first `n` pairs is the first missing among all.
proof fn lemma_missing_stays(schema: Schema, pairs: Seq<(String, String)>, n: int)
    requires
        0 <= n <= pairs.len(),
        first_missing(schema, pairs.take(n)) is Some,
    ensures
        first_missing(schema, pairs) == first_missing(schema, pairs.take(n)),
    decreases pairs.len() - n,
{
    if n < pairs.len() {
        assert(pairs.take(n + 1).drop_last() =~= pairs.take(n));
        lemma_missing_stays(schema, pairs, n + 1);
    } else {
        assert(pairs.take(n) =~= pairs);
    }
}

} // verus!
