//! The schema of a source or sink: its columns in order.

use vstd::prelude::*;

verus! {

/// The logical type of a column.
#[derive(Clone, Copy, PartialEq, Eq, Structural, Debug)]
pub enum DataType {
    Utf8,
    Int64,
    Float64,
    Boolean,
    /// A type that records do not carry: its values are read as null.
    Other,
}

/// One column: its name, its type, and whether it may hold nulls.
pub struct Field {
    pub name: String,
    pub data_type: DataType,
    pub nullable: bool,
}

/// The columns of a source or sink, in order.
pub struct Schema {
    pub fields: Vec<Field>,
}

impl Schema {
    /// The column names, in order.
    pub open spec fn names(&self) -> Seq<Seq<char>> {
        self.fields@.map_values(|f: Field| f.name@)
    }

    /// Whether the schema has a column `name`.
    pub open spec fn has(&self, name: Seq<char>) -> bool {
        exists|i: int| 0 <= i < self.fields@.len() && #[trigger] self.fields@[i].name@ == name
    }

    /// The schema without columns.
    pub fn empty() -> (r: Self)
        ensures
            r.fields@.len() == 0,
    {
        Schema { fields: Vec::new() }
    }

    /// The position of the first column `name`.
    pub fn index_of(&self, name: &str) -> (r: Option<usize>)
        ensures
            match r {
                Some(i) => i < self.fields@.len() && self.fields@[i as int].name@ == name@ && forall|k: int|
                    0 <= k < i ==> self.fields@[k].name@ != name@,
                None => !self.has(name@),
            },
    {
        let mut i: usize = 0;
        while i < self.fields.len()
            invariant
                i <= self.fields@.len(),
                forall|k: int| 0 <= k < i ==> self.fields@[k].name@ != name@,
            decreases self.fields@.len() - i,
        {
            if crate::text::str_eq(self.fields[i].name.as_str(), name) {
                return Some(i);
            }
            i += 1;
        }
        None
    }
}

} // verus!
