//! Reading several files as one source, one file after the other.

use vstd::prelude::*;
use crate::io::reader::schema::Schema;
use crate::text::str_eq;

verus! {

/// Why several readers cannot be read as one.
#[derive(Clone, Copy, PartialEq, Eq, Structural, Debug)]
pub enum MultiFileError {
    /// There is no reader.
    NoReaders,
    /// The schema of the reader at `index` does not fit that of the first.
    IncompatibleSchema { index: usize },
}

/// Whether two schemas have the same columns: as many, with the same names
/// and types, in the same order.
pub open spec fn compatible(a: Schema, b: Schema) -> bool {
    &&& a.fields@.len() == b.fields@.len()
    &&& forall|i: int|
        0 <= i < a.fields@.len() ==> (#[trigger] a.fields@[i]).name@ == b.fields@[i].name@
            && a.fields@[i].data_type == b.fields@[i].data_type
}

/// Whether two schemas have the same columns.
pub fn schemas_compatible(schema1: &Schema, schema2: &Schema) -> (r: bool)
    ensures
        r == compatible(*schema1, *schema2),
{
    if schema1.fields.len() != schema2.fields.len() {
        return false;
    }
    let mut i: usize = 0;
    while i < schema1.fields.len()
        invariant
            i <= schema1.fields@.len(),
            schema1.fields@.len() == schema2.fields@.len(),
            forall|k: int|
                0 <= k < i ==> (#[trigger] schema1.fields@[k]).name@ == schema2.fields@[k].name@
                    && schema1.fields@[k].data_type == schema2.fields@[k].data_type,
        decreases schema1.fields@.len() - i,
    {
        if !str_eq(schema1.fields[i].name.as_str(), schema2.fields[i].name.as_str())
            || schema1.fields[i].data_type != schema2.fields[i].data_type {
            return false;
        }
        i += 1;
    }
    true
}

/// The place in a sequence of readers: the readers before `current` are
/// exhausted.
pub struct MultiFileReader {
    readers: usize,
    current_reader_index: usize,
}

impl MultiFileReader {
    /// The number of readers.
    pub closed spec fn count(&self) -> nat {
        self.readers as nat
    }

    /// The index of the reader that is read next, or `count` at the end.
    pub closed spec fn position(&self) -> nat {
        self.current_reader_index as nat
    }

    pub closed spec fn wf(&self) -> bool {
        self.current_reader_index <= self.readers
    }

    /// A sequence over the readers with these schemas, which takes the
    /// schema of the first. There must be a reader, and every schema must
    /// be compatible with the first; the first that is not is reported.
    pub fn new(schemas: &Vec<Schema>) -> (r: Result<Self, MultiFileError>)
        ensures
            match r {
                Ok(reader) => {
                    &&& reader.wf()
                    &&& schemas@.len() > 0
                    &&& reader.count() == schemas@.len()
                    &&& reader.position() == 0
                    &&& forall|i: int| 0 <= i < schemas@.len() ==> compatible(schemas@[0], #[trigger] schemas@[i])
                },
                Err(MultiFileError::NoReaders) => schemas@.len() == 0,
                Err(MultiFileError::IncompatibleSchema { index }) => {
                    &&& 0 < index < schemas@.len()
                    &&& !compatible(schemas@[0], schemas@[index as int])
                    &&& forall|i: int| 0 <= i < index ==> compatible(schemas@[0], #[trigger] schemas@[i])
                },
            },
    {
        if schemas.len() == 0 {
            return Err(MultiFileError::NoReaders);
        }
        let mut i: usize = 1;
        while i < schemas.len()
            invariant
                1 <= i <= schemas@.len(),
                forall|k: int| 0 <= k < i ==> compatible(schemas@[0], #[trigger] schemas@[k]),
            decreases schemas@.len() - i,
        {
            if !schemas_compatible(&schemas[0], &schemas[i]) {
                return Err(MultiFileError::IncompatibleSchema { index: i });
            }
            i += 1;
        }
        Ok(MultiFileReader { readers: schemas.len(), current_reader_index: 0 })
    }

    /// The index of the reader to read from, `None` when all are exhausted.
    pub fn current(&self) -> (r: Option<usize>)
        requires
            self.wf(),
        ensures
            r == (if self.position() < self.count() {
                Some(self.position() as usize)
            } else {
                None
            }),
    {
        if self.current_reader_index < self.readers {
            Some(self.current_reader_index)
        } else {
            None
        }
    }

    /// Notes that the current reader is exhausted and moves to the next.
    pub fn advance(&mut self)
        requires
            old(self).wf(),
        ensures
            final(self).wf(),
            final(self).count() == old(self).count(),
            final(self).position() == (if old(self).position() < old(self).count() {
                old(self).position() + 1
            } else {
                old(self).position()
            }),
    {
        if self.current_reader_index < self.readers {
            self.current_reader_index = self.current_reader_index + 1;
        }
    }
}

} // verus!
