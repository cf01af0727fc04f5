//! A chunk of rows handed through the pipeline as one unit.

use vstd::prelude::*;

verus! {

/// A chunk of data. It carries no rows of its own yet.
#[derive(Clone, Debug)]
pub struct MicroPartition {
    rows: usize,
}

impl MicroPartition {
    /// The number of rows in the chunk.
    pub closed spec fn len(&self) -> nat {
        self.rows as nat
    }

    /// The chunk without rows.
    pub fn empty() -> (r: Self)
        ensures
            r.len() == 0,
    {
        MicroPartition { rows: 0 }
    }

    /// The number of rows in the chunk.
    pub fn num_rows(&self) -> (r: usize)
        ensures
            r == self.len(),
    {
        self.rows
    }
}

} // verus!
