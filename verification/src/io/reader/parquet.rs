//! Rows of a columnar file as records.

use vstd::prelude::*;
use crate::sample::Sample;

verus! {

/// The values of the record that the first `n` columns of a row give:
/// each column's name holds its cell, a later column overriding an earlier
/// one of the same name.
pub open spec fn assembled(names: Seq<String>, cells: Seq<serde_json::Value>, n: int) -> Map<
    Seq<char>,
    serde_json::Value,
>
    decreases n,
{
    if n <= 0 {
        Map::empty()
    } else {
        assembled(names, cells, n - 1).insert(names[n - 1]@, cells[n - 1])
    }
}

/// The record of a row: the cells of the row under the names of their
/// columns. Cells without a name, and names without a cell, are left out.
pub fn row_to_sample(names: &Vec<String>, cells: Vec<serde_json::Value>) -> (r: Sample)
    ensures
        r.is_object(),
        r.entries() == assembled(
            names@,
            cells@,
            if names@.len() <= cells@.len() {
                names@.len() as int
            } else {
                cells@.len() as int
            },
        ),
{
    let mut sample = Sample::new();
    let count: usize = if names.len() <= cells.len() {
        names.len()
    } else {
        cells.len()
    };
    let mut i: usize = 0;
    while i < count
        invariant
            i <= count,
            count <= names@.len(),
            count <= cells@.len(),
            sample.is_object(),
            sample.entries() == assembled(names@, cells@, i as int),
        decreases count - i,
    {
        let cell = crate::sample::copy_value(&cells[i]);
        sample.set_value(names[i].as_str(), cell);
        i += 1;
    }
    sample
}

} // verus!
