//! The manifest of a staged run: what each stage read, applied and wrote.

use vstd::prelude::*;

verus! {

/// What a staged pipeline did, stage by stage.
pub struct Manifest {
    pub pipeline_name: String,
    pub stages: Vec<StageManifest>,
}

/// What one stage read and wrote.
pub struct StageManifest {
    pub name: String,
    pub input_path: Option<String>,
    pub output_path: String,
    pub partition_files: Vec<String>,
    pub operators: Vec<OperatorManifest>,
    pub total_input_rows: usize,
    pub total_output_rows: usize,
}

/// What one operator of a stage took in and gave out.
pub struct OperatorManifest {
    pub name: String,
    pub kind: String,
    pub input_rows: usize,
    pub output_rows: usize,
    /// For a filter that removed rows, their number.
    pub filtered_rows: Option<usize>,
}

/// The rows that an operator of kind `kind` filtered out, where it is a
/// filter and gave out fewer rows than it took in.
pub open spec fn filtered(kind: Seq<char>, input_rows: usize, output_rows: usize) -> Option<usize> {
    if kind == "filter"@ && input_rows > output_rows {
        Some((input_rows - output_rows) as usize)
    } else {
        None
    }
}

impl OperatorManifest {
    /// The record of an operator from the rows it took in and gave out.
    pub fn new(name: String, kind: String, input_rows: usize, output_rows: usize) -> (r: Self)
        ensures
            r.name == name,
            r.kind == kind,
            r.input_rows == input_rows,
            r.output_rows == output_rows,
            r.filtered_rows == filtered(kind@, input_rows, output_rows),
    {
        let is_filter = crate::text::str_eq(kind.as_str(), "filter");
        let filtered_rows = if is_filter && input_rows > output_rows {
            Some(input_rows - output_rows)
        } else {
            None
        };
        OperatorManifest { name, kind, input_rows, output_rows, filtered_rows }
    }
}

impl Manifest {
    /// The manifest of a pipeline that has run no stage.
    pub fn new(pipeline_name: String) -> (r: Self)
        ensures
            r.pipeline_name == pipeline_name,
            r.stages@.len() == 0,
    {
        Manifest { pipeline_name, stages: Vec::new() }
    }

    /// Records a stage after those recorded before.
    pub fn add_stage(&mut self, stage: StageManifest)
        ensures
            final(self).pipeline_name == old(self).pipeline_name,
            final(self).stages@ == old(self).stages@.push(stage),
    {
        self.stages.push(stage);
    }
}

} // verus!
