//! An annotator that gives every record a fresh identifier.

use vstd::prelude::*;
use crate::op::{Operator, OperatorError, Verdict};
use crate::sample::{JsonKind, Sample};
use crate::yaml::{str_field, yaml_text_at};

verus! {

/// `uuid::Uuid::new_v4`, written out by its `Display`: a random identifier.
#[verifier::external_body]
fn new_uuid() -> String {
    uuid::Uuid::new_v4().to_string()
}

/// Sets the column `id_col` of every record to a fresh random identifier.
pub struct AddIdAnnotator {
    id_col: String,
}

impl AddIdAnnotator {
    /// The column that receives the identifier.
    pub closed spec fn column(&self) -> Seq<char> {
        self.id_col@
    }

    /// `after` is `before` with the identifier `id` in the column.
    pub open spec fn annotated(&self, before: Sample, id: Seq<char>, after: Sample) -> bool {
        before.with_column(self.column(), JsonKind::Text(id), after)
    }

    pub fn new(id_col: String) -> (r: Self)
        ensures
            r.column() == id_col@,
    {
        AddIdAnnotator { id_col }
    }

    /// The annotator that a configuration asks for: its column is the text
    /// under `id_col`, or `id` where there is none.
    pub fn from_config(config: &serde_yaml::Value) -> (r: Self)
        ensures
            r.column() == (match yaml_text_at(*config, "id_col"@) {
                Some(c) => c,
                None => "id"@,
            }),
    {
        let id_col = match str_field(config, "id_col") {
            Some(c) => c,
            None => "id".to_string(),
        };
        AddIdAnnotator { id_col }
    }

    /// The record with `id` in the column.
    pub fn annotate(&self, sample: Sample, id: &str) -> (r: Sample)
        ensures
            self.annotated(sample, id@, r),
    {
        let mut out = sample;
        out.set_str(self.id_col.as_str(), id);
        out
    }
}

impl Operator for AddIdAnnotator {
    /// Every record is kept, with some identifier in the column.
    open spec fn admits(&self, before: Sample, verdict: Verdict) -> bool {
        verdict is Kept && exists|id: Seq<char>| #[trigger] self.annotated(before, id, verdict->Kept_0)
    }

    fn process(&self, sample: Sample) -> (r: Result<Option<Sample>, OperatorError>) {
        let id = new_uuid();
        let out = self.annotate(sample, id.as_str());
        let r = Ok(Some(out));
        assert(self.annotated(sample, id@, crate::op::verdict_of(r)->Kept_0));
        r
    }
}

} // verus!
