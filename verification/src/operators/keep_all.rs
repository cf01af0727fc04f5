//! Filters that keep every record: the names of the quality, repetition
//! and classifier filters, which pipelines may list without effect.

use vstd::prelude::*;
use crate::op::{Operator, OperatorError, Verdict};
use crate::sample::Sample;

verus! {

/// The Gopher quality rules; keeps every record.
pub struct GopherQualityFilter {
    text_col: String,
}

/// The Gopher repetition rules; keeps every record.
pub struct GopherRepetitionFilter {
    text_col: String,
}

/// A fastText classifier; keeps every record.
pub struct FastTextClassifierFilter {
    text_col: String,
}

impl GopherQualityFilter {
    pub closed spec fn column(&self) -> Seq<char> {
        self.text_col@
    }

    /// The filter on the column `text`.
    pub fn new() -> (r: Self)
        ensures
            r.column() == "text"@,
    {
        GopherQualityFilter { text_col: "text".to_string() }
    }
}

impl GopherRepetitionFilter {
    pub closed spec fn column(&self) -> Seq<char> {
        self.text_col@
    }

    /// The filter on the column `text`.
    pub fn new() -> (r: Self)
        ensures
            r.column() == "text"@,
    {
        GopherRepetitionFilter { text_col: "text".to_string() }
    }
}

impl FastTextClassifierFilter {
    pub closed spec fn column(&self) -> Seq<char> {
        self.text_col@
    }

    /// The filter on the column `text`.
    pub fn new() -> (r: Self)
        ensures
            r.column() == "text"@,
    {
        FastTextClassifierFilter { text_col: "text".to_string() }
    }
}

impl Operator for GopherQualityFilter {
    open spec fn admits(&self, before: Sample, verdict: Verdict) -> bool {
        verdict == Verdict::Kept(before)
    }

    fn process(&self, sample: Sample) -> (r: Result<Option<Sample>, OperatorError>) {
        Ok(Some(sample))
    }
}

impl Operator for GopherRepetitionFilter {
    open spec fn admits(&self, before: Sample, verdict: Verdict) -> bool {
        verdict == Verdict::Kept(before)
    }

    fn process(&self, sample: Sample) -> (r: Result<Option<Sample>, OperatorError>) {
        Ok(Some(sample))
    }
}

impl Operator for FastTextClassifierFilter {
    open spec fn admits(&self, before: Sample, verdict: Verdict) -> bool {
        verdict == Verdict::Kept(before)
    }

    fn process(&self, sample: Sample) -> (r: Result<Option<Sample>, OperatorError>) {
        Ok(Some(sample))
    }
}

} // verus!
