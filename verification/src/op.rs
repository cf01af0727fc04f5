//! The operator contract: one operation on one record.

use vstd::prelude::*;
use crate::sample::Sample;

verus! {

/// Why an operator could not evaluate a record.
pub struct OperatorError {
    pub message: String,
}

/// Why a factory could not build an operator from its configuration.
pub struct ConfigError {
    pub message: String,
}

/// What an operator did with a record: kept it (possibly changed), dropped
/// it, or failed on it.
pub enum Verdict {
    Kept(Sample),
    Dropped,
    Failed,
}

/// The verdict that a result of `process` stands for.
pub open spec fn verdict_of(r: Result<Option<Sample>, OperatorError>) -> Verdict {
    match r {
        Ok(Some(s)) => Verdict::Kept(s),
        Ok(None) => Verdict::Dropped,
        Err(_) => Verdict::Failed,
    }
}

/// A unit of the pipeline. Filters keep or drop a record, transformers and
/// annotators return it changed.
pub trait Operator: Send + Sync {
    /// The verdicts this operator may give on `before`. An operator that
    /// does not say gives any.
    open spec fn admits(&self, before: Sample, verdict: Verdict) -> bool {
        true
    }

    /// `Ok(Some(record'))` to keep, `Ok(None)` to drop, `Err` on failure.
    fn process(&self, sample: Sample) -> (r: Result<Option<Sample>, OperatorError>)
        ensures
            self.admits(sample, verdict_of(r)),
    ;
}

/// Builds operators from a declarative configuration value.
pub trait OperatorFactory: Send + Sync {
    /// The operators this factory builds.
    type Output: Operator;

    /// The results this factory may give on `config`. A factory that does
    /// not say gives any.
    open spec fn makes(&self, config: serde_yaml::Value, r: Result<Self::Output, ConfigError>) -> bool {
        true
    }

    fn create(&self, config: &serde_yaml::Value) -> (r: Result<Self::Output, ConfigError>)
        ensures
            self.makes(*config, r),
    ;
}

/// An operator behind a pointer, for pipelines that mix operators of many
/// types.
pub struct DynOperator(pub Box<dyn Operator>);

impl Operator for DynOperator {
    open spec fn admits(&self, before: Sample, verdict: Verdict) -> bool {
        self.0.admits(before, verdict)
    }

    fn process(&self, sample: Sample) -> (r: Result<Option<Sample>, OperatorError>) {
        self.0.process(sample)
    }
}

} // verus!
