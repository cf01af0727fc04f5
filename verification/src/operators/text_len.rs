//! A filter on the length of a text column, counted in characters.

use vstd::prelude::*;
use crate::op::{ConfigError, Operator, OperatorError, Verdict};
use crate::sample::{text_at, Sample};
use crate::yaml::{str_field, u64_field, yaml_text_at, yaml_uint_at};

verus! {

/// Keeps the records whose text in `text_col` has a length within the
/// bounds. Without bounds every record is kept; with a bound, a record
/// without text in the column fails.
pub struct TextLenFilter {
    text_col: String,
    lower_bound: Option<u32>,
    upper_bound: Option<u32>,
}

/// Whether a length is within the optional bounds.
pub open spec fn within(len: u32, lower: Option<u32>, upper: Option<u32>) -> bool {
    &&& lower matches Some(lb) ==> len >= lb
    &&& upper matches Some(ub) ==> len <= ub
}

/// The low 32 bits of a configured bound.
pub open spec fn bound_of(v: Option<u64>) -> Option<u32> {
    match v {
        Some(x) => Some((x & 0xffff_ffff) as u32),
        None => None,
    }
}

/// The low 32 bits of a length.
pub open spec fn length_of(text: Seq<char>) -> u32 {
    ((text.len() as usize) & 0xffff_ffff) as u32
}

fn low_bits(x: u64) -> (r: u32)
    ensures
        r == (x & 0xffff_ffff) as u32,
{
    assert(x & 0xffff_ffff <= 0xffff_ffff) by (bit_vector);
    (x & 0xffff_ffff) as u32
}

fn low_bits_of_length(x: usize) -> (r: u32)
    ensures
        r == (x & 0xffff_ffff) as u32,
{
    assert(x & 0xffff_ffff <= 0xffff_ffff) by (bit_vector);
    (x & 0xffff_ffff) as u32
}

impl TextLenFilter {
    pub closed spec fn column(&self) -> Seq<char> {
        self.text_col@
    }

    pub closed spec fn lower(&self) -> Option<u32> {
        self.lower_bound
    }

    pub closed spec fn upper(&self) -> Option<u32> {
        self.upper_bound
    }

    /// What the filter does with a record.
    pub open spec fn verdict(&self, before: Sample) -> Verdict {
        if self.lower() is None && self.upper() is None {
            Verdict::Kept(before)
        } else {
            match text_at(before@, self.column()) {
                None => Verdict::Failed,
                Some(text) => if within(length_of(text), self.lower(), self.upper()) {
                    Verdict::Kept(before)
                } else {
                    Verdict::Dropped
                },
            }
        }
    }

    pub fn new(text_col: String, lower_bound: Option<u32>, upper_bound: Option<u32>) -> (r: Self)
        ensures
            r.column() == text_col@,
            r.lower() == lower_bound,
            r.upper() == upper_bound,
    {
        TextLenFilter { text_col, lower_bound, upper_bound }
    }

    /// The filter that a configuration asks for. The column is the text
    /// under `text_col`, which must be there; the bounds are the integers
    /// under `lower_bound` and `upper_bound`, where there are any.
    pub fn from_config(config: &serde_yaml::Value) -> (r: Result<Self, ConfigError>)
        ensures
            r is Ok == yaml_text_at(*config, "text_col"@).is_some(),
            r matches Ok(f) ==> {
                &&& Some(f.column()) == yaml_text_at(*config, "text_col"@)
                &&& f.lower() == bound_of(yaml_uint_at(*config, "lower_bound"@))
                &&& f.upper() == bound_of(yaml_uint_at(*config, "upper_bound"@))
            },
    {
        let text_col = match str_field(config, "text_col") {
            Some(c) => c,
            None => {
                return Err(ConfigError { message: "text_col is required".to_string() });
            },
        };
        let lower_bound = match u64_field(config, "lower_bound") {
            Some(v) => Some(low_bits(v)),
            None => None,
        };
        let upper_bound = match u64_field(config, "upper_bound") {
            Some(v) => Some(low_bits(v)),
            None => None,
        };
        Ok(TextLenFilter { text_col, lower_bound, upper_bound })
    }
}

impl Operator for TextLenFilter {
    open spec fn admits(&self, before: Sample, verdict: Verdict) -> bool {
        verdict == self.verdict(before)
    }

    fn process(&self, sample: Sample) -> (r: Result<Option<Sample>, OperatorError>) {
        if self.lower_bound.is_none() && self.upper_bound.is_none() {
            return Ok(Some(sample));
        }
        let len: u32 = match sample.get_str(self.text_col.as_str()) {
            Some(text) => low_bits_of_length(text.unicode_len()),
            None => {
                return Err(OperatorError { message: "Missing text field".to_string() });
            },
        };
        let lower_ok = match self.lower_bound {
            Some(lb) => len >= lb,
            None => true,
        };
        let upper_ok = match self.upper_bound {
            Some(ub) => len <= ub,
            None => true,
        };
        if lower_ok && upper_ok {
            Ok(Some(sample))
        } else {
            Ok(None)
        }
    }
}

} // verus!
