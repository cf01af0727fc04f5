//! A transformer that trims and lowercases a text column in place.

use vstd::prelude::*;
use crate::op::{ConfigError, Operator, OperatorError, Verdict};
use crate::sample::{text_at, JsonKind, Sample};
use crate::text::{lowercase, lowercased, trim, trimmed};
use crate::yaml::{bool_field, str_field, yaml_bool_at, yaml_text_at};

verus! {

/// Replaces the text in `text_col` by its normal form: trimmed where
/// `strip` is set, then lowercased where `lowercase` is set. A record
/// without text in the column fails.
pub struct NormalizeTransformer {
    text_col: String,
    lowercase: bool,
    strip: bool,
}

/// The normal form of a text.
pub open spec fn normal_form(text: Seq<char>, strip: bool, lower: bool) -> Seq<char> {
    let stripped = if strip {
        trimmed(text)
    } else {
        text
    };
    if lower {
        lowercased(stripped)
    } else {
        stripped
    }
}

/// The normal form of a text, from the text and what trimming and
/// lowercasing gave.
pub fn normalize_text(text: &str, strip: bool, lower: bool) -> (r: String)
    ensures
        r@ == normal_form(text@, strip, lower),
{
    let stripped = if strip {
        trim(text)
    } else {
        text.to_string()
    };
    if lower {
        lowercase(stripped.as_str())
    } else {
        stripped
    }
}

impl NormalizeTransformer {
    pub closed spec fn column(&self) -> Seq<char> {
        self.text_col@
    }

    pub closed spec fn lowers(&self) -> bool {
        self.lowercase
    }

    pub closed spec fn strips(&self) -> bool {
        self.strip
    }

    pub fn new(text_col: String, lowercase: bool, strip: bool) -> (r: Self)
        ensures
            r.column() == text_col@,
            r.lowers() == lowercase,
            r.strips() == strip,
    {
        NormalizeTransformer { text_col, lowercase, strip }
    }

    /// The transformer that a configuration asks for. The column is the
    /// text under `text_col`, which must be there; `lowercase` and `strip`
    /// are off unless the configuration sets them.
    pub fn from_config(config: &serde_yaml::Value) -> (r: Result<Self, ConfigError>)
        ensures
            r is Ok == yaml_text_at(*config, "text_col"@).is_some(),
            r matches Ok(t) ==> {
                &&& Some(t.column()) == yaml_text_at(*config, "text_col"@)
                &&& t.lowers() == (yaml_bool_at(*config, "lowercase"@) == Some(true))
                &&& t.strips() == (yaml_bool_at(*config, "strip"@) == Some(true))
            },
    {
        let text_col = match str_field(config, "text_col") {
            Some(c) => c,
            None => {
                return Err(ConfigError { message: "text_col is required".to_string() });
            },
        };
        let lowercase = match bool_field(config, "lowercase") {
            Some(b) => b,
            None => false,
        };
        let strip = match bool_field(config, "strip") {
            Some(b) => b,
            None => false,
        };
        Ok(NormalizeTransformer { text_col, lowercase, strip })
    }
}

impl Operator for NormalizeTransformer {
    open spec fn admits(&self, before: Sample, verdict: Verdict) -> bool {
        match text_at(before@, self.column()) {
            None => verdict is Failed,
            Some(text) => verdict is Kept && before.with_column(
                self.column(),
                JsonKind::Text(normal_form(text, self.strips(), self.lowers())),
                verdict->Kept_0,
            ),
        }
    }

    fn process(&self, sample: Sample) -> (r: Result<Option<Sample>, OperatorError>) {
        let normal = match sample.get_str(self.text_col.as_str()) {
            Some(text) => normalize_text(text, self.strip, self.lowercase),
            None => {
                return Err(OperatorError { message: "Missing text field".to_string() });
            },
        };
        let mut out = sample;
        out.set_str(self.text_col.as_str(), normal.as_str());
        Ok(Some(out))
    }
}

} // verus!
