//! The staged pipeline file: stages with their inputs, operators and outputs.

use vstd::prelude::*;
use crate::text::str_eq;
use crate::yaml::{yaml_as_string, yaml_pairs, yaml_pairs_of, yaml_text};

verus! {

/// A pipeline of stages.
pub struct PipelineConfig {
    pub name: String,
    pub stages: Vec<StageConfig>,
}

/// One stage: where it reads, what it applies, where it writes.
pub struct StageConfig {
    pub name: String,
    pub input: Option<InputConfig>,
    pub operators: Vec<OperatorConfig>,
    pub output: OutputConfig,
}

/// The input of a stage.
pub struct InputConfig {
    pub source: DataSourceConfig,
}

/// The output of a stage.
pub struct OutputConfig {
    pub source: DataSourceConfig,
}

/// A place to read from or write to.
pub struct DataSourceConfig {
    pub source_type: String,
    pub path: Option<String>,
    pub streaming: Option<bool>,
    pub token: Option<String>,
    pub limit: Option<usize>,
}

/// An operator of a stage: its name alone, or the entries of a mapping that
/// names it, in the order of the file.
pub enum OperatorConfig {
    Simple(String),
    WithParams { params: Vec<(String, serde_yaml::Value)> },
}

/// Why a pipeline of stages is refused.
pub enum ConfigIssue {
    /// Two stages have this name.
    DuplicateStage { name: String },
    /// The first stage, of this name, has no input.
    FirstStageWithoutInput { name: String },
}

/// Whether a key of an operator mapping is one of the standard fields
/// rather than the operator's name.
pub open spec fn is_standard_key(key: Seq<char>) -> bool {
    key == "id"@ || key == "kind"@ || key == "op"@ || key == "params"@
}

/// The index of the first stage whose name an earlier stage has.
pub open spec fn first_repeat(names: Seq<Seq<char>>, upto: int) -> Option<int>
    decreases upto,
{
    if upto <= 0 {
        None
    } else {
        match first_repeat(names, upto - 1) {
            Some(i) => Some(i),
            None => if exists|k: int| 0 <= k < upto - 1 && #[trigger] names[k] == names[upto - 1] {
                Some(upto - 1)
            } else {
                None
            },
        }
    }
}

/// The key of the first entry that is no standard field.
pub open spec fn first_custom_key(params: Seq<(String, serde_yaml::Value)>) -> Option<Seq<char>>
    decreases params.len(),
{
    if params.len() == 0 {
        None
    } else if !is_standard_key(params[0].0@) {
        Some(params[0].0@)
    } else {
        first_custom_key(params.drop_first())
    }
}

/// The value of the first entry under `key`.
pub open spec fn first_under(params: Seq<(String, serde_yaml::Value)>, key: Seq<char>) -> Option<
    serde_yaml::Value,
>
    decreases params.len(),
{
    if params.len() == 0 {
        None
    } else if params[0].0@ == key {
        Some(params[0].1)
    } else {
        first_under(params.drop_first(), key)
    }
}

/// The entries of a nested mapping that stand under a string key, as pairs
/// of key and value, in order.
pub open spec fn text_keyed(pairs: Seq<(serde_yaml::Value, serde_yaml::Value)>) -> Seq<
    (Seq<char>, serde_yaml::Value),
>
    decreases pairs.len(),
{
    if pairs.len() == 0 {
        Seq::empty()
    } else {
        let rest = text_keyed(pairs.drop_last());
        match yaml_text(pairs.last().0) {
            Some(k) => rest.push((k, pairs.last().1)),
            None => rest,
        }
    }
}

/// The parameters that the entries of an operator mapping give: those
/// nested under the operator's name and under `params`, in order. The
/// entries `id`, `kind` and `op` give none.
pub open spec fn params_of(entries: Seq<(String, serde_yaml::Value)>) -> Seq<(Seq<char>, serde_yaml::Value)>
    decreases entries.len(),
{
    if entries.len() == 0 {
        Seq::empty()
    } else {
        let rest = params_of(entries.drop_last());
        let key = entries.last().0@;
        if key == "id"@ || key == "kind"@ || key == "op"@ {
            rest
        } else {
            rest + text_keyed(yaml_pairs(entries.last().1))
        }
    }
}

/// The pairs of a vector of named values, by the views of the names.
pub open spec fn named(pairs: Seq<(String, serde_yaml::Value)>) -> Seq<(Seq<char>, serde_yaml::Value)> {
    pairs.map_values(|p: (String, serde_yaml::Value)| (p.0@, p.1))
}

fn key_is_standard(key: &str) -> (r: bool)
    ensures
        r == is_standard_key(key@),
{
    str_eq(key, "id") || str_eq(key, "kind") || str_eq(key, "op") || str_eq(key, "params")
}

impl PipelineConfig {
    /// The names of the stages, in order.
    pub open spec fn stage_names(&self) -> Seq<Seq<char>> {
        self.stages@.map_values(|s: StageConfig| s.name@)
    }

    /// Checks that no two stages share a name and that the first stage has
    /// an input. A repeated name is reported before a missing input.
    pub fn validate(&self) -> (r: Result<(), ConfigIssue>)
        ensures
            match r {
                Ok(()) => first_repeat(self.stage_names(), self.stages@.len() as int) is None && (
                self.stages@.len() > 0 ==> self.stages@[0].input is Some),
                Err(ConfigIssue::DuplicateStage { name }) => first_repeat(
                    self.stage_names(),
                    self.stages@.len() as int,
                ) matches Some(i) && name@ == self.stages@[i].name@,
                Err(ConfigIssue::FirstStageWithoutInput { name }) => {
                    &&& first_repeat(self.stage_names(), self.stages@.len() as int) is None
                    &&& self.stages@.len() > 0
                    &&& self.stages@[0].input is None
                    &&& name@ == self.stages@[0].name@
                },
            },
    {
        let ghost names = self.stage_names();
        let mut i: usize = 0;
        while i < self.stages.len()
            invariant
                i <= self.stages@.len(),
                names == self.stage_names(),
                first_repeat(names, i as int) is None,
            decreases self.stages@.len() - i,
        {
            let mut k: usize = 0;
            while k < i
                invariant
                    k <= i < self.stages@.len(),
                    names == self.stage_names(),
                    first_repeat(names, i as int) is None,
                    forall|j: int| 0 <= j < k ==> names[j] != names[i as int],
                decreases i - k,
            {
                if str_eq(self.stages[k].name.as_str(), self.stages[i].name.as_str()) {
                    proof {
                        assert(names[k as int] == names[i as int]);
                        assert(first_repeat(names, i as int + 1) == Some(i as int));
                        lemma_repeat_stays(names, i as int + 1, self.stages@.len() as int);
                    }
                    return Err(ConfigIssue::DuplicateStage { name: self.stages[i].name.clone() });
                }
                k += 1;
            }
            i += 1;
        }
        if self.stages.len() > 0 {
            if self.stages[0].input.is_none() {
                return Err(ConfigIssue::FirstStageWithoutInput { name: self.stages[0].name.clone() });
            }
        }
        Ok(())
    }
}

/// A repeat found among the first `n` names is the first repeat among more.
pub proof fn lemma_repeat_stays(names: Seq<Seq<char>>, n: int, m: int)
    requires
        0 <= n <= m,
        first_repeat(names, n) is Some,
    ensures
        first_repeat(names, m) == first_repeat(names, n),
    decreases m - n,
{
    if n < m {
        lemma_repeat_stays(names, n, m - 1);
    }
}

impl OperatorConfig {
    /// The operator's name: the text itself; or the first key of the mapping
    /// that is no standard field; or the text under `op`; or `unknown`.
    pub open spec fn operator_name(&self) -> Seq<char> {
        match self {
            OperatorConfig::Simple(name) => name@,
            OperatorConfig::WithParams { params } => match first_custom_key(params@) {
                Some(key) => key,
                None => match first_under(params@, "op"@) {
                    Some(v) => match yaml_text(v) {
                        Some(t) => t,
                        None => "unknown"@,
                    },
                    None => "unknown"@,
                },
            },
        }
    }

    pub fn get_operator_name(&self) -> (r: String)
        ensures
            r@ == self.operator_name(),
    {
        match self {
            OperatorConfig::Simple(name) => name.clone(),
            OperatorConfig::WithParams { params } => {
                let mut i: usize = 0;
                assert(params@.skip(0) =~= params@);
                while i < params.len()
                    invariant
                        i <= params@.len(),
                        *self == (OperatorConfig::WithParams { params: *params }),
                        first_custom_key(params@) == first_custom_key(params@.skip(i as int)),
                    decreases params@.len() - i,
                {
                    assert(params@.skip(i as int).drop_first() =~= params@.skip(i + 1));
                    assert(params@.skip(i as int)[0] == params@[i as int]);
                    if !key_is_standard(params[i].0.as_str()) {
                        return params[i].0.clone();
                    }
                    i += 1;
                }
                let mut k: usize = 0;
                while k < params.len()
                    invariant
                        k <= params@.len(),
                        *self == (OperatorConfig::WithParams { params: *params }),
                        first_custom_key(params@) is None,
                        first_under(params@, "op"@) == first_under(params@.skip(k as int), "op"@),
                    decreases params@.len() - k,
                {
                    assert(params@.skip(k as int).drop_first() =~= params@.skip(k + 1));
                    assert(params@.skip(k as int)[0] == params@[k as int]);
                    if str_eq(params[k].0.as_str(), "op") {
                        return match yaml_as_string(&params[k].1) {
                            Some(t) => t,
                            None => "unknown".to_string(),
                        };
                    }
                    k += 1;
                }
                "unknown".to_string()
            },
        }
    }

    /// The operator's parameters: none for a name alone; for a mapping, the
    /// entries with a string key that are nested under the operator's name
    /// and under `params`. Where a name occurs twice, the later pair counts.
    pub fn get_params(&self) -> (r: Vec<(String, serde_yaml::Value)>)
        ensures
            named(r@) == (match self {
                OperatorConfig::Simple(_) => Seq::empty(),
                OperatorConfig::WithParams { params } => params_of(params@),
            }),
    {
        let mut out: Vec<(String, serde_yaml::Value)> = Vec::new();
        match self {
            OperatorConfig::Simple(_) => {
                assert(named(out@) =~= Seq::empty());
            },
            OperatorConfig::WithParams { params } => {
                let mut i: usize = 0;
                assert(params@.take(0) =~= Seq::empty());
                assert(named(out@) =~= Seq::empty());
                while i < params.len()
                    invariant
                        i <= params@.len(),
                        named(out@) == params_of(params@.take(i as int)),
                    decreases params@.len() - i,
                {
                    let key = params[i].0.as_str();
                    let ghost upto = params@.take(i + 1);
                    assert(upto.drop_last() =~= params@.take(i as int));
                    assert(upto.last() == params@[i as int]);
                    if !(str_eq(key, "id") || str_eq(key, "kind") || str_eq(key, "op")) {
                        let nested = yaml_pairs_of(&params[i].1);
                        let ghost base = named(out@);
                        let mut k: usize = 0;
                        assert(nested@.take(0) =~= Seq::empty());
                        assert(base + Seq::empty() =~= base);
                        while k < nested.len()
                            invariant
                                k <= nested@.len(),
                                named(out@) == base + text_keyed(nested@.take(k as int)),
                            decreases nested@.len() - k,
                        {
                            let ghost pairs = nested@.take(k + 1);
                            assert(pairs.drop_last() =~= nested@.take(k as int));
                            assert(pairs.last() == nested@[k as int]);
                            let ghost sofar = out@;
                            if let Some(name) = yaml_as_string(&nested[k].0) {
                                let value = crate::yaml::yaml_clone(&nested[k].1);
                                out.push((name, value));
                                assert(named(out@) =~= named(sofar).push((name@, value)));
                                assert(base + text_keyed(nested@.take(k as int)).push((name@, value)) =~= (
                                base + text_keyed(nested@.take(k as int))).push((name@, value)));
                            }
                            k += 1;
                        }
                        assert(nested@.take(nested@.len() as int) =~= nested@);
                    }
                    i += 1;
                }
                assert(params@.take(params@.len() as int) =~= params@);
            },
        }
        out
    }
}

} // verus!
