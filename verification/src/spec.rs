//! The declarative pipeline: where records come from, which operators they
//! pass, and where they go.

use vstd::prelude::*;
use crate::yaml::{yaml_as_string, yaml_clone, yaml_entries, yaml_get, yaml_is_mapping, yaml_kind, yaml_pairs, yaml_pairs_of};

verus! {

/// A pipeline: a source, the operators in order, and a sink.
pub struct PipelineSpec {
    pub source: SourceSpec,
    pub pipeline: Vec<OperatorNode>,
    pub sink: SinkSpec,
}

/// Where records are read from.
pub struct SourceSpec {
    pub kind: String,
    pub uris: Vec<String>,
    pub columns: ColumnMapping,
    pub batch_size: Option<usize>,
}

/// A projection of the source columns: pairs of new name and source name.
/// An empty mapping keeps every column under its own name.
pub struct ColumnMapping {
    pub mapping: Vec<(String, String)>,
}

/// One step of the pipeline: the operator's registered name and its
/// configuration.
pub struct OperatorNode {
    pub name: String,
    pub config: serde_yaml::Value,
}

/// Where records are written to.
pub struct SinkSpec {
    pub kind: String,
    pub uri: String,
    pub mode: String,
    pub shard_key: Option<String>,
    pub samples_per_shard: usize,
    pub shard_name_pattern: Option<String>,
    pub enable_trace: bool,
}

/// Why a pipeline node could not be read.
#[derive(PartialEq, Eq, Structural)]
pub enum NodeError {
    /// The node is no mapping.
    NotAMapping,
    /// The single key of the node is no string.
    NameNotAString,
    /// The node is a mapping with no key, or with several and without the
    /// pair `name` and `config`.
    Shape,
}

/// The sink mode where the pipeline file names none.
pub fn default_mode() -> (r: String)
    ensures
        r@ == "overwrite"@,
{
    "overwrite".to_string()
}

/// The records per shard where the pipeline file names no number.
pub fn default_samples_per_shard() -> (r: usize)
    ensures
        r == 10000,
{
    10000
}

impl Default for ColumnMapping {
    fn default() -> (r: Self)
        ensures
            r.mapping@.len() == 0,
    {
        ColumnMapping { mapping: Vec::new() }
    }
}

impl ColumnMapping {
    /// The source name that `new_name` stands for: that of the first pair
    /// with this new name.
    pub open spec fn source_of(&self, new_name: Seq<char>) -> Option<Seq<char>> {
        Self::lookup(self.mapping@, new_name)
    }

    pub open spec fn lookup(pairs: Seq<(String, String)>, new_name: Seq<char>) -> Option<Seq<char>>
        decreases pairs.len(),
    {
        if pairs.len() == 0 {
            None
        } else if pairs[0].0@ == new_name {
            Some(pairs[0].1@)
        } else {
            Self::lookup(pairs.drop_first(), new_name)
        }
    }
}

impl OperatorNode {
    /// Whether `value` is a mapping that holds a string under `name` and
    /// anything under `config`.
    pub open spec fn is_long_form(value: serde_yaml::Value) -> bool {
        &&& yaml_kind(value) is Mapping
        &&& yaml_entries(value).contains_key("name"@)
        &&& yaml_kind(yaml_entries(value)["name"@]) is Text
        &&& yaml_entries(value).contains_key("config"@)
    }

    /// What reading `value` as a node gives.
    pub open spec fn parsed(value: serde_yaml::Value, r: Result<OperatorNode, NodeError>) -> bool {
        if !(yaml_kind(value) is Mapping) {
            r == Err::<OperatorNode, NodeError>(NodeError::NotAMapping)
        } else if Self::is_long_form(value) {
            &&& r is Ok
            &&& r->Ok_0.name@ == yaml_kind(yaml_entries(value)["name"@])->Text_0
            &&& r->Ok_0.config == yaml_entries(value)["config"@]
        } else if yaml_pairs(value).len() != 1 {
            r == Err::<OperatorNode, NodeError>(NodeError::Shape)
        } else if !(yaml_kind(yaml_pairs(value)[0].0) is Text) {
            r == Err::<OperatorNode, NodeError>(NodeError::NameNotAString)
        } else {
            &&& r is Ok
            &&& r->Ok_0.name@ == yaml_kind(yaml_pairs(value)[0].0)->Text_0
            &&& r->Ok_0.config == yaml_pairs(value)[0].1
        }
    }

    /// Reads a pipeline node. Two forms are accepted: a mapping with the
    /// single key `<operator name>` over the configuration, and a mapping
    /// with the keys `name` and `config`.
    pub fn from_yaml(value: &serde_yaml::Value) -> (r: Result<OperatorNode, NodeError>)
        ensures
            Self::parsed(*value, r),
    {
        if !yaml_is_mapping(value) {
            return Err(NodeError::NotAMapping);
        }
        let long_name: Option<String> = match yaml_get(value, "name") {
            Some(n) => yaml_as_string(n),
            None => None,
        };
        if let Some(name) = long_name {
            if let Some(config) = yaml_get(value, "config") {
                return Ok(OperatorNode { name, config: yaml_clone(config) });
            }
        }
        let mut pairs = yaml_pairs_of(value);
        if pairs.len() != 1 {
            return Err(NodeError::Shape);
        }
        match pairs.pop() {
            Some((key, config)) => match yaml_as_string(&key) {
                Some(name) => Ok(OperatorNode { name, config }),
                None => Err(NodeError::NameNotAString),
            },
            None => Err(NodeError::Shape),
        }
    }
}

} // verus!
