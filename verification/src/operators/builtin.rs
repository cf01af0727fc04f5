//! The operators of the library under one type, their factories, and the
//! names they are registered under.

use vstd::prelude::*;
use crate::op::{ConfigError, Operator, OperatorError, OperatorFactory, Verdict};
use crate::operators::add_id::AddIdAnnotator;
use crate::operators::normalize::NormalizeTransformer;
use crate::operators::keep_all::{FastTextClassifierFilter, GopherQualityFilter, GopherRepetitionFilter};
use crate::operators::text_len::TextLenFilter;
use crate::registry::OperatorRegistry;
use crate::sample::Sample;

verus! {

/// Any operator of the library.
pub enum BuiltinOperator {
    AddId(AddIdAnnotator),
    TextLen(TextLenFilter),
    Normalize(NormalizeTransformer),
    GopherQuality(GopherQualityFilter),
    GopherRepetition(GopherRepetitionFilter),
    FastTextClassifier(FastTextClassifierFilter),
}

/// The factory of each operator of the library.
#[derive(Clone, Copy, PartialEq, Eq, Structural, Debug)]
pub enum BuiltinFactory {
    AddId,
    TextLen,
    Normalize,
    GopherQuality,
    GopherRepetition,
    FastTextClassifier,
}

impl Operator for BuiltinOperator {
    open spec fn admits(&self, before: Sample, verdict: Verdict) -> bool {
        match self {
            BuiltinOperator::AddId(op) => op.admits(before, verdict),
            BuiltinOperator::TextLen(op) => op.admits(before, verdict),
            BuiltinOperator::Normalize(op) => op.admits(before, verdict),
            BuiltinOperator::GopherQuality(op) => op.admits(before, verdict),
            BuiltinOperator::GopherRepetition(op) => op.admits(before, verdict),
            BuiltinOperator::FastTextClassifier(op) => op.admits(before, verdict),
        }
    }

    fn process(&self, sample: Sample) -> (r: Result<Option<Sample>, OperatorError>) {
        match self {
            BuiltinOperator::AddId(op) => op.process(sample),
            BuiltinOperator::TextLen(op) => op.process(sample),
            BuiltinOperator::Normalize(op) => op.process(sample),
            BuiltinOperator::GopherQuality(op) => op.process(sample),
            BuiltinOperator::GopherRepetition(op) => op.process(sample),
            BuiltinOperator::FastTextClassifier(op) => op.process(sample),
        }
    }
}

impl BuiltinFactory {
    /// The name that the factory is registered under.
    pub open spec fn registered_name(&self) -> Seq<char> {
        match self {
            BuiltinFactory::AddId => "add_id"@,
            BuiltinFactory::TextLen => "text_len_filter"@,
            BuiltinFactory::Normalize => "text_normalize_transformer"@,
            BuiltinFactory::GopherQuality => "text.gopher_quality_filter"@,
            BuiltinFactory::GopherRepetition => "text.gopher_repetition_filter"@,
            BuiltinFactory::FastTextClassifier => "text.fasttext_classifier_filter"@,
        }
    }

    /// The name that the factory is registered under.
    pub fn name(&self) -> (r: &'static str)
        ensures
            r@ == self.registered_name(),
    {
        match self {
            BuiltinFactory::AddId => "add_id",
            BuiltinFactory::TextLen => "text_len_filter",
            BuiltinFactory::Normalize => "text_normalize_transformer",
            BuiltinFactory::GopherQuality => "text.gopher_quality_filter",
            BuiltinFactory::GopherRepetition => "text.gopher_repetition_filter",
            BuiltinFactory::FastTextClassifier => "text.fasttext_classifier_filter",
        }
    }
}

impl OperatorFactory for BuiltinFactory {
    type Output = BuiltinOperator;

    /// Each factory builds its own operator. Those of the text-length
    /// filter and of the normalizer ask for the key `text_col` and refuse a
    /// configuration without it; the others accept any.
    open spec fn makes(&self, config: serde_yaml::Value, r: Result<BuiltinOperator, ConfigError>) -> bool {
        match self {
            BuiltinFactory::AddId => r matches Ok(BuiltinOperator::AddId(op)) && op.column() == (
            match crate::yaml::yaml_text_at(config, "id_col"@) {
                Some(c) => c,
                None => "id"@,
            }),
            BuiltinFactory::TextLen => {
                &&& r is Ok == crate::yaml::yaml_text_at(config, "text_col"@).is_some()
                &&& r matches Ok(op) ==> op matches BuiltinOperator::TextLen(f) && {
                    &&& Some(f.column()) == crate::yaml::yaml_text_at(config, "text_col"@)
                    &&& f.lower() == crate::operators::text_len::bound_of(
                        crate::yaml::yaml_uint_at(config, "lower_bound"@),
                    )
                    &&& f.upper() == crate::operators::text_len::bound_of(
                        crate::yaml::yaml_uint_at(config, "upper_bound"@),
                    )
                }
            },
            BuiltinFactory::Normalize => {
                &&& r is Ok == crate::yaml::yaml_text_at(config, "text_col"@).is_some()
                &&& r matches Ok(op) ==> op matches BuiltinOperator::Normalize(t) && {
                    &&& Some(t.column()) == crate::yaml::yaml_text_at(config, "text_col"@)
                    &&& t.lowers() == (crate::yaml::yaml_bool_at(config, "lowercase"@) == Some(true))
                    &&& t.strips() == (crate::yaml::yaml_bool_at(config, "strip"@) == Some(true))
                }
            },
            BuiltinFactory::GopherQuality => r matches Ok(BuiltinOperator::GopherQuality(op)) && op.column()
                == "text"@,
            BuiltinFactory::GopherRepetition => r matches Ok(BuiltinOperator::GopherRepetition(op))
                && op.column() == "text"@,
            BuiltinFactory::FastTextClassifier => r matches Ok(BuiltinOperator::FastTextClassifier(op))
                && op.column() == "text"@,
        }
    }

    fn create(&self, config: &serde_yaml::Value) -> (r: Result<BuiltinOperator, ConfigError>) {
        match self {
            BuiltinFactory::AddId => Ok(BuiltinOperator::AddId(AddIdAnnotator::from_config(config))),
            BuiltinFactory::TextLen => match TextLenFilter::from_config(config) {
                Ok(f) => Ok(BuiltinOperator::TextLen(f)),
                Err(e) => Err(e),
            },
            BuiltinFactory::Normalize => match NormalizeTransformer::from_config(config) {
                Ok(t) => Ok(BuiltinOperator::Normalize(t)),
                Err(e) => Err(e),
            },
            BuiltinFactory::GopherQuality => Ok(BuiltinOperator::GopherQuality(GopherQualityFilter::new())),
            BuiltinFactory::GopherRepetition => Ok(
                BuiltinOperator::GopherRepetition(GopherRepetitionFilter::new()),
            ),
            BuiltinFactory::FastTextClassifier => Ok(
                BuiltinOperator::FastTextClassifier(FastTextClassifierFilter::new()),
            ),
        }
    }
}

/// Registers `factory` under its name.
pub fn register(registry: &mut OperatorRegistry<BuiltinFactory>, factory: BuiltinFactory)
    ensures
        final(registry).factory(factory.registered_name()) == Some(factory),
        forall|other: Seq<char>|
            other != factory.registered_name() ==> final(registry).factory(other) == old(registry).factory(
                other,
            ),
{
    registry.register(factory.name(), factory);
}

/// Whether `name` is the name of an operator of the library.
pub open spec fn is_builtin_name(name: Seq<char>) -> bool {
    exists|f: BuiltinFactory| #[trigger] f.registered_name() == name
}

/// Registers every operator of the library under its name. Other names keep
/// the factory they had.
pub fn register_all(registry: &mut OperatorRegistry<BuiltinFactory>) -> (r: Result<(), ConfigError>)
    ensures
        r is Ok,
        forall|f: BuiltinFactory| final(registry).factory(#[trigger] f.registered_name()) == Some(f),
        forall|other: Seq<char>|
            !is_builtin_name(other) ==> final(registry).factory(other) == old(registry).factory(other),
{
    proof {
        reveal_strlit("add_id");
        reveal_strlit("text_len_filter");
        reveal_strlit("text_normalize_transformer");
        reveal_strlit("text.gopher_quality_filter");
        reveal_strlit("text.gopher_repetition_filter");
        reveal_strlit("text.fasttext_classifier_filter");
        lemma_names_differ();
    }
    register(registry, BuiltinFactory::AddId);
    register(registry, BuiltinFactory::TextLen);
    register(registry, BuiltinFactory::Normalize);
    register(registry, BuiltinFactory::GopherQuality);
    register(registry, BuiltinFactory::GopherRepetition);
    register(registry, BuiltinFactory::FastTextClassifier);
    proof {
        assert forall|other: Seq<char>| !is_builtin_name(other) implies registry.factory(other) == old(
            registry,
        ).factory(other) by {
            assert(BuiltinFactory::AddId.registered_name() != other);
            assert(BuiltinFactory::TextLen.registered_name() != other);
            assert(BuiltinFactory::Normalize.registered_name() != other);
            assert(BuiltinFactory::GopherQuality.registered_name() != other);
            assert(BuiltinFactory::GopherRepetition.registered_name() != other);
            assert(BuiltinFactory::FastTextClassifier.registered_name() != other);
        }
    }
    Ok(())
}

/// No two factories share a name.
pub proof fn lemma_names_differ()
    ensures
        forall|f: BuiltinFactory, g: BuiltinFactory|
            f != g ==> #[trigger] f.registered_name() != #[trigger] g.registered_name(),
{
    reveal_strlit("add_id");
    reveal_strlit("text_len_filter");
    reveal_strlit("text_normalize_transformer");
    reveal_strlit("text.gopher_quality_filter");
    reveal_strlit("text.gopher_repetition_filter");
    reveal_strlit("text.fasttext_classifier_filter");
    assert forall|f: BuiltinFactory, g: BuiltinFactory| f != g implies #[trigger] f.registered_name()
        != #[trigger] g.registered_name() by {
        let a = f.registered_name();
        let b = g.registered_name();
        if a.len() == b.len() {
            // the names of equal length differ in a character
            assert("text.gopher_quality_filter"@.len() == 26);
            assert("text_normalize_transformer"@.len() == 26);
            assert("text.gopher_quality_filter"@[4] == '.');
            assert("text_normalize_transformer"@[4] == '_');
        }
    }
}

} // verus!
