//! The registry: operator factories by name.

use vstd::prelude::*;
use crate::op::{ConfigError, Operator, OperatorFactory};
use crate::text::str_eq;

verus! {

/// Why an operator could not be built.
pub enum BuildError {
    /// No factory is registered under the name.
    UnknownOperator { name: String },
    /// The factory of `operator` refused the configuration.
    ConfigError { operator: String, message: String },
}

/// Operator factories by name. A later registration under a name replaces
/// the earlier one.
pub struct OperatorRegistry<F: OperatorFactory> {
    factories: Vec<(String, F)>,
}

/// The index of the last entry under `name`.
pub open spec fn last_under<F>(entries: Seq<(String, F)>, name: Seq<char>) -> Option<int>
    decreases entries.len(),
{
    if entries.len() == 0 {
        None
    } else if entries.last().0@ == name {
        Some(entries.len() - 1)
    } else {
        last_under(entries.drop_last(), name)
    }
}

proof fn lemma_last_under_bounds<F>(entries: Seq<(String, F)>, name: Seq<char>)
    ensures
        last_under(entries, name) matches Some(i) ==> 0 <= i < entries.len() && entries[i].0@
            == name,
    decreases entries.len(),
{
    if entries.len() > 0 && entries.last().0@ != name {
        lemma_last_under_bounds(entries.drop_last(), name);
    }
}

impl<F: OperatorFactory> OperatorRegistry<F> {
    /// The registrations, oldest first.
    pub closed spec fn entries(&self) -> Seq<(String, F)> {
        self.factories@
    }

    /// The factory in force under `name`.
    pub open spec fn factory(&self, name: Seq<char>) -> Option<F> {
        match last_under(self.entries(), name) {
            Some(i) => Some(self.entries()[i].1),
            None => None,
        }
    }

    /// What building the operator `name` from `config` gives.
    pub open spec fn builds(
        &self,
        name: Seq<char>,
        config: serde_yaml::Value,
        r: Result<F::Output, BuildError>,
    ) -> bool {
        match self.factory(name) {
            None => r matches Err(BuildError::UnknownOperator { name: n }) && n@ == name,
            Some(f) => match r {
                Ok(op) => f.makes(config, Ok(op)),
                Err(BuildError::ConfigError { operator, message }) => operator@ == name && f.makes(
                    config,
                    Err(ConfigError { message }),
                ),
                Err(_) => false,
            },
        }
    }

    /// A registry without factories.
    pub fn new() -> (r: Self)
        ensures
            r.entries().len() == 0,
            forall|name: Seq<char>| r.factory(name) is None,
    {
        OperatorRegistry { factories: Vec::new() }
    }

    /// Registers `factory` under `name`.
    pub fn register(&mut self, name: &str, factory: F)
        ensures
            final(self).entries() == old(self).entries().push((final(self).entries().last().0, factory)),
            final(self).entries().last().0@ == name@,
            final(self).factory(name@) == Some(factory),
            forall|other: Seq<char>| other != name@ ==> final(self).factory(other) == old(self).factory(other),
    {
        self.factories.push((name.to_string(), factory));
        proof {
            assert(self.factories@.drop_last() =~= old(self).factories@);
            assert forall|other: Seq<char>| other != name@ implies self.factory(other) == old(
                self,
            ).factory(other) by {
                lemma_last_under_bounds(old(self).factories@, other);
            }
        }
    }

    /// Whether a factory is registered under `name`.
    pub fn contains(&self, name: &str) -> (r: bool)
        ensures
            r == self.factory(name@).is_some(),
    {
        self.find(name).is_some()
    }

    fn find(&self, name: &str) -> (r: Option<usize>)
        ensures
            match r {
                Some(i) => last_under(self.entries(), name@) == Some(i as int) && i < self.entries().len(),
                None => last_under(self.entries(), name@) is None,
            },
    {
        let mut i: usize = self.factories.len();
        assert(self.factories@.take(i as int) =~= self.factories@);
        while i > 0
            invariant
                i <= self.factories.len(),
                last_under(self.factories@, name@) == last_under(self.factories@.take(i as int), name@),
            decreases i,
        {
            i -= 1;
            let ghost upto = self.factories@.take(i + 1);
            assert(upto.last() == self.factories@[i as int]);
            assert(upto.drop_last() =~= self.factories@.take(i as int));
            if str_eq(self.factories[i].0.as_str(), name) {
                return Some(i);
            }
        }
        None
    }

    /// Builds the operator registered under `name` from `config`.
    pub fn build(&self, name: &str, config: &serde_yaml::Value) -> (r: Result<F::Output, BuildError>)
        ensures
            self.builds(name@, *config, r),
    {
        match self.find(name) {
            None => Err(BuildError::UnknownOperator { name: name.to_string() }),
            Some(i) => match self.factories[i].1.create(config) {
                Ok(op) => Ok(op),
                Err(e) => Err(BuildError::ConfigError { operator: name.to_string(), message: e.message }),
            },
        }
    }
}

/// A factory given as a function from the configuration to the operator.
#[verifier::reject_recursive_types(O)]
#[verifier::reject_recursive_types(F)]
pub struct FnFactory<O: Operator, F: Fn(&serde_yaml::Value) -> Result<O, ConfigError> + Send + Sync> {
    f: F,
    output: core::marker::PhantomData<O>,
}

impl<O: Operator, F: Fn(&serde_yaml::Value) -> Result<O, ConfigError> + Send + Sync> FnFactory<O, F> {
    /// The function that builds the operators.
    pub closed spec fn function(&self) -> F {
        self.f
    }

    #[verifier::type_invariant]
    spec fn accepts_every_configuration(&self) -> bool {
        forall|config: &serde_yaml::Value| call_requires(self.f, (config,))
    }

    /// The factory of a function that accepts every configuration.
    pub fn new(f: F) -> (r: Self)
        requires
            forall|config: &serde_yaml::Value| call_requires(f, (config,)),
        ensures
            r.function() == f,
    {
        FnFactory { f, output: core::marker::PhantomData }
    }
}

impl<O: Operator, F: Fn(&serde_yaml::Value) -> Result<O, ConfigError> + Send + Sync> OperatorFactory for FnFactory<
    O,
    F,
> {
    type Output = O;

    /// The factory gives what its function gives.
    open spec fn makes(&self, config: serde_yaml::Value, r: Result<O, ConfigError>) -> bool {
        call_ensures(self.function(), (&config,), r)
    }

    fn create(&self, config: &serde_yaml::Value) -> (r: Result<O, ConfigError>) {
        proof {
            use_type_invariant(self);
        }
        (self.f)(config)
    }
}

impl<O: Operator, F: Fn(&serde_yaml::Value) -> Result<O, ConfigError> + Send + Sync> OperatorRegistry<
    FnFactory<O, F>,
> {
    /// Registers a function as the factory of `name`.
    pub fn register_fn(&mut self, name: &str, factory_fn: F)
        requires
            forall|config: &serde_yaml::Value| call_requires(factory_fn, (config,)),
        ensures
            final(self).factory(name@) matches Some(factory) && factory.function() == factory_fn,
            forall|other: Seq<char>| other != name@ ==> final(self).factory(other) == old(self).factory(other),
    {
        self.register(name, FnFactory::new(factory_fn));
    }
}

} // verus!
