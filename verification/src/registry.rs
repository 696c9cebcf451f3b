//! Registries: the implementations that a type name in the configuration can
//! stand for.

use vstd::prelude::*;
use vstd::string::*;
use crate::capabilities::CapabilityFactory;
use crate::config::Config;
use crate::json::Json;
use crate::launchers::LauncherMetadata;
use crate::models::ModelFactory;
use crate::name_map::NameMap;
use crate::providers::ProviderMetadata;

verus! {

/// The settings of an implementation that has none.
#[derive(Debug)]
pub struct NoConfig {}

/// Makes an instance of one implementation.
pub trait ConfigConstructable {
    /// What is made.
    type Built;

    /// Makes an instance from its configured id, its settings and the whole
    /// configuration.
    fn construct(&self, instance_id: &str, cfg: &Json, global_config: &Config) -> Self::Built;
}

/// Something that knows the id under which it is configured.
pub trait Named {
    /// The id under which this is configured.
    fn instance_id(&self) -> &str;
}

/// Why an instance cannot be made.
#[derive(Debug, PartialEq, Eq)]
pub enum ConstructError {
    /// The type is not registered.
    UnknownType { type_key: String },
    /// The settings are not valid.
    Settings { detail: String },
}

/// One implementation in a registry.
pub struct Registration<M, C> {
    /// What the implementation says of itself.
    pub metadata: M,
    /// The JSON schema of its settings.
    pub config_schema: Json,
    /// Its settings before the user changes anything.
    pub default_config: Json,
    /// What makes an instance of it.
    pub constructor: C,
}

/// The implementations of one kind, each under its type name.
pub struct Factory<M, C> {
    pub registry: NameMap<Registration<M, C>>,
}

/// Why no instance of a type can be made.
pub open spec fn unknown_type_text(name: Seq<char>) -> Seq<char> {
    "Unknown instance type: "@ + name
}

impl<M, C: ConfigConstructable> Factory<M, C> {
    /// The implementations, each under its type name.
    pub open spec fn types(&self) -> Map<Seq<char>, Registration<M, C>> {
        self.registry@
    }

    /// A registry with nothing in it.
    pub fn new() -> (r: Self)
        ensures
            r.types() == Map::<Seq<char>, Registration<M, C>>::empty(),
            r.registry.names().len() == 0,
    {
        Factory { registry: NameMap::new() }
    }

    /// Puts an implementation under a type name, in place of an earlier one.
    pub fn register(&mut self, name: &str, implementation: Registration<M, C>)
        ensures
            final(self).types() == old(self).types().insert(name@, implementation),
    {
        self.registry.insert(name.to_owned(), implementation);
    }

    /// Makes an instance of the implementation under a type name.
    pub fn construct(
        &self,
        name: &str,
        instance_id: &str,
        cfg: &Json,
        global_config: &Config,
    ) -> (r: Result<C::Built, String>)
        ensures
            match r {
                Ok(built) => self.types().contains_key(name@) && call_ensures(
                    C::construct,
                    (&self.types()[name@].constructor, instance_id, cfg, global_config),
                    built,
                ),
                Err(message) => !self.types().contains_key(name@) && message@ == unknown_type_text(
                    name@,
                ),
            },
    {
        match self.registry.get(name) {
            Some(implementation) => Ok(
                implementation.constructor.construct(instance_id, cfg, global_config),
            ),
            None => {
                let mut message = "Unknown instance type: ".to_owned();
                message.append(name);
                Err(message)
            },
        }
    }

    /// What the implementation under a type name says of itself.
    pub fn get(&self, name: &str) -> (r: Option<&M>)
        ensures
            match r {
                Some(metadata) => self.types().contains_key(name@) && *metadata
                    == self.types()[name@].metadata,
                None => !self.types().contains_key(name@),
            },
    {
        match self.registry.get(name) {
            Some(implementation) => Some(&implementation.metadata),
            None => None,
        }
    }

    /// Every type name with what its implementation says of itself.
    pub fn entries(&self) -> (r: Vec<(&str, &M)>)
        ensures
            r@.len() == self.registry.names().len(),
            forall|i: int|
                #![trigger r@[i]]
                0 <= i < r@.len() ==> r@[i].0@ == self.registry.names()[i]
                    && self.types().contains_key(r@[i].0@) && *r@[i].1
                    == self.types()[r@[i].0@].metadata,
            forall|name: Seq<char>| #[trigger]
                self.types().contains_key(name) ==> exists|i: int|
                    0 <= i < r@.len() && (#[trigger] r@[i]).0@ == name,
    {
        let mut out: Vec<(&str, &M)> = Vec::new();
        let n: usize = self.registry.len();
        let mut i: usize = 0;
        while i < n
            invariant
                n == self.registry.names().len(),
                i <= n,
                out@.len() == i,
                forall|j: int|
                    #![trigger out@[j]]
                    0 <= j < i ==> out@[j].0@ == self.registry.names()[j]
                        && self.types().contains_key(out@[j].0@) && *out@[j].1
                        == self.types()[out@[j].0@].metadata,
            decreases n - i,
        {
            let (name, implementation) = self.registry.at(i);
            out.push((name.as_str(), &implementation.metadata));
            i += 1;
        }
        proof {
            assert forall|name: Seq<char>| #[trigger] self.types().contains_key(name) implies exists|
                i: int,
            | 0 <= i < out@.len() && (#[trigger] out@[i]).0@ == name by {
                let k = self.registry.names().index_of(name);
                assert(self.registry.names()[k] == name);
                assert(out@[k].0@ == name);
            }
        }
        out
    }

    /// The JSON schema of the settings of the implementation under a type name.
    pub fn config_schema(&self, name: &str) -> (r: Option<&Json>)
        ensures
            match r {
                Some(schema) => self.types().contains_key(name@) && *schema
                    == self.types()[name@].config_schema,
                None => !self.types().contains_key(name@),
            },
    {
        match self.registry.get(name) {
            Some(implementation) => Some(&implementation.config_schema),
            None => None,
        }
    }

    /// The default settings of the implementation under a type name.
    pub fn default_config(&self, name: &str) -> (r: Option<&Json>)
        ensures
            match r {
                Some(value) => self.types().contains_key(name@) && *value
                    == self.types()[name@].default_config,
                None => !self.types().contains_key(name@),
            },
    {
        match self.registry.get(name) {
            Some(implementation) => Some(&implementation.default_config),
            None => None,
        }
    }
}

/// The registries of all four kinds.
pub struct Registries {
    pub launchers: NameMap<LauncherMetadata>,
    pub capabilities: CapabilityFactory,
    pub models: ModelFactory,
    pub providers: NameMap<ProviderMetadata>,
}

/// Whatever is asked of a registry for a type name is told of the implementation that is
/// registered under that name, and of nothing where there is none: what it says of itself,
/// the schema of its settings and their defaults, and what it makes.
pub proof fn law_registry_answers_for_the_name<M, C: ConfigConstructable>(
    factory: &Factory<M, C>,
    name: &str,
    instance_id: &str,
    cfg: &Json,
    global_config: &Config,
)
    ensures
        forall|r: Option<&M>| #[trigger] call_ensures(Factory::<M, C>::get, (factory, name), r) ==> (
        match r {
            Some(found) => factory.registry@.contains_key(name@) && *found
                == factory.registry@[name@].metadata,
            None => !factory.registry@.contains_key(name@),
        }),
        forall|r: Option<&Json>| #[trigger]
            call_ensures(Factory::<M, C>::config_schema, (factory, name), r) ==> (match r {
                Some(found) => factory.registry@.contains_key(name@) && *found
                    == factory.registry@[name@].config_schema,
                None => !factory.registry@.contains_key(name@),
            }),
        forall|r: Option<&Json>| #[trigger]
            call_ensures(Factory::<M, C>::default_config, (factory, name), r) ==> (match r {
                Some(found) => factory.registry@.contains_key(name@) && *found
                    == factory.registry@[name@].default_config,
                None => !factory.registry@.contains_key(name@),
            }),
        forall|r: Result<C::Built, String>| #[trigger]
            call_ensures(
                Factory::<M, C>::construct,
                (factory, name, instance_id, cfg, global_config),
                r,
            ) ==> (match r {
                Ok(built) => factory.registry@.contains_key(name@) && call_ensures(
                    C::construct,
                    (&factory.registry@[name@].constructor, instance_id, cfg, global_config),
                    built,
                ),
                Err(message) => !factory.registry@.contains_key(name@) && message@
                    == "Unknown instance type: "@ + name@,
            }),
{
}

/// Registering puts one implementation under its name and leaves every other one alone. A
/// new registry has none, and the entries of one are its names in their order, each with
/// what its implementation says of itself.
pub proof fn law_registering_touches_one_name<M, C: ConfigConstructable>(
    name: &str,
    implementation: Registration<M, C>,
    other: Seq<char>,
)
    ensures
        forall|factory: &mut Factory<M, C>| #[trigger]
            call_ensures(Factory::<M, C>::register, (factory, name, implementation), ()) ==> {
                &&& final(factory).registry@.contains_key(name@)
                &&& final(factory).registry@[name@] == implementation
                &&& other != name@ ==> final(factory).registry@.contains_key(other)
                    == factory.registry@.contains_key(other)
                &&& other != name@ && factory.registry@.contains_key(other)
                    ==> final(factory).registry@[other] == factory.registry@[other]
            },
        forall|factory: Factory<M, C>| #[trigger]
            call_ensures(Factory::<M, C>::new, (), factory) ==> !factory.registry@.contains_key(
                other,
            ),
        forall|factory: &Factory<M, C>, r: Vec<(&str, &M)>| #[trigger]
            call_ensures(Factory::<M, C>::entries, (factory,), r) ==> {
                &&& r@.len() == factory.registry.names().len()
                &&& forall|i: int|
                    0 <= i < r@.len() ==> (#[trigger] r@[i]).0@ == factory.registry.names()[i]
                        && *r@[i].1 == factory.registry@[factory.registry.names()[i]].metadata
            },
{
}

} // verus!
