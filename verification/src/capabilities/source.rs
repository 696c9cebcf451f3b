//! Where configured capabilities come from. A capability is built when it is first
//! asked for, and whoever asks again gets the same one.

use std::sync::Arc;
use vstd::prelude::*;
use vstd::string::*;
use crate::capabilities::{BuiltCapability, CapabilityMetadata};
use crate::config::validation::{error_text, first_error, validate_ref, RefKind};
use crate::config::Config;
use crate::json::Json;
use crate::models::source::ModelSource;
use crate::name_map::NameMap;
use crate::registry::{unknown_type_text, Registries};
use crate::shared::share;

verus! {

/// The capabilities of one configuration.
pub struct CapabilitySource {
    pub config: Arc<Config>,
    pub registries: Arc<Registries>,
    /// Where the models of the capabilities come from.
    pub models: Arc<ModelSource>,
}

/// Why a capability cannot be built: it is not configured, its references do not
/// resolve, or its type is unknown.
pub open spec fn capability_problem(config: Config, registries: Registries, id: Seq<char>) -> Option<
    Seq<char>,
> {
    if !config.capabilities@.contains_key(id) {
        Some("capability '"@ + id + "' is not configured"@)
    } else {
        let entry = config.capabilities@[id];
        match first_error(
            config,
            registries,
            (RefKind::Capability, entry.capability_id@),
            None,
        ) {
            Some(error) => Some("Skipping capability '"@ + id + "': "@ + error_text(error)),
            None => {
                let name = entry.capability_type@;
                if registries.capabilities.types().contains_key(name) {
                    None
                } else {
                    Some("could not construct capability '"@ + id + "': "@ + unknown_type_text(name))
                }
            },
        }
    }
}

/// Tells whether a capability is the one that is configured under an id.
pub open spec fn is_built(
    config: Config,
    registries: Registries,
    id: Seq<char>,
    capability: BuiltCapability,
) -> bool {
    let entry = config.capabilities@[id];
    registries.capabilities.types()[entry.capability_type@].constructor.builds(
        entry.capability_id@,
        entry.config.tree(),
        config,
        capability,
    )
}

/// The capabilities among the given ids that can be had: those that were built
/// before, and those that can be built.
pub open spec fn available(
    config: Config,
    registries: Registries,
    built: Set<Seq<char>>,
    ids: Seq<Seq<char>>,
) -> Seq<Seq<char>>
    decreases ids.len(),
{
    if ids.len() == 0 {
        Seq::empty()
    } else {
        let earlier = available(config, registries, built, ids.drop_last());
        if built.contains(ids.last()) || capability_problem(config, registries, ids.last()) is None {
            earlier.push(ids.last())
        } else {
            earlier
        }
    }
}

impl CapabilitySource {
    /// The capabilities of a configuration. Nothing is built yet.
    pub fn from_config(config: &Arc<Config>, registries: &Arc<Registries>) -> (r: CapabilitySource)
        ensures
            r.config == *config,
            r.registries == *registries,
            r.models.config == *config,
            r.models.registries == *registries,
    {
        let models = Arc::new(ModelSource::from_config(config, registries));
        CapabilitySource { config: share(config), registries: share(registries), models }
    }

    /// The capabilities of a configuration, whose models come from the given source.
    pub fn with_models(
        config: &Arc<Config>,
        registries: &Arc<Registries>,
        models: Arc<ModelSource>,
    ) -> (r: CapabilitySource)
        ensures
            r.config == *config,
            r.registries == *registries,
            r.models == models,
    {
        CapabilitySource { config: share(config), registries: share(registries), models }
    }

    /// The capability that is configured under an id: the one in `built` where
    /// there is one, else a new one, which is kept there. A capability whose
    /// references do not resolve cannot be bound and is refused. Nothing is kept
    /// where there is an error.
    pub fn get(&self, built: &mut NameMap<Arc<BuiltCapability>>, capability_id: &str) -> (r: Result<
        Arc<BuiltCapability>,
        String,
    >)
        ensures
            if old(built)@.contains_key(capability_id@) {
                r == Ok::<Arc<BuiltCapability>, String>(old(built)@[capability_id@])
                    && *final(built) == *old(built)
            } else {
                match capability_problem(*self.config, *self.registries, capability_id@) {
                    Some(message) => {
                        &&& r matches Err(text)
                        &&& text@ == message
                        &&& *final(built) == *old(built)
                    },
                    None => {
                        &&& r matches Ok(capability)
                        &&& is_built(
                            *self.config,
                            *self.registries,
                            capability_id@,
                            *capability,
                        )
                        &&& final(built)@ == old(built)@.insert(capability_id@, capability)
                    },
                }
            },
    {
        if let Some(capability) = built.get(capability_id) {
            return Ok(share(capability));
        }
        let entry = match self.config.capabilities.get(capability_id) {
            Some(entry) => entry,
            None => {
                let mut text = "capability '".to_owned();
                text.append(capability_id);
                text.append("' is not configured");
                return Err(text);
            },
        };
        match validate_ref(
            RefKind::Capability,
            entry.capability_id.as_str(),
            &self.config,
            &self.registries,
        ) {
            Ok(_) => {},
            Err(error) => {
                let mut text = "Skipping capability '".to_owned();
                text.append(capability_id);
                text.append("': ");
                text.append(error.text().as_str());
                return Err(text);
            },
        }
        match self.registries.capabilities.construct(
            entry.capability_type.as_str(),
            entry.capability_id.as_str(),
            &entry.config,
            &self.config,
        ) {
            Ok(capability) => {
                let shared = Arc::new(capability);
                built.insert(capability_id.to_owned(), share(&shared));
                Ok(shared)
            },
            Err(reason) => {
                let mut text = "could not construct capability '".to_owned();
                text.append(capability_id);
                text.append("': ");
                text.append(reason.as_str());
                Err(text)
            },
        }
    }

    /// Every configured capability that can be had, under its id, in the order of
    /// the configuration.
    pub fn instances(&self, built: &mut NameMap<Arc<BuiltCapability>>) -> (r: Vec<
        (String, Arc<BuiltCapability>),
    >)
        ensures
            r@.map_values(|entry: (String, Arc<BuiltCapability>)| entry.0@) == available(
                *self.config,
                *self.registries,
                old(built)@.dom(),
                self.config.capabilities.names(),
            ),
            forall|i: int|
                #![trigger r@[i]]
                0 <= i < r@.len() ==> final(built)@.contains_key(r@[i].0@) && r@[i].1
                    == final(built)@[r@[i].0@],
            forall|i: int|
                #![trigger r@[i]]
                0 <= i < r@.len() && !old(built)@.contains_key(r@[i].0@) ==> is_built(
                    *self.config,
                    *self.registries,
                    r@[i].0@,
                    *r@[i].1,
                ),
            forall|id: Seq<char>| #[trigger]
                old(built)@.contains_key(id) ==> final(built)@.contains_key(id) && final(built)@[id]
                    == old(built)@[id],
            forall|id: Seq<char>| #[trigger]
                final(built)@.contains_key(id) ==> old(built)@.contains_key(id) || exists|i: int|
                    0 <= i < r@.len() && (#[trigger] r@[i]).0@ == id,
    {
        let mut out: Vec<(String, Arc<BuiltCapability>)> = Vec::new();
        let ghost before = built@;
        let ghost all = self.config.capabilities.names();
        let n: usize = self.config.capabilities.len();
        let mut i: usize = 0;
        proof {
            assert(all.take(0) =~= Seq::<Seq<char>>::empty());
            assert(out@.map_values(|entry: (String, Arc<BuiltCapability>)| entry.0@) =~= Seq::<
                Seq<char>,
            >::empty());
        }
        while i < n
            invariant
                i <= n,
                n == all.len(),
                all == self.config.capabilities.names(),
                all.no_duplicates(),
                out@.map_values(|entry: (String, Arc<BuiltCapability>)| entry.0@) == available(
                    *self.config,
                    *self.registries,
                    before.dom(),
                    all.take(i as int),
                ),
                forall|k: int|
                    #![trigger out@[k]]
                    0 <= k < out@.len() ==> built@.contains_key(out@[k].0@) && out@[k].1
                        == built@[out@[k].0@],
                forall|k: int|
                    #![trigger out@[k]]
                    0 <= k < out@.len() && !before.contains_key(out@[k].0@) ==> is_built(
                        *self.config,
                        *self.registries,
                        out@[k].0@,
                        *out@[k].1,
                    ),
                forall|id: Seq<char>| #[trigger]
                    before.contains_key(id) ==> built@.contains_key(id) && built@[id] == before[id],
                forall|id: Seq<char>| #[trigger]
                    built@.contains_key(id) ==> before.contains_key(id) || all.take(
                        i as int,
                    ).contains(id),
                forall|id: Seq<char>| #[trigger]
                    built@.contains_key(id) ==> before.contains_key(id) || exists|k: int|
                        0 <= k < out@.len() && (#[trigger] out@[k]).0@ == id,
            decreases n - i,
        {
            let (id, _) = self.config.capabilities.at(i);
            let ghost ids_before = out@.map_values(
                |entry: (String, Arc<BuiltCapability>)| entry.0@,
            );
            proof {
                let here = all.take(i + 1);
                assert(here.drop_last() =~= all.take(i as int));
                assert(here.last() == id@);
                assert(!all.take(i as int).contains(id@)) by {
                    if all.take(i as int).contains(id@) {
                        let j = all.take(i as int).index_of(id@);
                        assert(all[j] == all[i as int]);
                    }
                }
                assert forall|x: Seq<char>| #[trigger] all.take(i as int).contains(x) implies here.contains(
                    x,
                ) by {
                    let j = all.take(i as int).index_of(x);
                    assert(here[j] == x);
                }
                assert(here[i as int] == id@);
                assert(here.contains(id@));
            }
            match self.get(built, id.as_str()) {
                Ok(capability) => {
                    let ghost earlier = out@;
                    out.push((id.clone(), capability));
                    proof {
                        assert(out@[earlier.len() as int].0@ == id@);
                        assert(forall|k: int|
                            0 <= k < earlier.len() ==> out@[k] == #[trigger] earlier[k]);
                        assert(out@.map_values(
                            |entry: (String, Arc<BuiltCapability>)| entry.0@,
                        ) =~= ids_before.push(id@));
                    }
                },
                Err(_) => {},
            }
            i += 1;
        }
        proof {
            assert(all.take(i as int) =~= all);
        }
        out
    }

    /// Every capability type with what is known of it.
    pub fn catalog(&self) -> (r: Vec<(&str, &CapabilityMetadata)>)
        ensures
            r@.len() == self.registries.capabilities.registry.names().len(),
            forall|i: int|
                #![trigger r@[i]]
                0 <= i < r@.len() ==> r@[i].0@ == self.registries.capabilities.registry.names()[i]
                    && self.registries.capabilities.types().contains_key(r@[i].0@) && *r@[i].1
                    == self.registries.capabilities.types()[r@[i].0@].metadata,
    {
        self.registries.capabilities.entries()
    }

    /// The JSON schema of the settings of a capability type.
    pub fn config_schema(&self, name: &str) -> (r: Option<&Json>)
        ensures
            match r {
                Some(schema) => self.registries.capabilities.types().contains_key(name@) && *schema
                    == self.registries.capabilities.types()[name@].config_schema,
                None => !self.registries.capabilities.types().contains_key(name@),
            },
    {
        self.registries.capabilities.config_schema(name)
    }
}

} // verus!
