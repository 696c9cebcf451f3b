//! Where configured models come from. A model is built when it is first asked for,
//! and whoever asks again gets the same one.

use std::sync::Arc;
use vstd::prelude::*;
use vstd::string::*;
use crate::config::{text_or_none, Config, ModelConfig, ProviderConfig, ProxyHandle};
use crate::json::{fields_tree, lemma_object, put_field, Json, JsonTree};
use crate::models::{not_configured, not_configured_text, BuiltModel, ModelMetadata};
use crate::name_map::NameMap;
use crate::providers::{as_text, same_proxy, HandedOut, ProviderInstance, ProviderSource};
use crate::proxy::routes::{leads_to, route_to, Route};
use crate::registry::{unknown_type_text, Registries};
use crate::shared::share;

verus! {

/// The models of one configuration.
pub struct ModelSource {
    pub config: Arc<Config>,
    pub registries: Arc<Registries>,
    /// Where the providers of the models come from.
    pub providers: Arc<ProviderSource>,
}

/// The settings of a provider as they are handed to a model.
pub open spec fn provider_tree(provider: ProviderConfig) -> JsonTree {
    JsonTree::Object(
        Map::empty().insert("provider_id"@, JsonTree::Str(provider.provider_id@)).insert(
            "type"@,
            JsonTree::Str(provider.provider_type@),
        ).insert("config"@, provider.config.tree()),
    )
}

/// The provider that is configured for a model.
pub open spec fn provider_of(config: Config, model: ModelConfig) -> Option<ProviderConfig> {
    match model.provider_id {
        Some(id) if config.providers@.contains_key(id@) => Some(config.providers@[id@]),
        _ => None,
    }
}

/// The settings that a model is built from: its own, with those of its provider
/// among them where that is configured.
pub open spec fn model_settings(config: Config, model: ModelConfig) -> JsonTree {
    match provider_of(config, model) {
        Some(provider) => {
            let fields = match model.config.tree() {
                JsonTree::Object(fields) => fields,
                _ => Map::empty(),
            };
            JsonTree::Object(fields.insert("provider_config"@, provider_tree(provider)))
        },
        None => model.config.tree(),
    }
}

/// Tells whether the settings of a configured model can take those of its provider:
/// they are an object, or nothing yet.
pub open spec fn settings_take_provider(config: Config, model_id: Seq<char>) -> bool {
    config.models@.contains_key(model_id) && provider_of(config, config.models@[model_id]) is Some
        ==> {
        let settings = config.models@[model_id].config.tree();
        settings is Object || settings is Null
    }
}

/// Tells whether the settings of a configured model can take those of its provider.
pub fn accepts_provider(config: &Config, model_id: &str) -> (r: bool)
    ensures
        r == settings_take_provider(*config, model_id@),
{
    match config.models.get(model_id) {
        None => true,
        Some(entry) => match &entry.provider_id {
            None => true,
            Some(id) => !config.providers.contains_key(id.as_str()) || match &entry.config {
                Json::Object(_) => true,
                Json::Null => true,
                _ => false,
            },
        },
    }
}

/// Why a model cannot be built.
pub open spec fn model_problem(config: Config, registries: Registries, model_id: Seq<char>) -> Option<
    Seq<char>,
> {
    if !config.models@.contains_key(model_id) {
        Some(not_configured_text(model_id))
    } else {
        let name = config.models@[model_id].model_type@;
        if registries.models.types().contains_key(name) {
            None
        } else {
            Some(
                "could not construct model '"@ + model_id + "': "@ + unknown_type_text(name),
            )
        }
    }
}

/// Tells whether a model is the one that is configured under an id: built as the type
/// and in the variant that the configuration names, from its settings, and reached
/// through the session proxy where there is one.
pub open spec fn is_built(
    config: Config,
    registries: Registries,
    proxy: Option<ProxyHandle>,
    model_id: Seq<char>,
    model: BuiltModel,
) -> bool {
    let entry = config.models@[model_id];
    &&& model.instance_id@ == entry.model_id@
    &&& model.model_type@ == entry.model_type@
    &&& model.kind == registries.models.types()[entry.model_type@].constructor
    &&& model.variant == entry.variant
    &&& model.config.tree() == model_settings(config, entry)
    &&& match proxy {
        Some(handle) => model.proxied_at matches Some(url) && url@ == handle.local_base_url@,
        None => model.proxied_at is None,
    }
}

/// A model, and the route that the session proxy needs for it where it was built
/// just now.
pub struct Fetched {
    pub model: Arc<BuiltModel>,
    pub route: Option<Route>,
}

/// Tells whether a route leads to a model in a variant, where its provider can be had.
pub open spec fn routed(
    route: Option<Route>,
    model_id: Seq<char>,
    variant: Option<Seq<char>>,
    provider: Option<ProviderInstance>,
) -> bool {
    match provider {
        Some(provider) => route matches Some(route) && leads_to(route, model_id, variant, provider),
        None => route is None,
    }
}

/// The provider of a configured model as it is without the proxy, where it is
/// configured and could be built.
pub open spec fn upstream_of(
    config: Config,
    upstream: Map<Seq<char>, ProviderInstance>,
    model_id: Seq<char>,
) -> Option<ProviderInstance> {
    if config.models@.contains_key(model_id) {
        match config.models@[model_id].provider_id {
            Some(id) if config.providers@.contains_key(id@) && upstream.contains_key(id@) => Some(
                upstream[id@],
            ),
            _ => None,
        }
    } else {
        None
    }
}

/// The provider of a configured model as it is without the proxy. `upstream` has the
/// providers that could be built.
pub fn upstream_for<'a>(
    config: &Config,
    upstream: &'a NameMap<ProviderInstance>,
    model_id: &str,
) -> (r: Option<&'a ProviderInstance>)
    ensures
        upstream_of(*config, upstream@, model_id@) == (match r {
            Some(provider) => Some(*provider),
            None => None,
        }),
{
    match config.models.get(model_id) {
        Some(entry) => match &entry.provider_id {
            Some(id) => if config.providers.contains_key(id.as_str()) {
                upstream.get(id.as_str())
            } else {
                None
            },
            None => None,
        },
        None => None,
    }
}

/// Points a model at the session proxy, and makes the route from there to its
/// provider, under the name that the provider knows it by in the variant that it was
/// configured with. A model whose provider cannot be had is pointed at the proxy all the
/// same, without a route.
pub fn route_and_wrap(
    model: BuiltModel,
    model_id: &str,
    provider: Option<&ProviderInstance>,
    handle: &ProxyHandle,
) -> (r: (BuiltModel, Option<Route>))
    ensures
        r.0.instance_id == model.instance_id,
        r.0.model_type == model.model_type,
        r.0.kind == model.kind,
        r.0.variant == model.variant,
        r.0.config == model.config,
        r.0.proxied_at matches Some(url) && url@ == handle.local_base_url@,
        routed(
            r.1,
            model_id@,
            text_or_none(model.variant),
            match provider {
                Some(provider) => Some(*provider),
                None => None,
            },
        ),
{
    let route = match provider {
        Some(provider) => Some(route_to(model_id, as_text(&model.variant), provider)),
        None => None,
    };
    let wrapped = BuiltModel {
        instance_id: model.instance_id,
        model_type: model.model_type,
        kind: model.kind,
        variant: model.variant,
        config: model.config,
        proxied_at: Some(handle.local_base_url.clone()),
    };
    (wrapped, route)
}

/// The settings of a provider as they are handed to a model.
fn provider_value(provider: &ProviderConfig) -> (r: Json)
    ensures
        r.tree() == provider_tree(*provider),
{
    let mut fields: NameMap<Json> = NameMap::new();
    proof {
        assert(fields_tree(fields) =~= Map::<Seq<char>, JsonTree>::empty());
    }
    put_field(&mut fields, "provider_id", Json::text(provider.provider_id.as_str()));
    put_field(&mut fields, "type", Json::text(provider.provider_type.as_str()));
    put_field(&mut fields, "config", provider.config.copy());
    proof {
        lemma_object(fields);
    }
    Json::Object(fields)
}

/// The settings that a model is built from.
fn settings_of(config: &Config, model: &ModelConfig) -> (r: Json)
    requires
        provider_of(*config, *model) is Some ==> model.config.tree() is Object
            || model.config.tree() is Null,
    ensures
        r.tree() == model_settings(*config, *model),
{
    let provider = match &model.provider_id {
        Some(id) => config.providers.get(id.as_str()),
        None => None,
    };
    let own = model.config.copy();
    match provider {
        Some(provider) => {
            let mut fields: NameMap<Json> = match own {
                Json::Object(fields) => {
                    proof {
                        lemma_object(fields);
                    }
                    fields
                },
                _ => {
                    let fields: NameMap<Json> = NameMap::new();
                    proof {
                        assert(fields_tree(fields) =~= Map::<Seq<char>, JsonTree>::empty());
                    }
                    fields
                },
            };
            put_field(&mut fields, "provider_config", provider_value(provider));
            proof {
                lemma_object(fields);
            }
            Json::Object(fields)
        },
        None => own,
    }
}

impl ModelSource {
    /// The models of a configuration. Nothing is built yet.
    pub fn from_config(config: &Arc<Config>, registries: &Arc<Registries>) -> (r: ModelSource)
        ensures
            r.config == *config,
            r.registries == *registries,
            r.providers.config == *config,
            same_proxy(r.providers.model_proxy, config.model_proxy),
    {
        let providers = Arc::new(ProviderSource::from_config(config));
        ModelSource { config: share(config), registries: share(registries), providers }
    }

    /// The models of a configuration, whose providers come from the given source.
    pub fn with_providers(
        config: &Arc<Config>,
        registries: &Arc<Registries>,
        providers: Arc<ProviderSource>,
    ) -> (r: ModelSource)
        ensures
            r.config == *config,
            r.registries == *registries,
            r.providers == providers,
    {
        ModelSource { config: share(config), registries: share(registries), providers }
    }

    /// The model that is configured under an id: the one in `built` where there is
    /// one, else a new one, which is kept there. `upstream` has the providers as
    /// they are without the proxy. Nothing is kept where there is an error.
    pub fn get(
        &self,
        built: &mut NameMap<Arc<BuiltModel>>,
        upstream: &NameMap<ProviderInstance>,
        model_id: &str,
    ) -> (r: Result<Fetched, String>)
        requires
            settings_take_provider(*self.config, model_id@),
        ensures
            if old(built)@.contains_key(model_id@) {
                &&& r matches Ok(fetched)
                &&& fetched.model == old(built)@[model_id@]
                &&& fetched.route is None
                &&& *final(built) == *old(built)
            } else {
                match model_problem(*self.config, *self.registries, model_id@) {
                    Some(message) => {
                        &&& r matches Err(text)
                        &&& text@ == message
                        &&& *final(built) == *old(built)
                    },
                    None => {
                        &&& r matches Ok(fetched)
                        &&& is_built(
                            *self.config,
                            *self.registries,
                            self.providers.model_proxy,
                            model_id@,
                            *fetched.model,
                        )
                        &&& final(built)@ == old(built)@.insert(model_id@, fetched.model)
                        &&& if self.providers.model_proxy is Some {
                            routed(
                                fetched.route,
                                model_id@,
                                text_or_none(self.config.models@[model_id@].variant),
                                upstream_of(*self.config, upstream@, model_id@),
                            )
                        } else {
                            fetched.route is None
                        }
                    },
                }
            },
    {
        if let Some(model) = built.get(model_id) {
            return Ok(Fetched { model: share(model), route: None });
        }
        let entry = match self.config.models.get(model_id) {
            Some(entry) => entry,
            None => {
                return Err(not_configured(model_id));
            },
        };
        let settings = settings_of(&self.config, entry);
        let core = match self.registries.models.construct(
            entry.model_type.as_str(),
            entry.model_id.as_str(),
            &settings,
            &self.config,
        ) {
            Ok(core) => core,
            Err(reason) => {
                let mut text = "could not construct model '".to_owned();
                text.append(model_id);
                text.append("': ");
                text.append(reason.as_str());
                return Err(text);
            },
        };
        let model = BuiltModel {
            instance_id: core.instance_id,
            model_type: entry.model_type.clone(),
            kind: core.kind,
            variant: match &entry.variant {
                Some(name) => Some(name.clone()),
                None => None,
            },
            config: core.config,
            proxied_at: None,
        };
        let (model, route) = match &self.providers.model_proxy {
            Some(handle) => {
                let provider = upstream_for(&self.config, upstream, model_id);
                route_and_wrap(model, model_id, provider, handle)
            },
            None => (model, None),
        };
        let shared = Arc::new(model);
        built.insert(model_id.to_owned(), share(&shared));
        Ok(Fetched { model: shared, route })
    }
}

/// The models among the given ids that can be had: those that were built before, and
/// those that can be built.
pub open spec fn available(
    config: Config,
    registries: Registries,
    built: Set<Seq<char>>,
    ids: Seq<Seq<char>>,
) -> Seq<Seq<char>>
    decreases ids.len(),
{
    if ids.len() == 0 {
        Seq::empty()
    } else {
        let earlier = available(config, registries, built, ids.drop_last());
        if built.contains(ids.last()) || model_problem(config, registries, ids.last()) is None {
            earlier.push(ids.last())
        } else {
            earlier
        }
    }
}

impl ModelSource {
    /// Every configured model that can be had, under its id, in the order of the
    /// configuration. One that cannot be built is left out and touches no other.
    pub fn instances(
        &self,
        built: &mut NameMap<Arc<BuiltModel>>,
        upstream: &NameMap<ProviderInstance>,
    ) -> (r: Vec<(String, Fetched)>)
        requires
            forall|id: Seq<char>| #[trigger]
                self.config.models@.contains_key(id) ==> settings_take_provider(*self.config, id),
        ensures
            r@.map_values(|entry: (String, Fetched)| entry.0@) == available(
                *self.config,
                *self.registries,
                old(built)@.dom(),
                self.config.models.names(),
            ),
            forall|i: int|
                #![trigger r@[i]]
                0 <= i < r@.len() ==> final(built)@.contains_key(r@[i].0@) && r@[i].1.model
                    == final(built)@[r@[i].0@],
            forall|i: int|
                #![trigger r@[i]]
                0 <= i < r@.len() && !old(built)@.contains_key(r@[i].0@) ==> is_built(
                    *self.config,
                    *self.registries,
                    self.providers.model_proxy,
                    r@[i].0@,
                    *r@[i].1.model,
                ) && (if self.providers.model_proxy is Some {
                    routed(
                        r@[i].1.route,
                        r@[i].0@,
                        text_or_none(self.config.models@[r@[i].0@].variant),
                        upstream_of(*self.config, upstream@, r@[i].0@),
                    )
                } else {
                    r@[i].1.route is None
                }),
            forall|i: int|
                #![trigger r@[i]]
                0 <= i < r@.len() && old(built)@.contains_key(r@[i].0@) ==> r@[i].1.route is None,
            forall|id: Seq<char>| #[trigger]
                old(built)@.contains_key(id) ==> final(built)@.contains_key(id) && final(built)@[id]
                    == old(built)@[id],
            forall|id: Seq<char>| #[trigger]
                final(built)@.contains_key(id) ==> old(built)@.contains_key(id) || exists|i: int|
                    0 <= i < r@.len() && (#[trigger] r@[i]).0@ == id,
    {
        let mut out: Vec<(String, Fetched)> = Vec::new();
        let ghost before = built@;
        let ghost all = self.config.models.names();
        let n: usize = self.config.models.len();
        let mut i: usize = 0;
        proof {
            assert(all.take(0) =~= Seq::<Seq<char>>::empty());
            assert(out@.map_values(|entry: (String, Fetched)| entry.0@) =~= Seq::<
                Seq<char>,
            >::empty());
        }
        while i < n
            invariant
                i <= n,
                n == all.len(),
                all == self.config.models.names(),
                all.no_duplicates(),
                forall|id: Seq<char>| #[trigger]
                    self.config.models@.contains_key(id) ==> settings_take_provider(
                        *self.config,
                        id,
                    ),
                out@.map_values(|entry: (String, Fetched)| entry.0@) == available(
                    *self.config,
                    *self.registries,
                    before.dom(),
                    all.take(i as int),
                ),
                forall|k: int|
                    #![trigger out@[k]]
                    0 <= k < out@.len() ==> built@.contains_key(out@[k].0@) && out@[k].1.model
                        == built@[out@[k].0@],
                forall|k: int|
                    #![trigger out@[k]]
                    0 <= k < out@.len() && !before.contains_key(out@[k].0@) ==> is_built(
                        *self.config,
                        *self.registries,
                        self.providers.model_proxy,
                        out@[k].0@,
                        *out@[k].1.model,
                    ) && (if self.providers.model_proxy is Some {
                        routed(
                            out@[k].1.route,
                            out@[k].0@,
                            text_or_none(self.config.models@[out@[k].0@].variant),
                            upstream_of(*self.config, upstream@, out@[k].0@),
                        )
                    } else {
                        out@[k].1.route is None
                    }),
                forall|k: int|
                    #![trigger out@[k]]
                    0 <= k < out@.len() && before.contains_key(out@[k].0@) ==> out@[k].1.route is None,
                forall|id: Seq<char>| #[trigger]
                    before.contains_key(id) ==> built@.contains_key(id) && built@[id] == before[id],
                forall|id: Seq<char>| #[trigger]
                    built@.contains_key(id) ==> before.contains_key(id) || all.take(
                        i as int,
                    ).contains(id),
                forall|id: Seq<char>| #[trigger]
                    built@.contains_key(id) ==> before.contains_key(id) || exists|k: int|
                        0 <= k < out@.len() && (#[trigger] out@[k]).0@ == id,
            decreases n - i,
        {
            let (id, _) = self.config.models.at(i);
            let ghost ids_before = out@.map_values(|entry: (String, Fetched)| entry.0@);
            proof {
                let here = all.take(i + 1);
                assert(here.drop_last() =~= all.take(i as int));
                assert(here.last() == id@);
                assert(!all.take(i as int).contains(id@)) by {
                    if all.take(i as int).contains(id@) {
                        let j = all.take(i as int).index_of(id@);
                        assert(all[j] == all[i as int]);
                    }
                }
                assert forall|x: Seq<char>| #[trigger] all.take(i as int).contains(x) implies here.contains(
                    x,
                ) by {
                    let j = all.take(i as int).index_of(x);
                    assert(here[j] == x);
                }
                assert(here[i as int] == id@);
                assert(here.contains(id@));
            }
            match self.get(built, upstream, id.as_str()) {
                Ok(fetched) => {
                    let ghost earlier = out@;
                    out.push((id.clone(), fetched));
                    proof {
                        assert(out@[earlier.len() as int].0@ == id@);
                        assert(forall|k: int|
                            0 <= k < earlier.len() ==> out@[k] == #[trigger] earlier[k]);
                        assert(out@.map_values(|entry: (String, Fetched)| entry.0@)
                            =~= ids_before.push(id@));
                    }
                },
                Err(_) => {},
            }
            i += 1;
        }
        proof {
            assert(all.take(i as int) =~= all);
        }
        out
    }

    /// The provider of a configured model as it is handed out.
    pub fn provider_for<'a>(&self, upstream: &'a NameMap<ProviderInstance>, model_id: &str) -> (r:
        Option<HandedOut<'a>>)
        ensures
            match r {
                Some(provider) => {
                    &&& self.names_provider(model_id@) matches Some(id)
                    &&& self.providers.has(upstream@, id)
                    &&& provider.shows(upstream@[id], self.providers.model_proxy)
                },
                None => self.names_provider(model_id@) matches Some(id) ==> !self.providers.has(
                    upstream@,
                    id,
                ),
            },
    {
        match self.config.models.get(model_id) {
            Some(entry) => match &entry.provider_id {
                Some(id) => self.providers.get(upstream, id.as_str()),
                None => None,
            },
            None => None,
        }
    }

    /// The provider that a configured model names.
    pub open spec fn names_provider(self, model_id: Seq<char>) -> Option<Seq<char>> {
        if self.config.models@.contains_key(model_id) {
            text_or_none(self.config.models@[model_id].provider_id)
        } else {
            None
        }
    }

    /// Every model type with what is known of it.
    pub fn catalog(&self) -> (r: Vec<(&str, &ModelMetadata)>)
        ensures
            r@.len() == self.registries.models.registry.names().len(),
            forall|i: int|
                #![trigger r@[i]]
                0 <= i < r@.len() ==> r@[i].0@ == self.registries.models.registry.names()[i]
                    && self.registries.models.types().contains_key(r@[i].0@) && *r@[i].1
                    == self.registries.models.types()[r@[i].0@].metadata,
    {
        self.registries.models.entries()
    }

    /// The JSON schema of the settings of a model type.
    pub fn config_schema(&self, name: &str) -> (r: Option<&Json>)
        ensures
            match r {
                Some(schema) => self.registries.models.types().contains_key(name@) && *schema
                    == self.registries.models.types()[name@].config_schema,
                None => !self.registries.models.types().contains_key(name@),
            },
    {
        self.registries.models.config_schema(name)
    }
}

} // verus!
