//! What the sources hand out, told from the configuration, the registries and the
//! providers that could be built.

use std::sync::Arc;
use vstd::prelude::*;
use crate::capabilities::source::{
    available as available_capabilities, capability_problem, CapabilitySource,
};
use crate::capabilities::{BuiltCapability, CapabilityKind, CapabilityMetadata};
use crate::config::validation::{validate_ref, RefKind, ValidationError};
use crate::config::{Config, ModelConfig, ProxyHandle};
use crate::json::{Json, JsonTree};
use crate::models::source::{
    accepts_provider, available, model_problem, settings_take_provider, upstream_of, Fetched,
    ModelSource,
};
use crate::models::{BuiltModel, ConfiguredModel, ModelMetadata};
use crate::name_map::NameMap;
use crate::providers::{HandedOut, ProviderInstance, ProviderSource};
use crate::proxy::routes::laws::{is_route, law_first_entry_names_the_model};
use crate::registry::{ConstructError, Registries};
use crate::sources::{SourceError, Sources};

verus! {

/// Tells whether a handle on a provider is the provider itself, or the provider through
/// the proxy where there is one.
pub open spec fn is_handle(
    handle: HandedOut<'_>,
    provider: ProviderInstance,
    proxy: Option<ProxyHandle>,
) -> bool {
    match (handle, proxy) {
        (HandedOut::Upstream(inner), None) => *inner == provider,
        (HandedOut::Proxied(wrapped), Some(proxy)) => *wrapped.inner == provider
            && wrapped.local_base_url@ == proxy.local_base_url@,
        _ => false,
    }
}

/// A provider is handed out under an id exactly when it is configured under the id and
/// could be built: as it is without a proxy, and pointed at the proxy where there is one.
/// Asked for without the proxy, it is the provider as it is either way.
pub proof fn law_configured_providers_are_handed_out(
    source: &ProviderSource,
    upstream: &NameMap<ProviderInstance>,
    id: &str,
)
    ensures
        forall|r: Option<HandedOut<'_>>| #[trigger]
            call_ensures(ProviderSource::get, (source, upstream, id), r) ==> {
                &&& r is Some <==> source.config.providers@.contains_key(id@)
                    && upstream@.contains_key(id@)
                &&& r matches Some(handle) ==> is_handle(
                    handle,
                    upstream@[id@],
                    source.model_proxy,
                )
            },
        forall|r: Option<&ProviderInstance>| #[trigger]
            call_ensures(ProviderSource::upstream, (source, upstream, id), r) ==> {
                &&& r is Some <==> source.config.providers@.contains_key(id@)
                    && upstream@.contains_key(id@)
                &&& r matches Some(provider) ==> *provider == upstream@[id@]
            },
        forall|provider: &ProviderInstance, r: HandedOut<'_>| #[trigger]
            call_ensures(ProviderSource::hand_out, (source, provider), r) ==> is_handle(
                r,
                *provider,
                source.model_proxy,
            ),
{
}

/// A provider is reached at its own address, and through a proxy at that of the proxy.
pub proof fn law_handles_point_where_they_lead(handle: &HandedOut<'_>, r: &str)
    requires
        call_ensures(HandedOut::base_url, (handle,), r),
    ensures
        match handle {
            HandedOut::Upstream(provider) => r@ == provider.base_url@,
            HandedOut::Proxied(wrapped) => r@ == wrapped.local_base_url@,
        },
{
}

/// A provider can run a form of a model exactly when the form is in its list, with both
/// its format and its precision.
pub proof fn law_provider_runs_what_it_lists(
    provider: &ProviderInstance,
    format: &str,
    precision: &str,
    r: bool,
)
    requires
        call_ensures(ProviderInstance::can_run_model, (provider, format, precision), r),
    ensures
        r <==> exists|i: int|
            0 <= i < provider.runnable@.len() && {
                let form = #[trigger] provider.runnable@[i];
                form.0@ == format@ && form.1@ == precision@
            },
{
    if r {
        let i = choose|i: int|
            0 <= i < provider.runnable@.len() && (#[trigger] provider.runnable@[i]).0@ == format@
                && provider.runnable@[i].1@ == precision@;
        assert(provider.runnable@[i].1@ == precision@);
    }
}

/// A source of providers has the configuration that it is made from and the proxy that it
/// is given, or else the one that the configuration names.
pub proof fn law_provider_source_has_its_proxy(
    config: &Arc<Config>,
    proxy: Option<ProxyHandle>,
)
    ensures
        forall|r: ProviderSource| #[trigger]
            call_ensures(ProviderSource::with_proxy, (config, proxy), r) ==> r.config == *config
                && r.model_proxy == proxy,
        forall|r: ProviderSource| #[trigger]
            call_ensures(ProviderSource::from_config, (config,), r) ==> r.config == *config && (
            match (r.model_proxy, config.model_proxy) {
                (Some(a), Some(b)) => a.local_base_url@ == b.local_base_url@,
                (None, None) => true,
                _ => false,
            }),
{
}

/// The four sources that are built together are of one configuration. The capabilities
/// have their models from the source of the models, and those their providers from the
/// source of the providers, which points at the proxy.
pub proof fn law_sources_are_one(
    config: &Arc<Config>,
    registries: &Arc<Registries>,
    proxy: Option<ProxyHandle>,
    sources: Sources,
    shared: Sources,
    providers: Arc<ProviderSource>,
    models: Arc<ModelSource>,
    capabilities: Arc<CapabilitySource>,
)
    requires
        call_ensures(Sources::build, (config, registries, proxy), sources),
        call_ensures(Sources::share, (&sources,), shared),
        call_ensures(Sources::providers, (&shared,), providers),
        call_ensures(Sources::models, (&shared,), models),
        call_ensures(Sources::capabilities, (&shared,), capabilities),
    ensures
        capabilities.models == models,
        models.providers == providers,
        capabilities.config == *config && models.config == *config && providers.config == *config,
        capabilities.registries == *registries && models.registries == *registries,
        providers.model_proxy == proxy,
{
}

/// A failure reads as what it is: that nothing is configured under the id, that the type
/// is unknown, or what is wrong with the settings.
pub proof fn law_failures_read_as_what_they_are(
    error: &SourceError,
    kind: &str,
    id: &str,
    r: String,
)
    requires
        call_ensures(SourceError::about, (error, kind, id), r),
    ensures
        error is NotConfigured ==> r@ == kind@ + " '"@ + id@ + "' is not configured"@,
        error matches SourceError::Construct(ConstructError::UnknownType { type_key }) ==> r@
            == kind@ + " '"@ + id@ + "' has an unknown "@ + kind@ + " type '"@ + type_key@ + "'"@,
        error matches SourceError::Construct(ConstructError::Settings { detail }) ==> r@
            == "the settings for "@ + kind@ + " '"@ + id@ + "' are not valid: "@ + detail@,
{
}

/// Tells whether settings are those of a model with the provider that it is configured
/// with put among them: the provider under `provider_config`, by its id, its type and its
/// settings, and everything else as it is.
pub open spec fn has_provider_among(settings: JsonTree, config: Config, model: ModelConfig) -> bool {
    match model.provider_id {
        Some(id) => if config.providers@.contains_key(id@) {
            let provider = config.providers@[id@];
            let own = match model.config.tree() {
                JsonTree::Object(fields) => fields,
                _ => Map::empty(),
            };
            &&& settings matches JsonTree::Object(fields)
            &&& fields.remove("provider_config"@) == own.remove("provider_config"@)
            &&& fields.contains_key("provider_config"@)
            &&& fields["provider_config"@] matches JsonTree::Object(about)
            &&& about.dom() == set!["provider_id"@, "type"@, "config"@]
            &&& about["provider_id"@] == JsonTree::Str(provider.provider_id@)
            &&& about["type"@] == JsonTree::Str(provider.provider_type@)
            &&& about["config"@] == provider.config.tree()
        } else {
            settings == model.config.tree()
        },
        None => settings == model.config.tree(),
    }
}

/// Tells whether a model is the one that is configured under an id: under its id, as the
/// type and in the variant that are configured, by the implementation that is registered
/// for the type, from its settings, and pointed at the proxy where there is one.
pub open spec fn is_model(model: BuiltModel, source: ModelSource, id: Seq<char>) -> bool {
    let entry = source.config.models@[id];
    &&& model.instance_id@ == entry.model_id@
    &&& model.model_type@ == entry.model_type@
    &&& model.kind == source.registries.models.registry@[entry.model_type@].constructor
    &&& model.variant == entry.variant
    &&& has_provider_among(model.config.tree(), *source.config, entry)
    &&& match source.providers.model_proxy {
        Some(proxy) => model.proxied_at matches Some(url) && url@ == proxy.local_base_url@,
        None => model.proxied_at is None,
    }
}

/// Tells whether a model comes with the route that it needs: one to its provider where
/// there is a proxy and the provider can be had, and else none.
pub open spec fn is_routed(
    fetched: Fetched,
    source: ModelSource,
    upstream: Map<Seq<char>, ProviderInstance>,
    id: Seq<char>,
) -> bool {
    let entry = source.config.models@[id];
    match (source.providers.model_proxy, entry.provider_id) {
        (Some(_), Some(provider)) => if source.config.providers@.contains_key(provider@)
            && upstream.contains_key(provider@) {
            &&& fetched.route matches Some(route)
            &&& is_route(
                route,
                id,
                match entry.variant {
                    Some(text) => Some(text@),
                    None => None,
                },
                upstream[provider@],
            )
        } else {
            fetched.route is None
        },
        _ => fetched.route is None,
    }
}

proof fn lemma_provider_names()
    ensures
        "provider_id"@ != "type"@,
        "provider_id"@ != "config"@,
        "type"@ != "config"@,
{
    reveal_strlit("provider_id");
    reveal_strlit("type");
    reveal_strlit("config");
    assert("provider_id"@.len() == 11);
    assert("type"@.len() == 4);
    assert("config"@.len() == 6);
}

proof fn lemma_model(source: ModelSource, id: Seq<char>, model: BuiltModel)
    requires
        crate::models::source::is_built(
            *source.config,
            *source.registries,
            source.providers.model_proxy,
            id,
            model,
        ),
    ensures
        is_model(model, source, id),
{
    lemma_provider_names();
    let entry = source.config.models@[id];
    let settings = model.config.tree();
    if let Some(provider_id) = entry.provider_id {
        if source.config.providers@.contains_key(provider_id@) {
            let own = match entry.config.tree() {
                JsonTree::Object(fields) => fields,
                _ => Map::empty(),
            };
            let fields = settings->Object_0;
            assert(fields.remove("provider_config"@) =~= own.remove("provider_config"@));
            let about = fields["provider_config"@]->Object_0;
            assert(about.dom() =~= set!["provider_id"@, "type"@, "config"@]);
        }
    }
}

proof fn lemma_routed(
    fetched: Fetched,
    source: ModelSource,
    upstream: Map<Seq<char>, ProviderInstance>,
    id: Seq<char>,
)
    requires
        source.config.models@.contains_key(id),
        if source.providers.model_proxy is Some {
            crate::models::source::routed(
                fetched.route,
                id,
                crate::config::text_or_none(source.config.models@[id].variant),
                upstream_of(*source.config, upstream, id),
            )
        } else {
            fetched.route is None
        },
    ensures
        is_routed(fetched, source, upstream, id),
{
    let entry = source.config.models@[id];
    if let Some(provider) = entry.provider_id {
        law_first_entry_names_the_model(
            upstream[provider@].aliases@,
            id,
            crate::config::text_or_none(entry.variant),
        );
    }
}

/// A model that was built before is handed out again, without a route. Else the model
/// that is configured under the id is built and kept under it, with its route. Where none
/// is configured, or its type is not registered, nothing is kept and the message says
/// which.
pub proof fn law_model_is_built_as_configured(
    source: &ModelSource,
    upstream: &NameMap<ProviderInstance>,
    id: &str,
)
    requires
        settings_take_provider(*source.config, id@),
    ensures
        forall|built: &mut NameMap<Arc<BuiltModel>>, r: Result<Fetched, String>| #[trigger]
            call_ensures(ModelSource::get, (source, built, upstream, id), r) ==> {
                if built@.contains_key(id@) {
                    &&& r matches Ok(fetched)
                    &&& fetched.model == built@[id@]
                    &&& fetched.route is None
                    &&& final(built)@ == built@
                } else if !source.config.models@.contains_key(id@) {
                    &&& r matches Err(message)
                    &&& message@ == "model '"@ + id@ + "' is not configured"@
                    &&& final(built)@ == built@
                } else if !source.registries.models.registry@.contains_key(
                    source.config.models@[id@].model_type@,
                ) {
                    &&& r matches Err(message)
                    &&& message@ == "could not construct model '"@ + id@ + "': "@ + (
                    "Unknown instance type: "@ + source.config.models@[id@].model_type@)
                    &&& final(built)@ == built@
                } else {
                    &&& r matches Ok(fetched)
                    &&& is_model(*fetched.model, *source, id@)
                    &&& is_routed(fetched, *source, upstream@, id@)
                    &&& final(built)@ == built@.insert(id@, fetched.model)
                }
            },
{
    assert forall|built: &mut NameMap<Arc<BuiltModel>>, r: Result<Fetched, String>|
        #[trigger] call_ensures(ModelSource::get, (source, built, upstream, id), r)
        && !built@.contains_key(id@) && model_problem(
        *source.config,
        *source.registries,
        id@,
    ) is None implies is_model(*r->Ok_0.model, *source, id@) && is_routed(
        r->Ok_0,
        *source,
        upstream@,
        id@,
    ) by {
        lemma_model(*source, id@, *r->Ok_0.model);
        lemma_routed(r->Ok_0, *source, upstream@, id@);
    }
}

/// The models that can be had: those that were built before, and those that are
/// configured with a registered type.
pub open spec fn can_be_had(
    config: Config,
    registries: Registries,
    built: Set<Seq<char>>,
) -> spec_fn(Seq<char>) -> bool {
    |id: Seq<char>|
        built.contains(id) || (config.models@.contains_key(id)
            && registries.models.registry@.contains_key(config.models@[id].model_type@))
}

proof fn lemma_available(
    config: Config,
    registries: Registries,
    built: Set<Seq<char>>,
    ids: Seq<Seq<char>>,
)
    ensures
        available(config, registries, built, ids) == ids.filter(
            can_be_had(config, registries, built),
        ),
    decreases ids.len(),
{
    reveal(Seq::filter);
    if ids.len() > 0 {
        lemma_available(config, registries, built, ids.drop_last());
    } else {
        assert(available(config, registries, built, ids) =~= ids.filter(
            can_be_had(config, registries, built),
        ));
    }
}

/// Every configured model that can be had is handed out under its id, in the order of the
/// configuration. One that was built before is the same as before and needs no route; a
/// new one is built as it is configured and comes with its route. They are kept, and
/// nothing else is.
pub proof fn law_every_model_is_handed_out(
    source: &ModelSource,
    upstream: &NameMap<ProviderInstance>,
)
    requires
        forall|id: Seq<char>| #[trigger]
            source.config.models@.contains_key(id) ==> settings_take_provider(*source.config, id),
    ensures
        forall|built: &mut NameMap<Arc<BuiltModel>>, r: Vec<(String, Fetched)>| #[trigger]
            call_ensures(ModelSource::instances, (source, built, upstream), r) ==> {
                &&& r@.map_values(|entry: (String, Fetched)| entry.0@)
                    == source.config.models.names().filter(
                    can_be_had(*source.config, *source.registries, built@.dom()),
                )
                &&& forall|i: int|
                    #![trigger r@[i]]
                    0 <= i < r@.len() ==> {
                        let id = r@[i].0@;
                        &&& final(built)@.contains_key(id) && final(built)@[id] == r@[i].1.model
                        &&& built@.contains_key(id) ==> r@[i].1.model == built@[id]
                            && r@[i].1.route is None
                        &&& !built@.contains_key(id) && source.config.models@.contains_key(id)
                            ==> is_model(*r@[i].1.model, *source, id) && is_routed(
                            r@[i].1,
                            *source,
                            upstream@,
                            id,
                        )
                    }
                &&& forall|kept: Seq<char>| #[trigger]
                    built@.contains_key(kept) ==> final(built)@.contains_key(kept)
                        && final(built)@[kept] == built@[kept]
                &&& forall|kept: Seq<char>| #[trigger]
                    final(built)@.contains_key(kept) && !built@.contains_key(kept) ==> exists|i: int|
                        0 <= i < r@.len() && (#[trigger] r@[i]).0@ == kept
            },
{
    assert forall|built: &mut NameMap<Arc<BuiltModel>>, r: Vec<(String, Fetched)>|
        #[trigger] call_ensures(ModelSource::instances, (source, built, upstream), r) implies {
        &&& r@.map_values(|entry: (String, Fetched)| entry.0@)
            == source.config.models.names().filter(
            can_be_had(*source.config, *source.registries, built@.dom()),
        )
        &&& forall|i: int|
            #![trigger r@[i]]
            0 <= i < r@.len() && !built@.contains_key(r@[i].0@)
                && source.config.models@.contains_key(r@[i].0@) ==> is_model(
                *r@[i].1.model,
                *source,
                r@[i].0@,
            ) && is_routed(r@[i].1, *source, upstream@, r@[i].0@)
    } by {
        lemma_available(
            *source.config,
            *source.registries,
            built@.dom(),
            source.config.models.names(),
        );
        assert forall|i: int|
            #![trigger r@[i]]
            0 <= i < r@.len() && !built@.contains_key(r@[i].0@)
                && source.config.models@.contains_key(r@[i].0@) implies is_model(
            *r@[i].1.model,
            *source,
            r@[i].0@,
        ) && is_routed(r@[i].1, *source, upstream@, r@[i].0@) by {
            lemma_model(*source, r@[i].0@, *r@[i].1.model);
            lemma_routed(r@[i].1, *source, upstream@, r@[i].0@);
        }
    }
}

/// The provider of a model is the one that the model is configured with, as the source of
/// the providers hands it out; there is none where the model names none or it cannot be
/// had.
pub proof fn law_provider_of_a_model_is_the_configured_one(
    source: &ModelSource,
    upstream: &NameMap<ProviderInstance>,
    id: &str,
    r: Option<HandedOut<'_>>,
)
    requires
        call_ensures(ModelSource::provider_for, (source, upstream, id), r),
    ensures
        source.config.models@.contains_key(id@) && source.config.models@[id@].provider_id is Some
            ==> {
            let provider = source.config.models@[id@].provider_id->0@;
            &&& r is Some <==> source.providers.config.providers@.contains_key(provider)
                && upstream@.contains_key(provider)
            &&& r matches Some(handle) ==> is_handle(
                handle,
                upstream@[provider],
                source.providers.model_proxy,
            )
        },
        !source.config.models@.contains_key(id@) ==> r is None,
        source.config.models@.contains_key(id@) && source.config.models@[id@].provider_id is None
            ==> r is None,
{
}

/// The settings of a model can take those of its provider unless they are something else
/// than an object, and there is a provider whose settings they would take.
pub proof fn law_when_settings_take_a_provider(config: &Config, id: &str, r: bool)
    requires
        call_ensures(accepts_provider, (config, id), r),
    ensures
        !r <==> config.models@.contains_key(id@) && (match config.models@[id@].provider_id {
            Some(provider) => config.providers@.contains_key(provider@),
            None => false,
        }) && !(config.models@[id@].config.tree() is Object) && !(
        config.models@[id@].config.tree() is Null),
        r == settings_take_provider(*config, id@),
{
}

/// A model that a capability refers to is the one that is configured under the id, with
/// its type, its provider and its variant.
pub proof fn law_reference_resolves_to_the_configured_model(
    id: &str,
    config: &Config,
    r: Result<ConfiguredModel, String>,
)
    requires
        call_ensures(ConfiguredModel::resolve, (id, config), r),
    ensures
        if config.models@.contains_key(id@) {
            let entry = config.models@[id@];
            &&& r matches Ok(model)
            &&& model.model_id@ == entry.model_id@
            &&& model.model_type@ == entry.model_type@
            &&& model.provider_id == entry.provider_id
            &&& model.variant == entry.variant
        } else {
            r matches Err(message) && message@ == "model '"@ + id@ + "' is not configured"@
        },
{
}

/// Tells whether a capability is the one that is configured under an id, built by the
/// implementation that is registered for its type: with its id and its settings.
pub open spec fn is_capability(
    capability: BuiltCapability,
    source: CapabilitySource,
    id: Seq<char>,
) -> bool {
    let entry = source.config.capabilities@[id];
    let kind = source.registries.capabilities.registry@[entry.capability_type@].constructor;
    match capability {
        BuiltCapability::Explore(explore) => {
            &&& kind == CapabilityKind::SubAgentExplore
            &&& explore.made_from(entry.capability_id@, entry.config.tree(), *source.config)
        },
        BuiltCapability::Other { kind: made, instance_id, config } => {
            &&& kind != CapabilityKind::SubAgentExplore
            &&& made == kind
            &&& instance_id@ == entry.capability_id@
            &&& config.tree() == entry.config.tree()
        },
    }
}

/// A capability that was built before is handed out again. Else the one that is configured
/// under the id is built and kept under it, as long as its references resolve and its type
/// is registered. Where it cannot be built nothing is kept, and the message says why.
pub proof fn law_capability_is_built_as_configured(
    source: &CapabilitySource,
    id: &str,
    own_id: &str,
    checked: Result<(), ValidationError>,
    said: String,
)
    requires
        source.config.capabilities@.contains_key(id@) ==> own_id@
            == source.config.capabilities@[id@].capability_id@,
        call_ensures(
            validate_ref,
            (RefKind::Capability, own_id, &*source.config, &*source.registries),
            checked,
        ),
        checked matches Err(error) ==> call_ensures(ValidationError::text, (&error,), said),
    ensures
        forall|built: &mut NameMap<Arc<BuiltCapability>>, r: Result<Arc<BuiltCapability>, String>|
            #[trigger] call_ensures(CapabilitySource::get, (source, built, id), r) ==> {
                if built@.contains_key(id@) {
                    &&& r matches Ok(capability)
                    &&& capability == built@[id@]
                    &&& final(built)@ == built@
                } else if !source.config.capabilities@.contains_key(id@) {
                    &&& r matches Err(message)
                    &&& message@ == "capability '"@ + id@ + "' is not configured"@
                    &&& final(built)@ == built@
                } else if checked is Err {
                    &&& r matches Err(message)
                    &&& message@ == "Skipping capability '"@ + id@ + "': "@ + said@
                    &&& final(built)@ == built@
                } else if !source.registries.capabilities.registry@.contains_key(
                    source.config.capabilities@[id@].capability_type@,
                ) {
                    &&& r matches Err(message)
                    &&& message@ == "could not construct capability '"@ + id@ + "': "@ + (
                    "Unknown instance type: "@
                        + source.config.capabilities@[id@].capability_type@)
                    &&& final(built)@ == built@
                } else {
                    &&& r matches Ok(capability)
                    &&& is_capability(*capability, *source, id@)
                    &&& final(built)@ == built@.insert(id@, capability)
                }
            },
{
}

/// The capabilities that can be had: those that were built before, and those that can be
/// built.
pub open spec fn capability_can_be_had(
    config: Config,
    registries: Registries,
    built: Set<Seq<char>>,
) -> spec_fn(Seq<char>) -> bool {
    |id: Seq<char>| built.contains(id) || capability_problem(config, registries, id) is None
}

proof fn lemma_available_capabilities(
    config: Config,
    registries: Registries,
    built: Set<Seq<char>>,
    ids: Seq<Seq<char>>,
)
    ensures
        available_capabilities(config, registries, built, ids) == ids.filter(
            capability_can_be_had(config, registries, built),
        ),
    decreases ids.len(),
{
    reveal(Seq::filter);
    if ids.len() > 0 {
        lemma_available_capabilities(config, registries, built, ids.drop_last());
    } else {
        assert(available_capabilities(config, registries, built, ids) =~= ids.filter(
            capability_can_be_had(config, registries, built),
        ));
    }
}

/// Every configured capability that can be had is handed out under its id, in the order of
/// the configuration. One that was built before is the same as before; a new one is built
/// as it is configured. They are kept, and nothing else is.
pub proof fn law_every_capability_is_handed_out(source: &CapabilitySource)
    ensures
        forall|
            built: &mut NameMap<Arc<BuiltCapability>>,
            r: Vec<(String, Arc<BuiltCapability>)>,
        | #[trigger]
            call_ensures(CapabilitySource::instances, (source, built), r) ==> {
                &&& r@.map_values(|entry: (String, Arc<BuiltCapability>)| entry.0@)
                    == source.config.capabilities.names().filter(
                    capability_can_be_had(*source.config, *source.registries, built@.dom()),
                )
                &&& forall|i: int|
                    #![trigger r@[i]]
                    0 <= i < r@.len() ==> {
                        let id = r@[i].0@;
                        &&& final(built)@.contains_key(id) && final(built)@[id] == r@[i].1
                        &&& built@.contains_key(id) ==> r@[i].1 == built@[id]
                        &&& !built@.contains_key(id) ==> is_capability(*r@[i].1, *source, id)
                    }
                &&& forall|kept: Seq<char>| #[trigger]
                    built@.contains_key(kept) ==> final(built)@.contains_key(kept)
                        && final(built)@[kept] == built@[kept]
                &&& forall|kept: Seq<char>| #[trigger]
                    final(built)@.contains_key(kept) && !built@.contains_key(kept) ==> exists|i: int|
                        0 <= i < r@.len() && (#[trigger] r@[i]).0@ == kept
            },
{
    assert forall|
        built: &mut NameMap<Arc<BuiltCapability>>,
        r: Vec<(String, Arc<BuiltCapability>)>,
    | #[trigger]
        call_ensures(CapabilitySource::instances, (source, built), r) implies r@.map_values(
        |entry: (String, Arc<BuiltCapability>)| entry.0@,
    ) == source.config.capabilities.names().filter(
        capability_can_be_had(*source.config, *source.registries, built@.dom()),
    ) by {
        lemma_available_capabilities(
            *source.config,
            *source.registries,
            built@.dom(),
            source.config.capabilities.names(),
        );
    }
}

/// A source tells of every registered type, in the order of the registry, what its
/// implementation says of itself, and of each the schema of its settings.
pub proof fn law_sources_tell_of_every_type(
    models: &ModelSource,
    capabilities: &CapabilitySource,
    name: &str,
)
    ensures
        forall|r: Vec<(&str, &ModelMetadata)>| #[trigger]
            call_ensures(ModelSource::catalog, (models,), r) ==> {
                let registry = models.registries.models.registry;
                &&& r@.len() == registry.names().len()
                &&& forall|i: int|
                    0 <= i < r@.len() ==> (#[trigger] r@[i]).0@ == registry.names()[i] && *r@[i].1
                        == registry@[registry.names()[i]].metadata
            },
        forall|r: Option<&Json>| #[trigger]
            call_ensures(ModelSource::config_schema, (models, name), r) ==> {
                let registry = models.registries.models.registry;
                &&& r is Some <==> registry@.contains_key(name@)
                &&& r matches Some(schema) ==> *schema == registry@[name@].config_schema
            },
        forall|r: Vec<(&str, &CapabilityMetadata)>| #[trigger]
            call_ensures(CapabilitySource::catalog, (capabilities,), r) ==> {
                let registry = capabilities.registries.capabilities.registry;
                &&& r@.len() == registry.names().len()
                &&& forall|i: int|
                    0 <= i < r@.len() ==> (#[trigger] r@[i]).0@ == registry.names()[i] && *r@[i].1
                        == registry@[registry.names()[i]].metadata
            },
        forall|r: Option<&Json>| #[trigger]
            call_ensures(CapabilitySource::config_schema, (capabilities, name), r) ==> {
                let registry = capabilities.registries.capabilities.registry;
                &&& r is Some <==> registry@.contains_key(name@)
                &&& r matches Some(schema) ==> *schema == registry@[name@].config_schema
            },
{
}

} // verus!
