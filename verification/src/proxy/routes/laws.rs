//! What the routes of a launch promise as a whole, told from the configuration, the
//! registries and the providers alone.

use vstd::prelude::*;
use crate::config::validation::{capability_targets, RefKind, RefView};
use crate::config::Config;
use crate::name_map::NameMap;
use crate::providers::{alias_among, ModelAlias, ProviderInstance, Secret};
use crate::proxy::routes::{
    ids_view, launch_routes, leads_to, model_ids_named_by, models_named_by, named_by,
    route_failure_text, route_to, route_warnings, routes_lead_to, warnings, with_id, with_models,
    Route, UpstreamAuth,
};
use crate::registry::Registries;

verus! {

/// Tells whether an entry of a list of names is for a model in a variant.
pub open spec fn is_for(
    aliases: Seq<ModelAlias>,
    i: int,
    model_id: Seq<char>,
    variant: Option<Seq<char>>,
) -> bool {
    &&& 0 <= i < aliases.len()
    &&& aliases[i].model_id@ == model_id
    &&& match aliases[i].variant {
        Some(own) => variant == Some(own@),
        None => variant is None,
    }
}

/// Tells whether an entry is the first one for a model in a variant.
pub open spec fn is_first_for(
    aliases: Seq<ModelAlias>,
    i: int,
    model_id: Seq<char>,
    variant: Option<Seq<char>>,
) -> bool {
    &&& is_for(aliases, i, model_id, variant)
    &&& forall|j: int| 0 <= j < i ==> !#[trigger] is_for(aliases, j, model_id, variant)
}

/// Tells whether a name is the one that a provider knows a model by in a variant: that of
/// the first entry for it, or the id of the model where there is none.
pub open spec fn is_key(
    key: Seq<char>,
    aliases: Seq<ModelAlias>,
    model_id: Seq<char>,
    variant: Option<Seq<char>>,
) -> bool {
    &&& forall|i: int| #[trigger]
        is_first_for(aliases, i, model_id, variant) ==> key == aliases[i].name@
    &&& (forall|i: int| !#[trigger] is_for(aliases, i, model_id, variant)) ==> key == model_id
}

/// The name of a model in a variant is that of the first entry for it, and there is none
/// where no entry is for it.
pub proof fn law_first_entry_names_the_model(
    aliases: Seq<ModelAlias>,
    model_id: Seq<char>,
    variant: Option<Seq<char>>,
)
    ensures
        alias_among(aliases, model_id, variant) matches Some(name) ==> exists|i: int| #[trigger]
            is_first_for(aliases, i, model_id, variant) && aliases[i].name@ == name,
        alias_among(aliases, model_id, variant) is None ==> forall|i: int|
            !#[trigger] is_for(aliases, i, model_id, variant),
        forall|i: int| #[trigger]
            is_first_for(aliases, i, model_id, variant) ==> alias_among(aliases, model_id, variant)
                == Some(aliases[i].name@),
    decreases aliases.len(),
{
    if aliases.len() > 0 {
        let front = aliases.drop_last();
        let n = aliases.len() - 1;
        law_first_entry_names_the_model(front, model_id, variant);
        assert forall|i: int| 0 <= i < n implies #[trigger] is_for(aliases, i, model_id, variant)
            == is_for(front, i, model_id, variant) by {
            assert(front[i] == aliases[i]);
        }
        match alias_among(front, model_id, variant) {
            Some(name) => {
                let i = choose|i: int| #[trigger]
                    is_first_for(front, i, model_id, variant) && front[i].name@ == name;
                assert(is_first_for(aliases, i, model_id, variant));
                assert(aliases[i] == front[i]);
                assert forall|k: int| #[trigger]
                    is_first_for(aliases, k, model_id, variant) implies k == i by {
                    if k > i {
                        assert(is_for(aliases, i, model_id, variant));
                    } else if k < i {
                        assert(is_for(aliases, k, model_id, variant));
                    }
                }
            },
            None => {
                assert forall|k: int| #[trigger]
                    is_for(aliases, k, model_id, variant) implies k == n by {
                    if k < n {
                        assert(is_for(front, k, model_id, variant));
                    }
                }
                if is_for(aliases, n, model_id, variant) {
                    assert(is_first_for(aliases, n, model_id, variant));
                }
            },
        }
    }
}

/// A text that may be there.
pub open spec fn text_of(text: Option<&str>) -> Option<Seq<char>> {
    match text {
        Some(s) => Some(s@),
        None => None,
    }
}

/// A provider names a model in a variant as its first entry for it does.
pub proof fn law_provider_names_the_model(
    provider: &ProviderInstance,
    model_id: &str,
    variant: Option<&str>,
    i: int,
)
    ensures
        forall|r: Option<&str>| #[trigger]
            call_ensures(ProviderInstance::model_alias, (provider, model_id, variant), r) ==> {
                &&& is_first_for(provider.aliases@, i, model_id@, text_of(variant)) ==> (
                r matches Some(name) && name@ == provider.aliases@[i].name@)
                &&& r is None <==> forall|j: int|
                    !#[trigger] is_for(provider.aliases@, j, model_id@, text_of(variant))
            },
{
    let wanted = text_of(variant);
    law_first_entry_names_the_model(provider.aliases@, model_id@, wanted);
    assert forall|r: Option<&str>| #[trigger]
        call_ensures(ProviderInstance::model_alias, (provider, model_id, variant), r) && r is Some
        implies exists|j: int| #[trigger] is_for(provider.aliases@, j, model_id@, wanted) by {
        let name = alias_among(provider.aliases@, model_id@, wanted)->0;
        let j = choose|j: int| #[trigger]
            is_first_for(provider.aliases@, j, model_id@, wanted) && provider.aliases@[j].name@
                == name;
        assert(is_for(provider.aliases@, j, model_id@, wanted));
    }
}

/// Tells whether a credential that may be there is the same as another.
pub open spec fn is_key_of(key: Option<Secret>, provider: ProviderInstance) -> bool {
    match (key, provider.api_key) {
        (Some(a), Some(b)) => (a.0)@ == (b.0)@,
        (None, None) => true,
        _ => false,
    }
}

/// Tells whether a route takes the name that a provider knows a model by to that
/// provider, at its own address and with its own credential, and counts for the model.
pub open spec fn is_route(
    route: Route,
    model_id: Seq<char>,
    variant: Option<Seq<char>>,
    provider: ProviderInstance,
) -> bool {
    &&& is_key(route.key@, provider.aliases@, model_id, variant)
    &&& route.target.base_url@ == provider.base_url@
    &&& route.target.verify_ssl == provider.verify_ssl
    &&& route.target.auth matches UpstreamAuth::Inject(key)
    &&& is_key_of(key, provider)
    &&& route.label@ == model_id
}

proof fn lemma_route(
    route: Route,
    model_id: Seq<char>,
    variant: Option<Seq<char>>,
    provider: ProviderInstance,
)
    requires
        leads_to(route, model_id, variant, provider),
    ensures
        is_route(route, model_id, variant, provider),
{
    law_first_entry_names_the_model(provider.aliases@, model_id, variant);
}

/// The route to a model leads from the name that its provider knows it by to the provider.
pub proof fn law_route_leads_to_the_provider(
    model_id: &str,
    variant: Option<&str>,
    provider: &ProviderInstance,
    r: Route,
)
    requires
        call_ensures(route_to, (model_id, variant, provider), r),
    ensures
        is_route(r, model_id@, text_of(variant), *provider),
{
    lemma_route(r, model_id@, text_of(variant), *provider);
}

/// The model among references, where one is to a model.
pub open spec fn model_of(at: RefView) -> Option<Seq<char>> {
    if at.0 == RefKind::Model {
        Some(at.1)
    } else {
        None
    }
}

/// The models that references are to, in their order.
pub open spec fn models_of(refs: Seq<RefView>) -> Seq<Seq<char>> {
    refs.filter_map(|at: RefView| model_of(at))
}

/// Every mention of a model by the given capabilities, in their order: a capability that
/// is configured and names everything that it has to mentions the models that it names.
pub open spec fn mentions(
    config: Config,
    registries: Registries,
    capabilities: Seq<Seq<char>>,
) -> Seq<Seq<char>>
    decreases capabilities.len(),
{
    if capabilities.len() == 0 {
        Seq::empty()
    } else {
        let earlier = mentions(config, registries, capabilities.drop_last());
        let id = capabilities.last();
        if config.capabilities@.contains_key(id) {
            match capability_targets(config.capabilities@[id], registries) {
                Ok(refs) => earlier + models_of(refs),
                Err(_) => earlier,
            }
        } else {
            earlier
        }
    }
}

/// Tells whether the member of a list at one place occurs in another list before a place
/// there at which that list has the member at a second place.
pub open spec fn occurs_first(
    list: Seq<Seq<char>>,
    all: Seq<Seq<char>>,
    i: int,
    j: int,
    k: int,
) -> bool {
    0 <= k < all.len() && all[k] == list[j] ==> exists|l: int|
        0 <= l < k && #[trigger] all[l] == list[i]
}

/// Tells whether a list has exactly the members of another, each once, in the order in
/// which they first occur there.
pub open spec fn is_each_once(list: Seq<Seq<char>>, all: Seq<Seq<char>>) -> bool {
    &&& list.no_duplicates()
    &&& forall|id: Seq<char>| #[trigger] list.contains(id) <==> all.contains(id)
    &&& forall|i: int, j: int, k: int|
        0 <= i < j < list.len() ==> #[trigger] occurs_first(list, all, i, j, k)
}

proof fn lemma_each_once_grows(list: Seq<Seq<char>>, all: Seq<Seq<char>>, id: Seq<char>)
    requires
        is_each_once(list, all),
    ensures
        is_each_once(with_id(list, id), all.push(id)),
{
    let longer = with_id(list, id);
    let more = all.push(id);
    assert forall|x: Seq<char>| #[trigger] longer.contains(x) <==> more.contains(x) by {
        if longer.contains(x) {
            let i = longer.index_of(x);
            if i < list.len() {
                assert(list[i] == x);
                assert(list.contains(x));
                let k = all.index_of(x);
                assert(more[k] == x);
            } else {
                assert(more[all.len() as int] == x);
            }
        }
        if more.contains(x) {
            let k = more.index_of(x);
            if k < all.len() {
                assert(all[k] == x);
                assert(all.contains(x));
                assert(list.contains(x));
                let i = list.index_of(x);
                assert(longer[i] == x);
            } else if list.contains(x) {
                let i = list.index_of(x);
                assert(longer[i] == x);
            } else {
                assert(longer[list.len() as int] == x);
            }
        }
    }
    assert forall|i: int, j: int, k: int| 0 <= i < j < longer.len() implies #[trigger] occurs_first(
        longer,
        more,
        i,
        j,
        k,
    ) by {
        assert(longer[i] == list[i]);
        if 0 <= k < more.len() && more[k] == longer[j] {
            if j < list.len() && k < all.len() {
                assert(longer[j] == list[j] && more[k] == all[k]);
                assert(occurs_first(list, all, i, j, k));
                let l = choose|l: int| 0 <= l < k && #[trigger] all[l] == list[i];
                assert(more[l] == longer[i]);
            } else {
                assert(list.contains(list[i]));
                assert(all.contains(list[i]));
                let l = all.index_of(list[i]);
                assert(more[l] == longer[i]);
                if k < all.len() {
                    assert(all.contains(all[k]));
                    assert(list.contains(all[k]));
                }
            }
        }
    }
    if !list.contains(id) {
        assert forall|i: int, j: int|
            0 <= i < longer.len() && 0 <= j < longer.len() && i != j implies longer[i]
            != longer[j] by {
            if i < list.len() {
                assert(list.contains(list[i]));
            }
            if j < list.len() {
                assert(list.contains(list[j]));
            }
        }
    }
}

proof fn lemma_each_once_of_refs(list: Seq<Seq<char>>, all: Seq<Seq<char>>, refs: Seq<RefView>)
    requires
        is_each_once(list, all),
    ensures
        is_each_once(with_models(list, refs), all + models_of(refs)),
    decreases refs.len(),
{
    if refs.len() > 0 {
        let front = refs.drop_last();
        lemma_each_once_of_refs(list, all, front);
        match model_of(refs.last()) {
            Some(id) => {
                lemma_each_once_grows(with_models(list, front), all + models_of(front), id);
                assert(models_of(refs) =~= models_of(front).push(id));
                assert(all + models_of(refs) =~= (all + models_of(front)).push(id));
            },
            None => {
                assert(models_of(refs) =~= models_of(front));
            },
        }
    } else {
        assert(all + models_of(refs) =~= all);
    }
}

proof fn lemma_each_once_of_capabilities(
    config: Config,
    registries: Registries,
    capabilities: Seq<Seq<char>>,
)
    ensures
        is_each_once(
            models_named_by(config, registries, capabilities),
            mentions(config, registries, capabilities),
        ),
    decreases capabilities.len(),
{
    if capabilities.len() > 0 {
        let front = capabilities.drop_last();
        lemma_each_once_of_capabilities(config, registries, front);
        let refs = named_by(config, registries, capabilities.last());
        lemma_each_once_of_refs(
            models_named_by(config, registries, front),
            mentions(config, registries, front),
            refs,
        );
        if refs.len() == 0 {
            assert(mentions(config, registries, front) + models_of(refs) =~= mentions(
                config,
                registries,
                front,
            ));
        }
    }
}

/// The models that capabilities name are those that they mention, each once, in the order
/// in which they are mentioned first.
pub proof fn law_models_are_named_in_order(
    config: &Config,
    registries: &Registries,
    capabilities: &Vec<String>,
    r: Vec<String>,
)
    requires
        call_ensures(model_ids_named_by, (config, registries, capabilities), r),
    ensures
        is_each_once(
            r@.map_values(|id: String| id@),
            mentions(*config, *registries, capabilities@.map_values(|id: String| id@)),
        ),
{
    lemma_each_once_of_capabilities(*config, *registries, ids_view(capabilities@));
}

/// The provider that a model can be routed to: the model is configured with a registered
/// type and names a provider that is configured and could be built.
pub open spec fn reached(
    config: Config,
    registries: Registries,
    upstream: Map<Seq<char>, ProviderInstance>,
    id: Seq<char>,
) -> Option<ProviderInstance> {
    if config.models@.contains_key(id) && registries.models.registry@.contains_key(
        config.models@[id].model_type@,
    ) {
        match config.models@[id].provider_id {
            Some(provider) => if config.providers@.contains_key(provider@) && upstream.contains_key(
                provider@,
            ) {
                Some(upstream[provider@])
            } else {
                None
            },
            None => None,
        }
    } else {
        None
    }
}

/// The models that can be routed to a provider.
pub open spec fn can_be_reached(
    config: Config,
    registries: Registries,
    upstream: Map<Seq<char>, ProviderInstance>,
) -> spec_fn(Seq<char>) -> bool {
    |id: Seq<char>| reached(config, registries, upstream, id) is Some
}

/// Tells whether a route is the one to a configured model.
pub open spec fn is_route_of(
    route: Route,
    config: Config,
    registries: Registries,
    upstream: Map<Seq<char>, ProviderInstance>,
    id: Seq<char>,
) -> bool {
    &&& reached(config, registries, upstream, id) matches Some(provider)
    &&& is_route(
        route,
        id,
        match config.models@[id].variant {
            Some(text) => Some(text@),
            None => None,
        },
        provider,
    )
}

/// The models that routes count for.
pub open spec fn routed_models(routes: Seq<Route>) -> Seq<Seq<char>> {
    routes.map_values(|route: Route| route.label@)
}

proof fn lemma_routes(
    routes: Seq<Route>,
    config: Config,
    registries: Registries,
    upstream: Map<Seq<char>, ProviderInstance>,
    ids: Seq<Seq<char>>,
)
    requires
        routes_lead_to(routes, config, registries, upstream, ids),
    ensures
        routed_models(routes) == ids.filter(can_be_reached(config, registries, upstream)),
        forall|i: int|
            0 <= i < routes.len() ==> is_route_of(
                #[trigger] routes[i],
                config,
                registries,
                upstream,
                routes[i].label@,
            ),
    decreases ids.len(),
{
    reveal(Seq::filter);
    let f = can_be_reached(config, registries, upstream);
    if ids.len() > 0 {
        let id = ids.last();
        match reached(config, registries, upstream, id) {
            Some(provider) => {
                let front = routes.drop_last();
                lemma_routes(front, config, registries, upstream, ids.drop_last());
                lemma_route(
                    routes.last(),
                    id,
                    match config.models@[id].variant {
                        Some(text) => Some(text@),
                        None => None,
                    },
                    provider,
                );
                assert(routed_models(routes) =~= routed_models(front).push(id));
                assert forall|i: int| 0 <= i < routes.len() implies is_route_of(
                    #[trigger] routes[i],
                    config,
                    registries,
                    upstream,
                    routes[i].label@,
                ) by {
                    if i < front.len() {
                        assert(routes[i] == front[i]);
                    }
                }
            },
            None => {
                lemma_routes(routes, config, registries, upstream, ids.drop_last());
            },
        }
    } else {
        assert(routed_models(routes) =~= ids.filter(f));
    }
}

/// A launch gets one route for each model that its capabilities name and that can be
/// reached, in the order in which they are named, and no other route. Each leads to the
/// provider that the model is configured with, under the name that the provider knows the
/// model by in the variant that it is configured with.
pub proof fn law_launch_is_routed(
    config: &Config,
    registries: &Registries,
    upstream: &NameMap<ProviderInstance>,
    capabilities: &Vec<String>,
    r: Vec<Route>,
    ids: Vec<String>,
)
    requires
        call_ensures(launch_routes, (config, registries, upstream, capabilities), r),
        call_ensures(model_ids_named_by, (config, registries, capabilities), ids),
    ensures
        routed_models(r@) == ids@.map_values(|id: String| id@).filter(
            can_be_reached(*config, *registries, upstream@),
        ),
        forall|i: int|
            0 <= i < r@.len() ==> is_route_of(
                #[trigger] r@[i],
                *config,
                *registries,
                upstream@,
                r@[i].label@,
            ),
{
    lemma_routes(r@, *config, *registries, upstream@, ids_view(ids@));
}

/// What the user is told of one outcome, where it is a failure.
pub open spec fn told(outcome: (String, Option<String>)) -> Option<Seq<char>> {
    match outcome.1 {
        Some(reason) => Some(
            "failed to register proxy route for model '"@ + outcome.0@ + "': "@ + reason@,
        ),
        None => None,
    }
}

/// What the user is told of each outcome.
pub open spec fn told_of_each() -> spec_fn((String, Option<String>)) -> Option<Seq<char>> {
    |outcome: (String, Option<String>)| told(outcome)
}

proof fn lemma_warnings(outcomes: Seq<(String, Option<String>)>)
    ensures
        warnings(outcomes) == outcomes.filter_map(told_of_each()),
    decreases outcomes.len(),
{
    let f = told_of_each();
    if outcomes.len() > 0 {
        let front = outcomes.drop_last();
        lemma_warnings(front);
        match told(outcomes.last()) {
            Some(text) => {
                assert(outcomes.filter_map(f) =~= front.filter_map(f).push(text));
            },
            None => {
                assert(outcomes.filter_map(f) =~= front.filter_map(f));
            },
        }
    } else {
        assert(warnings(outcomes) =~= outcomes.filter_map(f));
    }
}

/// The user is told of each route that could not be registered, in their order, with the
/// model and the reason, and of nothing else.
pub proof fn law_every_failure_is_told(outcomes: &Vec<(String, Option<String>)>, r: Vec<String>)
    requires
        call_ensures(route_warnings, (outcomes,), r),
    ensures
        r@.map_values(|text: String| text@) == outcomes@.filter_map(told_of_each()),
        forall|id: &str, reason: &str, text: String| #[trigger]
            call_ensures(route_failure_text, (id, reason), text) ==> text@
                == "failed to register proxy route for model '"@ + id@ + "': "@ + reason@,
{
    lemma_warnings(outcomes@);
}

} // verus!
