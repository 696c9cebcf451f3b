//! The routes of the session proxy: one for each model that the capabilities of a
//! launch name.

pub mod laws;

use vstd::prelude::*;
use vstd::string::*;
use crate::config::validation::{capability_targets, refs_view, RefKind, RefView};
use crate::config::{text_or_none, Config};
use crate::models::source::{model_problem, upstream_for, upstream_of};
use crate::name_map::NameMap;
use crate::providers::{alias_for, as_text, str_view, ProviderInstance, Secret};
use crate::registry::Registries;
use crate::text::same_text;

verus! {

/// A list of ids with one more at its end, unless it has it already.
pub open spec fn with_id(ids: Seq<Seq<char>>, id: Seq<char>) -> Seq<Seq<char>> {
    if ids.contains(id) {
        ids
    } else {
        ids.push(id)
    }
}

/// A list of ids with the models among the given references.
pub open spec fn with_models(ids: Seq<Seq<char>>, refs: Seq<RefView>) -> Seq<Seq<char>>
    decreases refs.len(),
{
    if refs.len() == 0 {
        ids
    } else {
        let earlier = with_models(ids, refs.drop_last());
        if refs.last().0 == RefKind::Model {
            with_id(earlier, refs.last().1)
        } else {
            earlier
        }
    }
}

/// What a configured capability refers to. A capability that is not configured,
/// or cannot name what it refers to, refers to nothing.
pub open spec fn named_by(config: Config, registries: Registries, id: Seq<char>) -> Seq<RefView> {
    if config.capabilities@.contains_key(id) {
        match capability_targets(config.capabilities@[id], registries) {
            Ok(refs) => refs,
            Err(_) => Seq::empty(),
        }
    } else {
        Seq::empty()
    }
}

/// The models that the given capabilities name, each once, in the order in which
/// they are named first.
pub open spec fn models_named_by(
    config: Config,
    registries: Registries,
    capabilities: Seq<Seq<char>>,
) -> Seq<Seq<char>>
    decreases capabilities.len(),
{
    if capabilities.len() == 0 {
        Seq::empty()
    } else {
        with_models(
            models_named_by(config, registries, capabilities.drop_last()),
            named_by(config, registries, capabilities.last()),
        )
    }
}

/// What the ids of a list are.
pub open spec fn ids_view(ids: Seq<String>) -> Seq<Seq<char>> {
    ids.map_values(|id: String| id@)
}

/// Tells whether an id is in a list.
fn has_id(ids: &Vec<String>, id: &str) -> (r: bool)
    ensures
        r == ids_view(ids@).contains(id@),
{
    let mut i: usize = 0;
    while i < ids.len()
        invariant
            i <= ids@.len(),
            forall|j: int| 0 <= j < i ==> ids_view(ids@)[j] != id@,
        decreases ids@.len() - i,
    {
        if same_text(ids[i].as_str(), id) {
            proof {
                assert(ids_view(ids@)[i as int] == id@);
            }
            return true;
        }
        i += 1;
    }
    false
}

/// Adds the models among the given references to a list of ids.
fn add_models(ids: &mut Vec<String>, refs: &Vec<(RefKind, &str)>)
    ensures
        ids_view(final(ids)@) == with_models(ids_view(old(ids)@), refs_view(refs@)),
{
    let ghost all = refs_view(refs@);
    let ghost start = ids_view(ids@);
    let mut i: usize = 0;
    proof {
        assert(all.take(0) =~= Seq::<RefView>::empty());
    }
    while i < refs.len()
        invariant
            i <= refs@.len(),
            all == refs_view(refs@),
            ids_view(ids@) == with_models(start, all.take(i as int)),
        decreases refs@.len() - i,
    {
        let (kind, id) = refs[i];
        let ghost before = ids_view(ids@);
        proof {
            let here = all.take(i + 1);
            assert(here.drop_last() =~= all.take(i as int));
            assert(here.last() == (kind, id@));
        }
        if kind == RefKind::Model && !has_id(ids, id) {
            ids.push(id.to_owned());
            proof {
                assert(ids_view(ids@) =~= before.push(id@));
            }
        }
        i += 1;
    }
    proof {
        assert(all.take(i as int) =~= all);
    }
}

/// The models that the given capabilities name, each once, in the order in which
/// they are named first. A capability that is not configured, has an unknown type
/// or lacks a required id names nothing.
pub fn model_ids_named_by(
    config: &Config,
    registries: &Registries,
    capability_ids: &Vec<String>,
) -> (r: Vec<String>)
    ensures
        ids_view(r@) == models_named_by(*config, *registries, ids_view(capability_ids@)),
{
    let mut ids: Vec<String> = Vec::new();
    let ghost all = ids_view(capability_ids@);
    let mut i: usize = 0;
    proof {
        assert(all.take(0) =~= Seq::<Seq<char>>::empty());
        assert(ids_view(ids@) =~= Seq::<Seq<char>>::empty());
    }
    while i < capability_ids.len()
        invariant
            i <= capability_ids@.len(),
            all == ids_view(capability_ids@),
            ids_view(ids@) == models_named_by(*config, *registries, all.take(i as int)),
        decreases capability_ids@.len() - i,
    {
        proof {
            let here = all.take(i + 1);
            assert(here.drop_last() =~= all.take(i as int));
            assert(here.last() == capability_ids@[i as int]@);
        }
        if let Some(capability) = config.capabilities.get(capability_ids[i].as_str()) {
            if let Ok(refs) = capability.refs(registries) {
                add_models(&mut ids, &refs);
            }
        }
        i += 1;
    }
    proof {
        assert(all.take(i as int) =~= all);
    }
    ids
}

/// How the proxy signs in at the service behind it.
pub enum UpstreamAuth {
    /// With this credential, if there is one.
    Inject(Option<Secret>),
}

/// The service that a route leads to.
pub struct UpstreamTarget {
    pub base_url: String,
    pub verify_ssl: bool,
    pub auth: UpstreamAuth,
}

/// A route of the proxy: the model name that a launched process asks for, the
/// service that serves it, and the label under which its usage is recorded.
pub struct Route {
    pub key: String,
    pub target: UpstreamTarget,
    pub label: String,
}

/// Tells whether a credential may be there and is the same.
pub open spec fn same_secret(a: Option<Secret>, b: Option<Secret>) -> bool {
    match (a, b) {
        (Some(x), Some(y)) => x.0@ == y.0@,
        (None, None) => true,
        _ => false,
    }
}

/// Tells whether a route leads from the name that the provider knows the model by, in
/// the variant that it was configured with, to the real provider.
pub open spec fn leads_to(
    route: Route,
    model_id: Seq<char>,
    variant: Option<Seq<char>>,
    provider: ProviderInstance,
) -> bool {
    &&& route.key@ == (match alias_for(provider, model_id, variant) {
        Some(name) => name,
        None => model_id,
    })
    &&& route.target.base_url@ == provider.base_url@
    &&& route.target.verify_ssl == provider.verify_ssl
    &&& same_secret(route.target.auth->Inject_0, provider.api_key)
    &&& route.label@ == model_id
}

/// The route to a model in the variant that it was configured with, given its provider
/// as it is without the proxy.
pub fn route_to(model_id: &str, variant: Option<&str>, provider: &ProviderInstance) -> (r: Route)
    ensures
        leads_to(r, model_id@, str_view(variant), *provider),
{
    Route {
        key: match provider.model_alias(model_id, variant) {
            Some(name) => name.to_owned(),
            None => model_id.to_owned(),
        },
        target: UpstreamTarget {
            base_url: provider.base_url.clone(),
            verify_ssl: provider.verify_ssl,
            auth: UpstreamAuth::Inject(
                match &provider.api_key {
                    Some(key) => Some(Secret(key.0.clone())),
                    None => None,
                },
            ),
        },
        label: model_id.to_owned(),
    }
}

/// The provider that a model is routed to: the one that it was configured with, where
/// both the model and the provider can be had.
pub open spec fn route_target(
    config: Config,
    registries: Registries,
    upstream: Map<Seq<char>, ProviderInstance>,
    model_id: Seq<char>,
) -> Option<ProviderInstance> {
    if model_problem(config, registries, model_id) is None {
        upstream_of(config, upstream, model_id)
    } else {
        None
    }
}

/// Tells whether there is a route to each of the given models that has a target, in
/// their order, and no other route.
pub open spec fn routes_lead_to(
    routes: Seq<Route>,
    config: Config,
    registries: Registries,
    upstream: Map<Seq<char>, ProviderInstance>,
    model_ids: Seq<Seq<char>>,
) -> bool
    decreases model_ids.len(),
{
    if model_ids.len() == 0 {
        routes.len() == 0
    } else {
        let id = model_ids.last();
        let earlier = model_ids.drop_last();
        match route_target(config, registries, upstream, id) {
            Some(provider) => {
                &&& routes.len() > 0
                &&& leads_to(
                    routes.last(),
                    id,
                    text_or_none(config.models@[id].variant),
                    provider,
                )
                &&& routes_lead_to(routes.drop_last(), config, registries, upstream, earlier)
            },
            None => routes_lead_to(routes, config, registries, upstream, earlier),
        }
    }
}

/// The routes that a launch needs: one for each model that its capabilities name, in
/// the order in which they are named first. A model that cannot be built, or whose
/// provider cannot be had, gets none. `upstream` has the providers that could be built,
/// as they are without the proxy.
pub fn launch_routes(
    config: &Config,
    registries: &Registries,
    upstream: &NameMap<ProviderInstance>,
    capabilities: &Vec<String>,
) -> (r: Vec<Route>)
    ensures
        routes_lead_to(
            r@,
            *config,
            *registries,
            upstream@,
            models_named_by(*config, *registries, ids_view(capabilities@)),
        ),
{
    let model_ids = model_ids_named_by(config, registries, capabilities);
    let mut routes: Vec<Route> = Vec::new();
    let ghost ids = ids_view(model_ids@);
    let mut i: usize = 0;
    while i < model_ids.len()
        invariant
            i <= model_ids@.len(),
            ids == ids_view(model_ids@),
            routes_lead_to(routes@, *config, *registries, upstream@, ids.take(i as int)),
        decreases model_ids@.len() - i,
    {
        let id = model_ids[i].as_str();
        proof {
            assert(ids.take(i + 1).drop_last() =~= ids.take(i as int));
            assert(ids.take(i + 1).last() == id@);
        }
        if let Some(entry) = config.models.get(id) {
            if registries.models.get(entry.model_type.as_str()).is_some() {
                if let Some(provider) = upstream_for(config, upstream, id) {
                    let ghost before = routes@;
                    let route = route_to(id, as_text(&entry.variant), provider);
                    routes.push(route);
                    proof {
                        assert(routes@.drop_last() =~= before);
                    }
                }
            }
        }
        i += 1;
    }
    proof {
        assert(ids.take(i as int) =~= ids);
    }
    routes
}

/// The text that tells the user that a route could not be registered.
pub open spec fn failure_text(model_id: Seq<char>, reason: Seq<char>) -> Seq<char> {
    "failed to register proxy route for model '"@ + model_id + "': "@ + reason
}

/// What to tell the user when a route cannot be registered.
pub fn route_failure_text(model_id: &str, reason: &str) -> (r: String)
    ensures
        r@ == failure_text(model_id@, reason@),
{
    let mut out = "failed to register proxy route for model '".to_owned();
    out.append(model_id);
    out.append("': ");
    out.append(reason);
    out
}

/// What to tell the user after the routes were registered, given the model of each and
/// why it failed, where it did: one text for each failure, in their order.
pub open spec fn warnings(outcomes: Seq<(String, Option<String>)>) -> Seq<Seq<char>>
    decreases outcomes.len(),
{
    if outcomes.len() == 0 {
        Seq::empty()
    } else {
        let earlier = warnings(outcomes.drop_last());
        match outcomes.last().1 {
            Some(reason) => earlier.push(failure_text(outcomes.last().0@, reason@)),
            None => earlier,
        }
    }
}

/// What to tell the user after the routes were registered, given the model of each and
/// why it failed, where it did.
pub fn route_warnings(outcomes: &Vec<(String, Option<String>)>) -> (r: Vec<String>)
    ensures
        ids_view(r@) == warnings(outcomes@),
{
    let mut out: Vec<String> = Vec::new();
    let mut i: usize = 0;
    proof {
        assert(outcomes@.take(0) =~= Seq::empty());
        assert(ids_view(out@) =~= Seq::<Seq<char>>::empty());
    }
    while i < outcomes.len()
        invariant
            i <= outcomes@.len(),
            ids_view(out@) == warnings(outcomes@.take(i as int)),
        decreases outcomes@.len() - i,
    {
        let ghost before = ids_view(out@);
        proof {
            assert(outcomes@.take(i + 1).drop_last() =~= outcomes@.take(i as int));
            assert(outcomes@.take(i + 1).last() == outcomes@[i as int]);
        }
        if let Some(reason) = &outcomes[i].1 {
            let text = route_failure_text(outcomes[i].0.as_str(), reason.as_str());
            let ghost said = text@;
            out.push(text);
            proof {
                assert(ids_view(out@) =~= before.push(said));
            }
        }
        i += 1;
    }
    proof {
        assert(outcomes@.take(i as int) =~= outcomes@);
    }
    out
}

proof fn lemma_with_models_distinct(ids: Seq<Seq<char>>, refs: Seq<RefView>)
    requires
        ids.no_duplicates(),
    ensures
        with_models(ids, refs).no_duplicates(),
    decreases refs.len(),
{
    if refs.len() > 0 {
        lemma_with_models_distinct(ids, refs.drop_last());
    }
}

/// Each model is named once, however many capabilities name it.
pub proof fn law_models_are_named_once(
    config: Config,
    registries: Registries,
    capabilities: Seq<Seq<char>>,
)
    ensures
        models_named_by(config, registries, capabilities).no_duplicates(),
    decreases capabilities.len(),
{
    if capabilities.len() > 0 {
        law_models_are_named_once(config, registries, capabilities.drop_last());
        lemma_with_models_distinct(
            models_named_by(config, registries, capabilities.drop_last()),
            named_by(config, registries, capabilities.last()),
        );
    }
}

proof fn lemma_with_models_members(ids: Seq<Seq<char>>, refs: Seq<RefView>, id: Seq<char>)
    ensures
        with_models(ids, refs).contains(id) == (ids.contains(id) || refs.contains(
            (RefKind::Model, id),
        )),
    decreases refs.len(),
{
    if refs.len() > 0 {
        let front = refs.drop_last();
        let earlier = with_models(ids, front);
        lemma_with_models_members(ids, front, id);
        let last = refs.last();
        assert(refs.contains((RefKind::Model, id)) == (front.contains((RefKind::Model, id))
            || last == (RefKind::Model, id))) by {
            if front.contains((RefKind::Model, id)) {
                let i = front.index_of((RefKind::Model, id));
                assert(refs[i] == (RefKind::Model, id));
            }
            if last == (RefKind::Model, id) {
                assert(refs[refs.len() - 1] == last);
            }
            if refs.contains((RefKind::Model, id)) {
                let i = refs.index_of((RefKind::Model, id));
                if i < front.len() {
                    assert(front[i] == refs[i]);
                }
            }
        }
        if last.0 == RefKind::Model {
            let all = with_id(earlier, last.1);
            if earlier.contains(id) {
                let i = earlier.index_of(id);
                assert(all[i] == id);
            }
            if last.1 == id && !earlier.contains(id) {
                assert(all[earlier.len() as int] == id);
            }
            if all.contains(id) && !earlier.contains(id) {
                let i = all.index_of(id);
                if i < earlier.len() {
                    assert(earlier[i] == id);
                }
            }
        }
    }
}

/// A model is among those named exactly when one of the capabilities names it.
pub proof fn law_models_are_named_by_capabilities(
    config: Config,
    registries: Registries,
    capabilities: Seq<Seq<char>>,
    id: Seq<char>,
)
    ensures
        models_named_by(config, registries, capabilities).contains(id) <==> (exists|i: int|
            0 <= i < capabilities.len() && named_by(
                config,
                registries,
                #[trigger] capabilities[i],
            ).contains((RefKind::Model, id))),
    decreases capabilities.len(),
{
    if capabilities.len() > 0 {
        let front = capabilities.drop_last();
        law_models_are_named_by_capabilities(config, registries, front, id);
        let last = named_by(config, registries, capabilities.last());
        lemma_with_models_members(models_named_by(config, registries, front), last, id);
        if models_named_by(config, registries, front).contains(id) {
            let i = choose|i: int|
                0 <= i < front.len() && named_by(config, registries, #[trigger] front[i]).contains(
                    (RefKind::Model, id),
                );
            assert(capabilities[i] == front[i]);
        }
        if last.contains((RefKind::Model, id)) {
            assert(capabilities[capabilities.len() - 1] == capabilities.last());
        }
        if exists|i: int|
            0 <= i < capabilities.len() && named_by(
                config,
                registries,
                #[trigger] capabilities[i],
            ).contains((RefKind::Model, id)) {
            let i = choose|i: int|
                0 <= i < capabilities.len() && named_by(
                    config,
                    registries,
                    #[trigger] capabilities[i],
                ).contains((RefKind::Model, id));
            if i < front.len() {
                assert(front[i] == capabilities[i]);
            }
        }
    }
}

/// The models that routes lead to.
pub open spec fn labels(routes: Seq<Route>) -> Seq<Seq<char>> {
    routes.map_values(|route: Route| route.label@)
}

proof fn lemma_labels(
    routes: Seq<Route>,
    config: Config,
    registries: Registries,
    upstream: Map<Seq<char>, ProviderInstance>,
    model_ids: Seq<Seq<char>>,
)
    requires
        routes_lead_to(routes, config, registries, upstream, model_ids),
        model_ids.no_duplicates(),
    ensures
        labels(routes).no_duplicates(),
        forall|id: Seq<char>| #[trigger]
            labels(routes).contains(id) <==> model_ids.contains(id) && route_target(
                config,
                registries,
                upstream,
                id,
            ) is Some,
    decreases model_ids.len(),
{
    if model_ids.len() > 0 {
        let last = model_ids.last();
        let front = model_ids.drop_last();
        assert forall|id: Seq<char>| #[trigger] model_ids.contains(id) == (front.contains(id)
            || id == last) by {
            assert(model_ids =~= front.push(last));
            lemma_pushed(front, last, id);
        }
        assert(!front.contains(last)) by {
            if front.contains(last) {
                let i = front.index_of(last);
                assert(model_ids[i] == model_ids[model_ids.len() - 1]);
            }
        }
        if route_target(config, registries, upstream, last) is Some {
            let earlier = labels(routes.drop_last());
            lemma_labels(routes.drop_last(), config, registries, upstream, front);
            assert(labels(routes) =~= earlier.push(last));
            assert forall|id: Seq<char>| #[trigger] labels(routes).contains(id)
                == (earlier.contains(id) || id == last) by {
                lemma_pushed(earlier, last, id);
            }
            assert(!earlier.contains(last));
            assert forall|i: int, j: int|
                0 <= i < labels(routes).len() && 0 <= j < labels(routes).len() && i
                    != j implies labels(routes)[i] != labels(routes)[j] by {
                if i == earlier.len() {
                    assert(earlier.contains(earlier[j]));
                } else if j == earlier.len() {
                    assert(earlier.contains(earlier[i]));
                }
            }
        } else {
            lemma_labels(routes, config, registries, upstream, front);
        }
    }
}

proof fn lemma_pushed(ids: Seq<Seq<char>>, last: Seq<char>, id: Seq<char>)
    ensures
        ids.push(last).contains(id) == (ids.contains(id) || id == last),
{
    let all = ids.push(last);
    if ids.contains(id) {
        assert(all[ids.index_of(id)] == id);
    }
    if id == last {
        assert(all[ids.len() as int] == id);
    }
    if all.contains(id) {
        let i = all.index_of(id);
        if i < ids.len() {
            assert(ids[i] == id);
        }
    }
}

/// Of the models that the capabilities of a launch name, those that can be built and
/// whose provider can be had get one route each. No other model gets one.
pub proof fn law_named_models_are_routed_once(
    routes: Seq<Route>,
    config: Config,
    registries: Registries,
    upstream: Map<Seq<char>, ProviderInstance>,
    capabilities: Seq<Seq<char>>,
    id: Seq<char>,
)
    requires
        routes_lead_to(
            routes,
            config,
            registries,
            upstream,
            models_named_by(config, registries, capabilities),
        ),
    ensures
        labels(routes).no_duplicates(),
        labels(routes).contains(id) <==> route_target(config, registries, upstream, id) is Some && (
        exists|i: int|
            0 <= i < capabilities.len() && named_by(
                config,
                registries,
                #[trigger] capabilities[i],
            ).contains((RefKind::Model, id))),
{
    let ids = models_named_by(config, registries, capabilities);
    law_models_are_named_once(config, registries, capabilities);
    law_models_are_named_by_capabilities(config, registries, capabilities, id);
    lemma_labels(routes, config, registries, upstream, ids);
}

/// Two models on one provider get different routes wherever the provider knows them by
/// different names, even where they are the same model in two variants.
pub proof fn law_routes_follow_the_variant(
    a: Route,
    b: Route,
    first: (Seq<char>, Option<Seq<char>>),
    second: (Seq<char>, Option<Seq<char>>),
    provider: ProviderInstance,
)
    requires
        leads_to(a, first.0, first.1, provider),
        leads_to(b, second.0, second.1, provider),
        alias_for(provider, first.0, first.1) is Some,
        alias_for(provider, second.0, second.1) is Some,
    ensures
        a.key@ == b.key@ <==> alias_for(provider, first.0, first.1) == alias_for(
            provider,
            second.0,
            second.1,
        ),
{
}

} // verus!
