//! What it takes for each kind of instance to validate, told from the configuration and
//! the registries alone.

use vstd::prelude::*;
use crate::capabilities::Dependency;
use crate::config::validation::laws::{is_first_failing, law_validation_goes_step_by_step};
use crate::config::validation::{
    dangling, dangling_view, dependency_refs, dependency_targets, error_text, find_dangling,
    first_error, ids, instance_text, law_references_go_down, refs_view, targets, type_key,
    validate, validate_ref, DanglingRef, ErrorView, Problem, ProblemView, RefKind, RefView,
    ValidationError,
};
use crate::config::{CapabilityConfig, Config};
use crate::json::{Json, JsonTree};
use crate::registry::Registries;

verus! {

/// The id that settings hold under a key: a text that is not empty.
pub open spec fn id_in(settings: JsonTree, key: Seq<char>) -> Option<Seq<char>> {
    match settings {
        JsonTree::Object(fields) => if fields.contains_key(key) {
            match fields[key] {
                JsonTree::Str(id) => if id.len() > 0 {
                    Some(id)
                } else {
                    None
                },
                _ => None,
            }
        } else {
            None
        },
        _ => None,
    }
}

/// The instance that settings name for a dependency.
pub open spec fn named(settings: JsonTree, dependency: Dependency) -> Option<RefView> {
    match dependency {
        Dependency::Model { config_key, .. } => match id_in(settings, config_key@) {
            Some(id) => Some((RefKind::Model, id)),
            None => None,
        },
        Dependency::Provider { config_key, .. } => match id_in(settings, config_key@) {
            Some(id) => Some((RefKind::Provider, id)),
            None => None,
        },
        Dependency::ExternalTool { .. } => None,
    }
}

/// The key of a required dependency that settings name nothing for.
pub open spec fn lacks(settings: JsonTree, dependency: Dependency) -> Option<Seq<char>> {
    match dependency {
        Dependency::Model { config_key, required, .. } => if required && id_in(
            settings,
            config_key@,
        ) is None {
            Some(config_key@)
        } else {
            None
        },
        Dependency::Provider { config_key, required, .. } => if required && id_in(
            settings,
            config_key@,
        ) is None {
            Some(config_key@)
        } else {
            None
        },
        Dependency::ExternalTool { .. } => None,
    }
}

/// Settings that name everything that is required name, in the order of the
/// dependencies, an instance for each dependency on a model or a provider under whose key
/// they hold an id. Else the first required dependency without an id is the problem.
pub proof fn law_settings_name_the_dependencies(settings: JsonTree, dependencies: Seq<Dependency>)
    ensures
        (forall|i: int| 0 <= i < dependencies.len() ==> lacks(settings, #[trigger] dependencies[i]) is None)
            ==> dependency_targets(settings, dependencies) == Ok::<Seq<RefView>, ProblemView>(
            dependencies.filter_map(|d: Dependency| named(settings, d)),
        ),
        forall|i: int|
            0 <= i < dependencies.len() && lacks(settings, #[trigger] dependencies[i]) is Some && (
            forall|j: int| 0 <= j < i ==> lacks(settings, #[trigger] dependencies[j]) is None)
                ==> dependency_targets(settings, dependencies) == Err::<Seq<RefView>, ProblemView>(
                ProblemView::MissingDependency(lacks(settings, dependencies[i])->0),
            ),
    decreases dependencies.len(),
{
    let f = |d: Dependency| named(settings, d);
    if dependencies.len() > 0 {
        let front = dependencies.drop_last();
        let last = dependencies.last();
        law_settings_name_the_dependencies(settings, front);
        assert(dependencies[dependencies.len() - 1] == last);
        assert(forall|i: int| 0 <= i < front.len() ==> #[trigger] front[i] == dependencies[i]);
        if forall|i: int|
            0 <= i < dependencies.len() ==> lacks(settings, #[trigger] dependencies[i]) is None {
            assert forall|i: int| 0 <= i < front.len() implies lacks(
                settings,
                #[trigger] front[i],
            ) is None by {
                assert(front[i] == dependencies[i]);
            }
            let earlier = front.filter_map(f);
            match f(last) {
                Some(at) => {
                    assert(dependencies.filter_map(f) =~= earlier.push(at));
                },
                None => {
                    assert(dependencies.filter_map(f) =~= earlier);
                },
            }
        }
        assert forall|i: int|
            0 <= i < dependencies.len() && lacks(settings, #[trigger] dependencies[i]) is Some && (
            forall|j: int|
                0 <= j < i ==> lacks(
                    settings,
                    #[trigger] dependencies[j],
                ) is None) implies dependency_targets(settings, dependencies) == Err::<
            Seq<RefView>,
            ProblemView,
        >(ProblemView::MissingDependency(lacks(settings, dependencies[i])->0)) by {
            if i < front.len() {
                assert(front[i] == dependencies[i]);
            }
            assert forall|j: int| 0 <= j < i && j < front.len() implies lacks(
                settings,
                #[trigger] front[j],
            ) is None by {
                assert(front[j] == dependencies[j]);
            }
        }
    } else {
        assert(dependencies.filter_map(f) =~= Seq::<RefView>::empty());
    }
}

proof fn lemma_named_members(settings: JsonTree, dependencies: Seq<Dependency>, at: RefView)
    ensures
        dependencies.filter_map(|d: Dependency| named(settings, d)).contains(at) <==> exists|i: int|
            0 <= i < dependencies.len() && named(settings, #[trigger] dependencies[i]) == Some(at),
    decreases dependencies.len(),
{
    let f = |d: Dependency| named(settings, d);
    let all = dependencies.filter_map(f);
    if dependencies.len() > 0 {
        let front = dependencies.drop_last();
        let earlier = front.filter_map(f);
        lemma_named_members(settings, front, at);
        let n = dependencies.len() - 1;
        assert(dependencies[n] == dependencies.last());
        if exists|i: int|
            0 <= i < dependencies.len() && named(settings, #[trigger] dependencies[i]) == Some(at) {
            let i = choose|i: int|
                0 <= i < dependencies.len() && named(settings, #[trigger] dependencies[i]) == Some(
                    at,
                );
            if i < n {
                assert(front[i] == dependencies[i]);
                let k = earlier.index_of(at);
                assert(all[k] == at);
            } else {
                assert(all[all.len() - 1] == at);
            }
        }
        if all.contains(at) {
            let k = all.index_of(at);
            if k < earlier.len() {
                assert(earlier[k] == at);
                let i = choose|i: int|
                    0 <= i < front.len() && named(settings, #[trigger] front[i]) == Some(at);
                assert(dependencies[i] == front[i]);
            } else {
                assert(named(settings, dependencies[n]) == Some(at));
            }
        }
    }
}

/// The dependencies of the type of a configured capability.
pub open spec fn dependencies_of(
    config: Config,
    registries: Registries,
    id: Seq<char>,
) -> Seq<Dependency> {
    registries.capabilities.registry@[config.capabilities@[id].capability_type@].metadata.dependencies@
}

/// What a configured launcher refers to is exactly the capabilities that it enables, all
/// of them and in their order.
pub proof fn law_launcher_refers_to_what_it_enables(
    config: Config,
    registries: Registries,
    id: Seq<char>,
)
    ensures
        ({
            let list = config.launchers@[id].enabled_capabilities@;
            &&& targets(config, registries, (RefKind::Launcher, id)) matches Ok(refs)
            &&& refs.len() == list.len()
            &&& forall|i: int|
                0 <= i < list.len() ==> #[trigger] refs[i] == (RefKind::Capability, list[i]@)
        }),
{
}

/// What a configured model refers to is its provider, and a provider refers to nothing.
pub proof fn law_model_refers_to_its_provider(
    config: Config,
    registries: Registries,
    id: Seq<char>,
)
    ensures
        targets(config, registries, (RefKind::Model, id)) == (match config.models@[id].provider_id {
            Some(provider) => Ok::<Seq<RefView>, ProblemView>(
                seq![(RefKind::Provider, provider@)],
            ),
            None => Err::<Seq<RefView>, ProblemView>(ProblemView::NoProviderConfigured),
        }),
        targets(config, registries, (RefKind::Provider, id)) == Ok::<Seq<RefView>, ProblemView>(
            Seq::empty(),
        ),
{
}

/// A capability of a registered type that lacks nothing refers to what its settings name.
pub proof fn law_capability_refers_to_what_its_settings_name(
    config: Config,
    registries: Registries,
    id: Seq<char>,
    at: RefView,
)
    requires
        config.capabilities@.contains_key(id),
        registries.capabilities.registry@.contains_key(config.capabilities@[id].capability_type@),
    ensures
        ({
            let settings = config.capabilities@[id].config.tree();
            let dependencies = dependencies_of(config, registries, id);
            let refs = targets(config, registries, (RefKind::Capability, id));
            &&& refs is Ok <==> forall|i: int|
                0 <= i < dependencies.len() ==> lacks(
                    settings,
                    #[trigger] dependencies[i],
                ) is None
            &&& refs is Ok ==> (refs->Ok_0.contains(at) <==> exists|i: int|
                0 <= i < dependencies.len() && named(settings, #[trigger] dependencies[i]) == Some(
                    at,
                ))
        }),
{
    let settings = config.capabilities@[id].config.tree();
    let dependencies = dependencies_of(config, registries, id);
    law_settings_name_the_dependencies(settings, dependencies);
    lemma_named_members(settings, dependencies, at);
    if !(forall|i: int|
        0 <= i < dependencies.len() ==> lacks(settings, #[trigger] dependencies[i]) is None) {
        let i = choose|i: int|
            0 <= i < dependencies.len() && lacks(settings, #[trigger] dependencies[i]) is Some;
        lemma_first_lack(settings, dependencies, i);
    }
}

/// Where some dependency lacks an id, there is a first one.
proof fn lemma_first_lack(settings: JsonTree, dependencies: Seq<Dependency>, n: int) -> (i: int)
    requires
        0 <= n < dependencies.len(),
        lacks(settings, dependencies[n]) is Some,
    ensures
        0 <= i <= n,
        lacks(settings, dependencies[i]) is Some,
        forall|j: int| 0 <= j < i ==> lacks(settings, #[trigger] dependencies[j]) is None,
        dependency_targets(settings, dependencies) is Err,
    decreases n,
{
    if exists|j: int| 0 <= j < n && lacks(settings, #[trigger] dependencies[j]) is Some {
        let j = choose|j: int| 0 <= j < n && lacks(settings, #[trigger] dependencies[j]) is Some;
        lemma_first_lack(settings, dependencies, j)
    } else {
        law_settings_name_the_dependencies(settings, dependencies);
        n
    }
}

/// The error of an instance is the same whoever led to it, but that one with no referrer
/// of its own gets the one that led there.
pub proof fn law_referrer_is_only_carried(
    config: Config,
    registries: Registries,
    at: RefView,
    referrer: RefView,
)
    ensures
        match first_error(config, registries, at, None) {
            None => first_error(config, registries, at, Some(referrer)) is None,
            Some(error) => first_error(config, registries, at, Some(referrer)) == Some(
                ErrorView {
                    target: error.target,
                    problem: error.problem,
                    referrer: match error.referrer {
                        Some(own) => Some(own),
                        None => Some(referrer),
                    },
                },
            ),
        },
{
    law_validation_goes_step_by_step(config, registries, at, None);
    law_validation_goes_step_by_step(config, registries, at, Some(referrer));
    if first_error(config, registries, at, None) is Some && targets(config, registries, at) is Ok {
        let refs = targets(config, registries, at)->Ok_0;
        assert forall|i: int| #[trigger]
            is_first_failing(config, registries, at, refs, i) implies first_error(
            config,
            registries,
            refs[i],
            Some(at),
        )->0.referrer is Some by {
            lemma_has_referrer(config, registries, refs[i], at);
        }
    }
}

/// An error that is met on the way from somewhere has a referrer.
proof fn lemma_has_referrer(
    config: Config,
    registries: Registries,
    at: RefView,
    referrer: RefView,
)
    ensures
        first_error(config, registries, at, Some(referrer)) matches Some(error)
            ==> error.referrer is Some,
    decreases crate::config::validation::rank(at.0),
{
    law_validation_goes_step_by_step(config, registries, at, Some(referrer));
    if first_error(config, registries, at, Some(referrer)) is Some && targets(
        config,
        registries,
        at,
    ) is Ok {
        law_references_go_down(config, registries, at);
        let refs = targets(config, registries, at)->Ok_0;
        assert forall|i: int| #[trigger]
            is_first_failing(config, registries, at, refs, i) implies first_error(
            config,
            registries,
            refs[i],
            Some(at),
        )->0.referrer is Some by {
            lemma_has_referrer(config, registries, refs[i], at);
        }
    }
}

/// A provider validates exactly when it is configured and its type is registered.
pub proof fn law_when_a_provider_validates(config: Config, registries: Registries, id: Seq<char>)
    ensures
        first_error(config, registries, (RefKind::Provider, id), None) is None
            <==> config.providers@.contains_key(id) && registries.providers@.contains_key(
            config.providers@[id].provider_type@,
        ),
{
    law_validation_goes_step_by_step(config, registries, (RefKind::Provider, id), None);
}

/// A model validates exactly when it is configured, its type is registered, and it names
/// a provider that validates.
pub proof fn law_when_a_model_validates(config: Config, registries: Registries, id: Seq<char>)
    ensures
        first_error(config, registries, (RefKind::Model, id), None) is None
            <==> config.models@.contains_key(id) && registries.models.registry@.contains_key(
            config.models@[id].model_type@,
        ) && (config.models@[id].provider_id matches Some(provider) && first_error(
            config,
            registries,
            (RefKind::Provider, provider@),
            None,
        ) is None),
{
    let at = (RefKind::Model, id);
    law_validation_goes_step_by_step(config, registries, at, None);
    if config.models@[id].provider_id is Some {
        let target = (RefKind::Provider, config.models@[id].provider_id->0@);
        law_referrer_is_only_carried(config, registries, target, at);
        assert(targets(config, registries, at)->Ok_0 =~= seq![target]);
        assert(targets(config, registries, at)->Ok_0[0] == target);
    }
}

/// A capability validates exactly when it is configured, its type is registered, its
/// settings hold an id for every dependency that is required, and every model and
/// provider that they name for a dependency, required or not, validates.
pub proof fn law_when_a_capability_validates(
    config: Config,
    registries: Registries,
    id: Seq<char>,
)
    ensures
        first_error(config, registries, (RefKind::Capability, id), None) is None <==> {
            let settings = config.capabilities@[id].config.tree();
            let dependencies = dependencies_of(config, registries, id);
            &&& config.capabilities@.contains_key(id)
            &&& registries.capabilities.registry@.contains_key(
                config.capabilities@[id].capability_type@,
            )
            &&& forall|i: int| #![trigger dependencies[i]]
                0 <= i < dependencies.len() ==> lacks(settings, dependencies[i]) is None && (named(
                    settings,
                    dependencies[i],
                ) matches Some(at) ==> first_error(config, registries, at, None) is None)
        },
{
    let here = (RefKind::Capability, id);
    let settings = config.capabilities@[id].config.tree();
    let dependencies = dependencies_of(config, registries, id);
    law_validation_goes_step_by_step(config, registries, here, None);
    if config.capabilities@.contains_key(id) && registries.capabilities.registry@.contains_key(
        config.capabilities@[id].capability_type@,
    ) {
        let refs = targets(config, registries, here);
        law_capability_refers_to_what_its_settings_name(config, registries, id, here);
        if refs is Ok {
            if first_error(config, registries, here, None) is None {
                assert forall|i: int| #![trigger dependencies[i]] 0 <= i < dependencies.len() && (
                named(settings, dependencies[i]) is Some) implies first_error(
                    config,
                    registries,
                    named(settings, dependencies[i])->0,
                    None,
                ) is None by {
                    let at = named(settings, dependencies[i])->0;
                    law_capability_refers_to_what_its_settings_name(config, registries, id, at);
                    let k = refs->Ok_0.index_of(at);
                    assert(first_error(config, registries, refs->Ok_0[k], Some(here)) is None);
                    law_referrer_is_only_carried(config, registries, at, here);
                }
            } else {
                let k = choose|k: int| #[trigger]
                    is_first_failing(config, registries, here, refs->Ok_0, k);
                let at = refs->Ok_0[k];
                assert(refs->Ok_0.contains(at));
                law_capability_refers_to_what_its_settings_name(config, registries, id, at);
                law_referrer_is_only_carried(config, registries, at, here);
                let i = choose|i: int|
                    0 <= i < dependencies.len() && named(settings, #[trigger] dependencies[i])
                        == Some(at);
                assert(named(settings, dependencies[i]) == Some(at));
            }
        }
    }
}

/// A launcher validates exactly when it is configured, its type is registered, and every
/// capability that it enables validates.
pub proof fn law_when_a_launcher_validates(config: Config, registries: Registries, id: Seq<char>)
    ensures
        first_error(config, registries, (RefKind::Launcher, id), None) is None
            <==> config.launchers@.contains_key(id) && registries.launchers@.contains_key(
            config.launchers@[id].launcher_type@,
        ) && forall|i: int|
            0 <= i < config.launchers@[id].enabled_capabilities@.len() ==> first_error(
                config,
                registries,
                (
                    RefKind::Capability,
                    (#[trigger] config.launchers@[id].enabled_capabilities@[i])@,
                ),
                None,
            ) is None,
{
    let here = (RefKind::Launcher, id);
    let list = config.launchers@[id].enabled_capabilities@;
    law_validation_goes_step_by_step(config, registries, here, None);
    law_launcher_refers_to_what_it_enables(config, registries, id);
    let refs = targets(config, registries, here)->Ok_0;
    assert forall|i: int| 0 <= i < list.len() implies (first_error(
        config,
        registries,
        #[trigger] refs[i],
        Some(here),
    ) is None <==> first_error(
        config,
        registries,
        (RefKind::Capability, list[i]@),
        None,
    ) is None) by {
        law_referrer_is_only_carried(config, registries, refs[i], here);
    }
    if forall|i: int|
        0 <= i < refs.len() ==> first_error(
            config,
            registries,
            #[trigger] refs[i],
            Some(here),
        ) is None {
        assert forall|i: int| 0 <= i < list.len() implies first_error(
            config,
            registries,
            (RefKind::Capability, (#[trigger] list[i])@),
            None,
        ) is None by {
            assert(first_error(config, registries, refs[i], Some(here)) is None);
        }
    }
}

/// The error of a launcher, a capability or a model that has no problem itself is that of
/// the first instance that it refers to which does not validate, with the launcher, the
/// capability or the model as the referrer where that instance is itself the problem.
pub proof fn law_first_failure_is_reported(
    config: Config,
    registries: Registries,
    at: RefView,
    i: int,
)
    requires
        targets(config, registries, at) is Ok,
        0 <= i < targets(config, registries, at)->Ok_0.len(),
        first_error(config, registries, targets(config, registries, at)->Ok_0[i], None) is Some,
        forall|j: int|
            0 <= j < i ==> first_error(
                config,
                registries,
                #[trigger] targets(config, registries, at)->Ok_0[j],
                None,
            ) is None,
        match at.0 {
            RefKind::Launcher => config.launchers@.contains_key(at.1)
                && registries.launchers@.contains_key(config.launchers@[at.1].launcher_type@),
            RefKind::Capability => config.capabilities@.contains_key(at.1)
                && registries.capabilities.registry@.contains_key(
                config.capabilities@[at.1].capability_type@,
            ),
            RefKind::Model => config.models@.contains_key(at.1)
                && registries.models.registry@.contains_key(config.models@[at.1].model_type@),
            RefKind::Provider => true,
        },
    ensures
        ({
            let below = first_error(
                config,
                registries,
                targets(config, registries, at)->Ok_0[i],
                None,
            )->0;
            first_error(config, registries, at, None) == Some(
                ErrorView {
                    target: below.target,
                    problem: below.problem,
                    referrer: match below.referrer {
                        Some(own) => Some(own),
                        None => Some(at),
                    },
                },
            )
        }),
{
    let refs = targets(config, registries, at)->Ok_0;
    law_validation_goes_step_by_step(config, registries, at, None);
    assert forall|j: int| 0 <= j < refs.len() implies (first_error(
        config,
        registries,
        #[trigger] refs[j],
        Some(at),
    ) is None <==> first_error(config, registries, refs[j], None) is None) by {
        law_referrer_is_only_carried(config, registries, refs[j], at);
    }
    law_referrer_is_only_carried(config, registries, refs[i], at);
    assert(first_error(config, registries, refs[i], Some(at)) is Some);
    let k = choose|k: int| #[trigger]
        is_first_failing(config, registries, at, refs, k) && first_error(
            config,
            registries,
            at,
            None,
        ) == first_error(config, registries, refs[k], Some(at));
    assert(is_first_failing(config, registries, at, refs, k));
    if k < i {
        assert(first_error(config, registries, refs[k], None) is None);
    } else if i < k {
        assert(first_error(config, registries, refs[i], Some(at)) is None);
    }
}

/// An instance that is not configured, has a type that is not registered, or cannot name
/// what it refers to is itself the problem, with whoever led to it as the referrer.
pub proof fn law_own_problem_comes_first(
    config: Config,
    registries: Registries,
    id: Seq<char>,
    referrer: Option<RefView>,
)
    ensures
        !config.launchers@.contains_key(id) ==> first_error(
            config,
            registries,
            (RefKind::Launcher, id),
            referrer,
        ) == Some(
            ErrorView {
                target: (RefKind::Launcher, id),
                problem: ProblemView::NotConfigured,
                referrer,
            },
        ),
        !config.capabilities@.contains_key(id) ==> first_error(
            config,
            registries,
            (RefKind::Capability, id),
            referrer,
        ) == Some(
            ErrorView {
                target: (RefKind::Capability, id),
                problem: ProblemView::NotConfigured,
                referrer,
            },
        ),
        !config.models@.contains_key(id) ==> first_error(
            config,
            registries,
            (RefKind::Model, id),
            referrer,
        ) == Some(
            ErrorView { target: (RefKind::Model, id), problem: ProblemView::NotConfigured, referrer },
        ),
        !config.providers@.contains_key(id) ==> first_error(
            config,
            registries,
            (RefKind::Provider, id),
            referrer,
        ) == Some(
            ErrorView {
                target: (RefKind::Provider, id),
                problem: ProblemView::NotConfigured,
                referrer,
            },
        ),
        config.launchers@.contains_key(id) && !registries.launchers@.contains_key(
            config.launchers@[id].launcher_type@,
        ) ==> first_error(config, registries, (RefKind::Launcher, id), referrer) == Some(
            ErrorView {
                target: (RefKind::Launcher, id),
                problem: ProblemView::UnknownType(config.launchers@[id].launcher_type@),
                referrer,
            },
        ),
        config.capabilities@.contains_key(id) && !registries.capabilities.registry@.contains_key(
            config.capabilities@[id].capability_type@,
        ) ==> first_error(config, registries, (RefKind::Capability, id), referrer) == Some(
            ErrorView {
                target: (RefKind::Capability, id),
                problem: ProblemView::UnknownType(config.capabilities@[id].capability_type@),
                referrer,
            },
        ),
        config.models@.contains_key(id) && !registries.models.registry@.contains_key(
            config.models@[id].model_type@,
        ) ==> first_error(config, registries, (RefKind::Model, id), referrer) == Some(
            ErrorView {
                target: (RefKind::Model, id),
                problem: ProblemView::UnknownType(config.models@[id].model_type@),
                referrer,
            },
        ),
        config.providers@.contains_key(id) && !registries.providers@.contains_key(
            config.providers@[id].provider_type@,
        ) ==> first_error(config, registries, (RefKind::Provider, id), referrer) == Some(
            ErrorView {
                target: (RefKind::Provider, id),
                problem: ProblemView::UnknownType(config.providers@[id].provider_type@),
                referrer,
            },
        ),
        config.models@.contains_key(id) && registries.models.registry@.contains_key(
            config.models@[id].model_type@,
        ) && config.models@[id].provider_id is None ==> first_error(
            config,
            registries,
            (RefKind::Model, id),
            referrer,
        ) == Some(
            ErrorView {
                target: (RefKind::Model, id),
                problem: ProblemView::NoProviderConfigured,
                referrer,
            },
        ),
        config.capabilities@.contains_key(id) && registries.capabilities.registry@.contains_key(
            config.capabilities@[id].capability_type@,
        ) ==> forall|i: int| #![trigger dependencies_of(config, registries, id)[i]]
            ({
                let settings = config.capabilities@[id].config.tree();
                let dependencies = dependencies_of(config, registries, id);
                0 <= i < dependencies.len() && lacks(settings, dependencies[i]) is Some && (forall|
                    j: int,
                |
                    0 <= j < i ==> lacks(settings, #[trigger] dependencies[j]) is None)
                    ==> first_error(config, registries, (RefKind::Capability, id), referrer)
                    == Some(
                    ErrorView {
                        target: (RefKind::Capability, id),
                        problem: ProblemView::MissingDependency(
                            lacks(settings, dependencies[i])->0,
                        ),
                        referrer,
                    },
                )
            }),
{
    law_validation_goes_step_by_step(config, registries, (RefKind::Launcher, id), referrer);
    law_validation_goes_step_by_step(config, registries, (RefKind::Capability, id), referrer);
    law_validation_goes_step_by_step(config, registries, (RefKind::Model, id), referrer);
    law_validation_goes_step_by_step(config, registries, (RefKind::Provider, id), referrer);
    law_settings_name_the_dependencies(
        config.capabilities@[id].config.tree(),
        dependencies_of(config, registries, id),
    );
}

/// Tells whether a problem that was found is the one that is there.
pub open spec fn is_problem(found: Problem, problem: ProblemView) -> bool {
    match found {
        Problem::NotConfigured => problem == ProblemView::NotConfigured,
        Problem::UnknownType { type_key } => problem == ProblemView::UnknownType(type_key@),
        Problem::NoProviderConfigured => problem == ProblemView::NoProviderConfigured,
        Problem::MissingDependency { config_key } => problem == ProblemView::MissingDependency(
            config_key@,
        ),
    }
}

/// Tells whether an error that was found is the one that is there.
pub open spec fn is_error(found: ValidationError, error: ErrorView) -> bool {
    &&& found.target.0 == error.target.0
    &&& found.target.1@ == error.target.1
    &&& is_problem(found.problem, error.problem)
    &&& match (found.referrer, error.referrer) {
        (Some(a), Some(b)) => a.0 == b.0 && a.1@ == b.1,
        (None, None) => true,
        _ => false,
    }
}

/// Validating reports the first error that there is, and nothing where there is none.
pub proof fn law_validating_reports_the_first_error(
    kind: RefKind,
    id: &str,
    config: &Config,
    registries: &Registries,
)
    ensures
        forall|r: Result<(), ValidationError>| #[trigger]
            call_ensures(validate_ref, (kind, id, config, registries), r) ==> (match r {
                Ok(_) => first_error(*config, *registries, (kind, id@), None) is None,
                Err(error) => first_error(*config, *registries, (kind, id@), None) is Some
                    && is_error(error, first_error(*config, *registries, (kind, id@), None)->0),
            }),
        forall|referrer: (RefKind, &str), r: Result<(), ValidationError>| #[trigger]
            call_ensures(validate, (kind, id, config, registries, Some(referrer)), r) ==> (match r {
                Ok(_) => first_error(
                    *config,
                    *registries,
                    (kind, id@),
                    Some((referrer.0, referrer.1@)),
                ) is None,
                Err(error) => first_error(
                    *config,
                    *registries,
                    (kind, id@),
                    Some((referrer.0, referrer.1@)),
                ) is Some && is_error(
                    error,
                    first_error(
                        *config,
                        *registries,
                        (kind, id@),
                        Some((referrer.0, referrer.1@)),
                    )->0,
                ),
            }),
        forall|r: Option<&str>| #[trigger]
            call_ensures(type_key, (config, kind, id), r) ==> (match kind {
                RefKind::Launcher => if config.launchers@.contains_key(id@) {
                    r matches Some(name) && name@ == config.launchers@[id@].launcher_type@
                } else {
                    r is None
                },
                RefKind::Capability => if config.capabilities@.contains_key(id@) {
                    r matches Some(name) && name@ == config.capabilities@[id@].capability_type@
                } else {
                    r is None
                },
                RefKind::Model => if config.models@.contains_key(id@) {
                    r matches Some(name) && name@ == config.models@[id@].model_type@
                } else {
                    r is None
                },
                RefKind::Provider => if config.providers@.contains_key(id@) {
                    r matches Some(name) && name@ == config.providers@[id@].provider_type@
                } else {
                    r is None
                },
            }),
{
}

/// What a capability refers to is found as its settings and its type say.
pub proof fn law_references_are_found(
    settings: &Json,
    dependencies: &Vec<Dependency>,
    capability: &CapabilityConfig,
    registries: &Registries,
)
    ensures
        forall|r: Result<Vec<(RefKind, &str)>, Problem>| #[trigger]
            call_ensures(dependency_refs, (settings, dependencies), r) ==> (match r {
                Ok(refs) => refs_view(refs@) == dependencies@.filter_map(
                    |d: Dependency| named(settings.tree(), d),
                ) && forall|i: int|
                    0 <= i < dependencies@.len() ==> lacks(
                        settings.tree(),
                        #[trigger] dependencies@[i],
                    ) is None,
                Err(problem) => exists|i: int|
                    0 <= i < dependencies@.len() && is_problem(
                        problem,
                        ProblemView::MissingDependency(
                            lacks(settings.tree(), #[trigger] dependencies@[i])->0,
                        ),
                    ) && lacks(settings.tree(), dependencies@[i]) is Some && forall|j: int|
                        0 <= j < i ==> lacks(settings.tree(), #[trigger] dependencies@[j]) is None,
            }),
        forall|r: Result<Vec<(RefKind, &str)>, Problem>| #[trigger]
            call_ensures(CapabilityConfig::refs, (capability, registries), r)
                && !registries.capabilities.registry@.contains_key(capability.capability_type@)
                ==> r is Err && is_problem(
                r->Err_0,
                ProblemView::UnknownType(capability.capability_type@),
            ),
        forall|refs: Seq<(RefKind, &str)>, i: int| #![trigger refs_view(refs)[i]]
            0 <= i < refs.len() ==> refs_view(refs).len() == refs.len() && refs_view(refs)[i] == (
                refs[i].0,
                refs[i].1@,
            ),
{
    law_settings_name_the_dependencies(settings.tree(), dependencies@);
    assert forall|r: Result<Vec<(RefKind, &str)>, Problem>| #[trigger]
        call_ensures(dependency_refs, (settings, dependencies), r) implies (match r {
        Ok(refs) => refs_view(refs@) == dependencies@.filter_map(
            |d: Dependency| named(settings.tree(), d),
        ) && forall|i: int|
            0 <= i < dependencies@.len() ==> lacks(
                settings.tree(),
                #[trigger] dependencies@[i],
            ) is None,
        Err(problem) => exists|i: int|
            0 <= i < dependencies@.len() && is_problem(
                problem,
                ProblemView::MissingDependency(
                    lacks(settings.tree(), #[trigger] dependencies@[i])->0,
                ),
            ) && lacks(settings.tree(), dependencies@[i]) is Some && forall|j: int|
                0 <= j < i ==> lacks(settings.tree(), #[trigger] dependencies@[j]) is None,
    }) by {
        if exists|i: int|
            0 <= i < dependencies@.len() && lacks(
                settings.tree(),
                #[trigger] dependencies@[i],
            ) is Some {
            let n = choose|i: int|
                0 <= i < dependencies@.len() && lacks(
                    settings.tree(),
                    #[trigger] dependencies@[i],
                ) is Some;
            let i = lemma_first_lack(settings.tree(), dependencies@, n);
            assert(lacks(settings.tree(), dependencies@[i]) is Some);
        }
    }
}

/// The word for each kind.
pub open spec fn word(kind: RefKind) -> Seq<char> {
    match kind {
        RefKind::Launcher => "launcher"@,
        RefKind::Capability => "capability"@,
        RefKind::Model => "model"@,
        RefKind::Provider => "provider"@,
    }
}

/// An instance reads as its kind and its id in quotes, and an error says what is wrong
/// with the target, after who depends on it where somebody does.
pub proof fn law_errors_read_as_what_they_are(
    error: &ValidationError,
    kind: RefKind,
    id: &str,
)
    ensures
        forall|r: String| #[trigger]
            call_ensures(instance_text, (kind, id), r) ==> r@ == word(kind) + " '"@ + id@ + "'"@,
        forall|r: String| #[trigger]
            call_ensures(ValidationError::text, (error,), r) ==> r@ == (match error.referrer {
                Some(referrer) => word(referrer.0) + " '"@ + referrer.1@ + "'"@ + " depends on "@ + (
                word(error.target.0) + " '"@ + error.target.1@ + "'"@) + ", which "@,
                None => word(error.target.0) + " '"@ + error.target.1@ + "'"@ + " "@,
            }) + (match error.problem {
                Problem::NotConfigured => "is not configured"@,
                Problem::UnknownType { type_key } => "has an unknown "@ + word(error.target.0)
                    + " type '"@ + type_key@ + "'"@,
                Problem::NoProviderConfigured => "has no provider configured"@,
                Problem::MissingDependency { config_key } => "is missing required dependency '"@
                    + config_key@ + "'"@,
            }),
{
}

/// The broken instances that are found are those among the configured ones of the kind
/// that do not validate, in their order, each with its error in words.
pub proof fn law_every_broken_instance_is_found(
    kind: RefKind,
    config: &Config,
    registries: &Registries,
    r: Vec<DanglingRef>,
)
    requires
        call_ensures(find_dangling, (kind, config, registries), r),
    ensures
        r@.map_values(|d: DanglingRef| d.instance_id@) == ids(*config, kind).filter(
            |id: Seq<char>| first_error(*config, *registries, (kind, id), None) is Some,
        ),
        forall|i: int| #![trigger r@[i]]
            0 <= i < r@.len() ==> r@[i].kind == kind && first_error(
                *config,
                *registries,
                (kind, r@[i].instance_id@),
                None,
            ) is Some && r@[i].reason@ == error_text(
                first_error(*config, *registries, (kind, r@[i].instance_id@), None)->0,
            ),
{
    let all = ids(*config, kind);
    lemma_dangling(*config, *registries, kind, all);
    let found = dangling(*config, *registries, kind, all);
    assert(dangling_view(r@) == found);
    assert forall|i: int| #![trigger r@[i]] 0 <= i < r@.len() implies r@[i].kind == kind
        && first_error(*config, *registries, (kind, r@[i].instance_id@), None) is Some
        && r@[i].reason@ == error_text(
        first_error(*config, *registries, (kind, r@[i].instance_id@), None)->0,
    ) by {
        assert(dangling_view(r@)[i] == r@[i]@);
        assert(found[i].instance_id == r@[i].instance_id@);
    }
    assert(r@.map_values(|d: DanglingRef| d.instance_id@) =~= found.map_values(
        |d: crate::config::validation::DanglingView| d.instance_id,
    )) by {
        assert forall|i: int| 0 <= i < r@.len() implies r@[i].instance_id@ == (
        #[trigger] found[i]).instance_id by {
            assert(dangling_view(r@)[i] == r@[i]@);
        }
    }
}

proof fn lemma_dangling(
    config: Config,
    registries: Registries,
    kind: RefKind,
    all: Seq<Seq<char>>,
)
    ensures
        dangling(config, registries, kind, all).map_values(
            |d: crate::config::validation::DanglingView| d.instance_id,
        ) == all.filter(
            |id: Seq<char>| first_error(config, registries, (kind, id), None) is Some,
        ),
        forall|i: int| #![trigger dangling(config, registries, kind, all)[i]]
            0 <= i < dangling(config, registries, kind, all).len() ==> {
                let d = dangling(config, registries, kind, all)[i];
                &&& d.kind == kind
                &&& first_error(config, registries, (kind, d.instance_id), None) matches Some(error)
                &&& d.reason == error_text(error)
            },
    decreases all.len(),
{
    reveal(Seq::filter);
    let f = |d: crate::config::validation::DanglingView| d.instance_id;
    let g = |id: Seq<char>| first_error(config, registries, (kind, id), None) is Some;
    let found = dangling(config, registries, kind, all);
    if all.len() > 0 {
        let front = all.drop_last();
        let earlier = dangling(config, registries, kind, front);
        lemma_dangling(config, registries, kind, front);
        assert(forall|i: int|
            0 <= i < earlier.len() && i < found.len() ==> #[trigger] found[i] == earlier[i]);
        if g(all.last()) {
            assert(found.map_values(f) =~= earlier.map_values(f).push(all.last()));
        } else {
            assert(found.map_values(f) =~= earlier.map_values(f));
        }
    } else {
        assert(found.map_values(f) =~= all.filter(g));
    }
}

/// The configured instances of a kind are looked at one by one, under the ids that they
/// carry.
pub proof fn law_every_instance_is_looked_at(config: Config, i: int)
    ensures
        ids(config, RefKind::Launcher).len() == config.launchers.values().len(),
        ids(config, RefKind::Capability).len() == config.capabilities.values().len(),
        ids(config, RefKind::Model).len() == config.models.values().len(),
        ids(config, RefKind::Provider).len() == config.providers.values().len(),
        0 <= i < config.launchers.values().len() ==> ids(config, RefKind::Launcher)[i]
            == config.launchers.values()[i].launcher_id@,
        0 <= i < config.capabilities.values().len() ==> ids(config, RefKind::Capability)[i]
            == config.capabilities.values()[i].capability_id@,
        0 <= i < config.models.values().len() ==> ids(config, RefKind::Model)[i]
            == config.models.values()[i].model_id@,
        0 <= i < config.providers.values().len() ==> ids(config, RefKind::Provider)[i]
            == config.providers.values()[i].provider_id@,
{
}

} // verus!
