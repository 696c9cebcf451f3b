//! What validation promises as a whole.

use vstd::prelude::*;
use crate::capabilities::Dependency;
use crate::config::validation::{
    dangling, dependency_targets, first_error, first_error_among, is_registered,
    law_references_go_down, own_problem, rank, targets, type_of, ErrorView, ProblemView, RefKind,
    RefView,
};
use crate::config::Config;
use crate::json::JsonTree;
use crate::registry::Registries;

verus! {

/// Tells whether each instance of a path after the first is named by the one
/// before it, which has no problem of its own.
pub open spec fn is_path(config: Config, registries: Registries, path: Seq<RefView>) -> bool {
    &&& path.len() > 0
    &&& forall|i: int| #![trigger path[i]]
        0 <= i < path.len() - 1 ==> own_problem(config, registries, path[i]) is None
            && targets(config, registries, path[i])->Ok_0.contains(path[i + 1])
}

/// A path goes on from what its first instance names.
proof fn lemma_longer_path(
    config: Config,
    registries: Registries,
    at: RefView,
    path: Seq<RefView>,
)
    requires
        own_problem(config, registries, at) is None,
        is_path(config, registries, path),
        targets(config, registries, at)->Ok_0.contains(path[0]),
    ensures
        is_path(config, registries, seq![at] + path),
        (seq![at] + path)[0] == at,
        (seq![at] + path).last() == path.last(),
        (seq![at] + path).len() == path.len() + 1,
{
    let longer = seq![at] + path;
    assert forall|i: int| #![trigger longer[i]] 0 <= i < longer.len() - 1 implies own_problem(
        config,
        registries,
        longer[i],
    ) is None && targets(config, registries, longer[i])->Ok_0.contains(longer[i + 1]) by {
        if i > 0 {
            assert(longer[i] == path[i - 1]);
            assert(longer[i + 1] == path[i - 1 + 1]);
        } else {
            assert(longer[1] == path[0]);
        }
    }
}

/// An error among the targets of an instance comes from one of them.
proof fn lemma_error_from_target(
    config: Config,
    registries: Registries,
    at: RefView,
    refs: Seq<RefView>,
) -> (i: int)
    requires
        first_error_among(config, registries, at, refs) is Some,
    ensures
        0 <= i < refs.len(),
        rank(refs[i].0) < rank(at.0),
        first_error_among(config, registries, at, refs) == first_error(
            config,
            registries,
            refs[i],
            Some(at),
        ),
    decreases refs.len(),
{
    match first_error_among(config, registries, at, refs.drop_last()) {
        Some(_) => lemma_error_from_target(config, registries, at, refs.drop_last()),
        None => refs.len() - 1,
    }
}

/// An error is met at the end of a path.
proof fn lemma_error_path(
    config: Config,
    registries: Registries,
    at: RefView,
    referrer: Option<RefView>,
) -> (path: Seq<RefView>)
    requires
        first_error(config, registries, at, referrer) is Some,
    ensures
        is_path(config, registries, path),
        path[0] == at,
        ({
            let error = first_error(config, registries, at, referrer)->0;
            &&& path.last() == error.target
            &&& own_problem(config, registries, path.last()) == Some(error.problem)
            &&& error.referrer == (if path.len() == 1 {
                referrer
            } else {
                Some(path[path.len() - 2])
            })
        }),
    decreases rank(at.0),
{
    match own_problem(config, registries, at) {
        Some(_) => seq![at],
        None => {
            let refs = targets(config, registries, at)->Ok_0;
            let i = lemma_error_from_target(config, registries, at, refs);
            let rest = lemma_error_path(config, registries, refs[i], Some(at));
            lemma_longer_path(config, registries, at, rest);
            let path = seq![at] + rest;
            if rest.len() > 1 {
                assert(path[path.len() - 2] == rest[rest.len() - 2]);
            }
            path
        },
    }
}

/// Whether there is an error does not depend on who led to an instance.
pub proof fn lemma_referrer_is_carried_only(
    config: Config,
    registries: Registries,
    at: RefView,
    a: Option<RefView>,
    b: Option<RefView>,
)
    ensures
        first_error(config, registries, at, a) is None <==> first_error(
            config,
            registries,
            at,
            b,
        ) is None,
{
}

/// An instance whose own problem is that it is not configured is not configured.
pub proof fn lemma_not_configured(config: Config, registries: Registries, at: RefView)
    ensures
        own_problem(config, registries, at) == Some(ProblemView::NotConfigured) <==> type_of(
            config,
            at,
        ) is None,
{
    if at.0 == RefKind::Capability {
        let capability = config.capabilities@[at.1];
        let name = capability.capability_type@;
        lemma_dependency_problem(
            capability.config.tree(),
            registries.capabilities.types()[name].metadata.dependencies@,
        );
    }
}

/// The only problem that the settings of a capability can have is a missing dependency.
pub proof fn lemma_dependency_problem(settings: JsonTree, dependencies: Seq<Dependency>)
    ensures
        dependency_targets(settings, dependencies) matches Err(problem)
            ==> problem is MissingDependency,
    decreases dependencies.len(),
{
    if dependencies.len() > 0 {
        lemma_dependency_problem(settings, dependencies.drop_last());
    }
}

/// Where the targets have no error, none of them has.
proof fn lemma_no_error_among(
    config: Config,
    registries: Registries,
    at: RefView,
    refs: Seq<RefView>,
    i: int,
)
    requires
        first_error_among(config, registries, at, refs) is None,
        0 <= i < refs.len(),
        rank(refs[i].0) < rank(at.0),
    ensures
        first_error(config, registries, refs[i], Some(at)) is None,
    decreases refs.len(),
{
    if i < refs.len() - 1 {
        lemma_no_error_among(config, registries, at, refs.drop_last(), i);
    }
}

/// Where a walk meets no error, no path from its start ends in a problem.
proof fn lemma_sound_path(
    config: Config,
    registries: Registries,
    path: Seq<RefView>,
    referrer: Option<RefView>,
)
    requires
        is_path(config, registries, path),
        first_error(config, registries, path[0], referrer) is None,
    ensures
        own_problem(config, registries, path.last()) is None,
    decreases path.len(),
{
    if path.len() > 1 {
        let at = path[0];
        let refs = targets(config, registries, at)->Ok_0;
        assert(refs.contains(path[1]));
        let i = refs.index_of(path[1]);
        law_references_go_down(config, registries, at);
        lemma_no_error_among(config, registries, at, refs, i);
        let rest = path.drop_first();
        assert forall|j: int| #![trigger rest[j]] 0 <= j < rest.len() - 1 implies own_problem(
            config,
            registries,
            rest[j],
        ) is None && targets(config, registries, rest[j])->Ok_0.contains(rest[j + 1]) by {
            assert(rest[j] == path[j + 1]);
            assert(rest[j + 1] == path[j + 1 + 1]);
        }
        lemma_sound_path(config, registries, rest, Some(at));
    }
}

/// An instance validates exactly when every instance that can be reached from
/// it is configured, has a registered type, and can name what it refers to.
pub proof fn law_valid_means_all_reachable_resolve(
    config: Config,
    registries: Registries,
    at: RefView,
)
    ensures
        first_error(config, registries, at, None) is None <==> (forall|path: Seq<RefView>|
            #[trigger] is_path(config, registries, path) && path[0] == at ==> own_problem(
                config,
                registries,
                path.last(),
            ) is None),
{
    if first_error(config, registries, at, None) is None {
        assert forall|path: Seq<RefView>| #[trigger]
            is_path(config, registries, path) && path[0] == at implies own_problem(
            config,
            registries,
            path.last(),
        ) is None by {
            lemma_sound_path(config, registries, path, None);
        }
    } else {
        let path = lemma_error_path(config, registries, at, None);
        assert(is_path(config, registries, path));
    }
}

/// A reported error is a real one: the target can be reached from the instance
/// that was asked about, the problem is the target's own, and the referrer is
/// the instance right before it on the way. There is no referrer exactly when
/// the instance that was asked about is itself the problem.
pub proof fn law_error_names_what_to_act_on(
    config: Config,
    registries: Registries,
    at: RefView,
)
    requires
        first_error(config, registries, at, None) is Some,
    ensures
        ({
            let error = first_error(config, registries, at, None)->0;
            &&& own_problem(config, registries, error.target) == Some(error.problem)
            &&& error.referrer is None <==> own_problem(config, registries, at) is Some
            &&& error.referrer is None ==> error.target == at
            &&& error.referrer matches Some(referrer) ==> {
                &&& own_problem(config, registries, referrer) is None
                &&& targets(config, registries, referrer)->Ok_0.contains(error.target)
            }
            &&& exists|path: Seq<RefView>| #[trigger]
                is_path(config, registries, path) && path[0] == at && path.last() == error.target
        }),
{
    let error = first_error(config, registries, at, None)->0;
    let path = lemma_error_path(config, registries, at, None);
    assert(is_path(config, registries, path));
    if path.len() > 1 {
        let n = path.len() - 2;
        assert(own_problem(config, registries, path[0]) is None);
        assert(own_problem(config, registries, path[n]) is None);
        assert(targets(config, registries, path[n])->Ok_0.contains(path[n + 1]));
    }
}

/// Tells whether two configurations hold the same instance, or both none.
pub open spec fn same_entry(a: Config, b: Config, at: RefView) -> bool {
    let (kind, id) = at;
    match kind {
        RefKind::Launcher => {
            &&& a.launchers@.contains_key(id) == b.launchers@.contains_key(id)
            &&& a.launchers@.contains_key(id) ==> a.launchers@[id] == b.launchers@[id]
        },
        RefKind::Capability => {
            &&& a.capabilities@.contains_key(id) == b.capabilities@.contains_key(id)
            &&& a.capabilities@.contains_key(id) ==> a.capabilities@[id] == b.capabilities@[id]
        },
        RefKind::Model => {
            &&& a.models@.contains_key(id) == b.models@.contains_key(id)
            &&& a.models@.contains_key(id) ==> a.models@[id] == b.models@[id]
        },
        RefKind::Provider => {
            &&& a.providers@.contains_key(id) == b.providers@.contains_key(id)
            &&& a.providers@.contains_key(id) ==> a.providers@[id] == b.providers@[id]
        },
    }
}

/// A walk reads nothing but what it was asked about: two configurations that
/// hold the same instances wherever a path leads give the same result.
pub proof fn law_walk_reads_only_what_it_reaches(
    a: Config,
    b: Config,
    registries: Registries,
    at: RefView,
    referrer: Option<RefView>,
)
    requires
        forall|path: Seq<RefView>| #[trigger]
            is_path(a, registries, path) && path[0] == at ==> same_entry(a, b, path.last()),
    ensures
        first_error(a, registries, at, referrer) == first_error(b, registries, at, referrer),
    decreases rank(at.0),
{
    assert(is_path(a, registries, seq![at]));
    assert(same_entry(a, b, seq![at].last()));
    assert(own_problem(a, registries, at) == own_problem(b, registries, at));
    if own_problem(a, registries, at) is None {
        let refs = targets(a, registries, at)->Ok_0;
        law_references_go_down(a, registries, at);
        assert forall|i: int| 0 <= i < refs.len() implies first_error(
            a,
            registries,
            #[trigger] refs[i],
            Some(at),
        ) == first_error(b, registries, refs[i], Some(at)) by {
            assert forall|path: Seq<RefView>| #[trigger]
                is_path(a, registries, path) && path[0] == refs[i] implies same_entry(
                a,
                b,
                path.last(),
            ) by {
                lemma_longer_path(a, registries, at, path);
                assert(is_path(a, registries, seq![at] + path));
            }
            law_walk_reads_only_what_it_reaches(a, b, registries, refs[i], Some(at));
        }
        lemma_same_among(a, b, registries, at, refs);
    }
}

proof fn lemma_same_among(
    a: Config,
    b: Config,
    registries: Registries,
    at: RefView,
    refs: Seq<RefView>,
)
    requires
        forall|i: int|
            0 <= i < refs.len() ==> first_error(a, registries, #[trigger] refs[i], Some(at))
                == first_error(b, registries, refs[i], Some(at)),
    ensures
        first_error_among(a, registries, at, refs) == first_error_among(b, registries, at, refs),
    decreases refs.len(),
{
    if refs.len() > 0 {
        let front = refs.drop_last();
        assert forall|i: int| 0 <= i < front.len() implies first_error(
            a,
            registries,
            #[trigger] front[i],
            Some(at),
        ) == first_error(b, registries, front[i], Some(at)) by {
            assert(front[i] == refs[i]);
        }
        lemma_same_among(a, b, registries, at, front);
        assert(refs[refs.len() - 1] == refs.last());
    }
}

/// The list of broken instances has exactly those that do not validate.
pub proof fn law_dangling_are_exactly_the_broken(
    config: Config,
    registries: Registries,
    kind: RefKind,
    ids: Seq<Seq<char>>,
    id: Seq<char>,
)
    ensures
        (exists|i: int|
            0 <= i < dangling(config, registries, kind, ids).len() && (#[trigger] dangling(
                config,
                registries,
                kind,
                ids,
            )[i]).instance_id == id) <==> ids.contains(id) && first_error(
            config,
            registries,
            (kind, id),
            None,
        ) is Some,
    decreases ids.len(),
{
    let all = dangling(config, registries, kind, ids);
    if ids.len() > 0 {
        let front = ids.drop_last();
        let earlier = dangling(config, registries, kind, front);
        law_dangling_are_exactly_the_broken(config, registries, kind, front, id);
        let broken = first_error(config, registries, (kind, id), None) is Some;
        if ids.contains(id) && broken {
            let j = ids.index_of(id);
            if j == ids.len() - 1 {
                assert(all[all.len() - 1].instance_id == id);
            } else {
                assert(front[j] == id);
                let i = choose|i: int|
                    0 <= i < earlier.len() && (#[trigger] earlier[i]).instance_id == id;
                assert(all[i].instance_id == id);
            }
        }
        if exists|i: int| 0 <= i < all.len() && (#[trigger] all[i]).instance_id == id {
            let i = choose|i: int| 0 <= i < all.len() && (#[trigger] all[i]).instance_id == id;
            if i < earlier.len() {
                assert(earlier[i].instance_id == id);
                let j = front.index_of(id);
                assert(ids[j] == id);
            } else {
                assert(ids[ids.len() - 1] == id);
            }
        }
    }
}

/// A list of broken instances has instances of the kind that was asked about only.
pub proof fn law_dangling_are_of_one_kind(
    config: Config,
    registries: Registries,
    kind: RefKind,
    ids: Seq<Seq<char>>,
)
    ensures
        forall|i: int|
            0 <= i < dangling(config, registries, kind, ids).len() ==> (#[trigger] dangling(
                config,
                registries,
                kind,
                ids,
            )[i]).kind == kind,
    decreases ids.len(),
{
    if ids.len() > 0 {
        let front = ids.drop_last();
        law_dangling_are_of_one_kind(config, registries, kind, front);
        let all = dangling(config, registries, kind, ids);
        let earlier = dangling(config, registries, kind, front);
        assert forall|i: int| 0 <= i < all.len() implies (#[trigger] all[i]).kind == kind by {
            if i < earlier.len() {
                assert(all[i] == earlier[i]);
            }
        }
    }
}

/// Tells whether a reference is the first of a list that does not validate.
pub open spec fn is_first_failing(
    config: Config,
    registries: Registries,
    at: RefView,
    refs: Seq<RefView>,
    i: int,
) -> bool {
    &&& 0 <= i < refs.len()
    &&& first_error(config, registries, refs[i], Some(at)) is Some
    &&& forall|j: int|
        0 <= j < i ==> first_error(config, registries, #[trigger] refs[j], Some(at)) is None
}

/// Validating an instance is one step after another: it is configured, its type is
/// registered, it can name what it refers to, and everything it names validates with it
/// as the referrer. The error is that of the first step that fails.
pub proof fn law_validation_goes_step_by_step(
    config: Config,
    registries: Registries,
    at: RefView,
    referrer: Option<RefView>,
)
    ensures
        ({
            let error = first_error(config, registries, at, referrer);
            match type_of(config, at) {
                None => error == Some(
                    ErrorView { target: at, problem: ProblemView::NotConfigured, referrer },
                ),
                Some(name) => if !is_registered(registries, at.0, name) {
                    error == Some(
                        ErrorView { target: at, problem: ProblemView::UnknownType(name), referrer },
                    )
                } else {
                    match targets(config, registries, at) {
                        Err(problem) => error == Some(ErrorView { target: at, problem, referrer }),
                        Ok(refs) => {
                            &&& error is None <==> (forall|i: int|
                                0 <= i < refs.len() ==> first_error(
                                    config,
                                    registries,
                                    #[trigger] refs[i],
                                    Some(at),
                                ) is None)
                            &&& error is Some ==> exists|i: int| #[trigger]
                                is_first_failing(config, registries, at, refs, i) && error
                                    == first_error(config, registries, refs[i], Some(at))
                        },
                    }
                },
            }
        }),
{
    law_references_go_down(config, registries, at);
    if own_problem(config, registries, at) is None {
        let refs = targets(config, registries, at)->Ok_0;
        lemma_first_failing(config, registries, at, refs);
    }
}

proof fn lemma_first_failing(
    config: Config,
    registries: Registries,
    at: RefView,
    refs: Seq<RefView>,
)
    requires
        forall|i: int| 0 <= i < refs.len() ==> rank((#[trigger] refs[i]).0) < rank(at.0),
    ensures
        match first_error_among(config, registries, at, refs) {
            None => forall|i: int|
                0 <= i < refs.len() ==> first_error(
                    config,
                    registries,
                    #[trigger] refs[i],
                    Some(at),
                ) is None,
            Some(error) => exists|i: int| #[trigger]
                is_first_failing(config, registries, at, refs, i) && Some(error) == first_error(
                    config,
                    registries,
                    refs[i],
                    Some(at),
                ),
        },
    decreases refs.len(),
{
    if refs.len() > 0 {
        let front = refs.drop_last();
        let n = refs.len() - 1;
        assert forall|i: int| 0 <= i < front.len() implies rank((#[trigger] front[i]).0) < rank(
            at.0,
        ) by {
            assert(front[i] == refs[i]);
        }
        lemma_first_failing(config, registries, at, front);
        assert(rank(refs[n].0) < rank(at.0));
        match first_error_among(config, registries, at, front) {
            Some(error) => {
                let i = choose|i: int| #[trigger]
                    is_first_failing(config, registries, at, front, i) && Some(error)
                        == first_error(config, registries, front[i], Some(at));
                assert forall|j: int| 0 <= j < i implies first_error(
                    config,
                    registries,
                    #[trigger] refs[j],
                    Some(at),
                ) is None by {
                    assert(front[j] == refs[j]);
                }
                assert(front[i] == refs[i]);
                assert(is_first_failing(config, registries, at, refs, i));
            },
            None => {
                assert forall|j: int| 0 <= j < n implies first_error(
                    config,
                    registries,
                    #[trigger] refs[j],
                    Some(at),
                ) is None by {
                    assert(front[j] == refs[j]);
                }
                if first_error(config, registries, refs[n], Some(at)) is Some {
                    assert(is_first_failing(config, registries, at, refs, n));
                }
            },
        }
    }
}

} // verus!
