//! What repair runs promise as a whole.

use vstd::prelude::*;
use crate::commands::remediation::{
    enabled_ids, first_broken, fix_for, offered, only_disables, removal, without, Choice, FixView,
};
use crate::config::validation::laws::{
    is_path, law_error_names_what_to_act_on, law_walk_reads_only_what_it_reaches,
    lemma_not_configured, lemma_referrer_is_carried_only, same_entry,
};
use crate::config::validation::{
    enabled, first_error, first_error_among, law_references_go_down, own_problem, rank, targets,
    type_of, ErrorView, RefKind, RefView,
};
use crate::config::Config;
use crate::registry::Registries;

verus! {

/// Deleting an instance is offered only to a caller that named that instance.
pub proof fn law_deletion_only_for_the_named(
    error: ErrorView,
    config: Config,
    registries: Registries,
    root: RefView,
    tried: Seq<Choice>,
)
    ensures
        fix_for(error, config, registries, root) matches Some(fix) ==> (offered(
            fix,
            tried,
        ).contains(Choice::Remove) ==> (fix.kind, fix.id) == root),
{
}

/// There is a repair for every error, unless what the caller named is itself
/// missing.
pub proof fn law_every_error_has_a_repair(config: Config, registries: Registries, root: RefView)
    requires
        first_error(config, registries, root, None) is Some,
    ensures
        fix_for(
            first_error(config, registries, root, None)->0,
            config,
            registries,
            root,
        ) is None <==> type_of(config, root) is None,
{
    let error = first_error(config, registries, root, None)->0;
    law_error_names_what_to_act_on(config, registries, root);
    lemma_not_configured(config, registries, error.target);
    lemma_not_configured(config, registries, root);
    if error.referrer is Some {
        lemma_not_configured(config, registries, error.referrer->0);
    }
}

proof fn lemma_first_broken(config: Config, registries: Registries, list: Seq<Seq<char>>)
    ensures
        match first_broken(config, registries, list) {
            Some(id) => list.contains(id) && first_error(
                config,
                registries,
                (RefKind::Capability, id),
                None,
            ) is Some,
            None => forall|i: int|
                0 <= i < list.len() ==> first_error(
                    config,
                    registries,
                    (RefKind::Capability, #[trigger] list[i]),
                    None,
                ) is None,
        },
    decreases list.len(),
{
    if list.len() > 0 {
        let front = list.drop_last();
        lemma_first_broken(config, registries, front);
        match first_broken(config, registries, front) {
            Some(id) => {
                let i = front.index_of(id);
                assert(list[i] == id);
            },
            None => {
                assert forall|i: int|
                    0 <= i < list.len() && first_broken(
                        config,
                        registries,
                        list,
                    ) is None implies first_error(
                    config,
                    registries,
                    (RefKind::Capability, #[trigger] list[i]),
                    None,
                ) is None by {
                    if i < front.len() {
                        assert(front[i] == list[i]);
                    }
                }
                assert(list[list.len() - 1] == list.last());
            },
        }
    }
}

/// Where none of the capabilities in a list has an error, there is none among
/// them as targets of a launcher.
proof fn lemma_no_error_among_sound(
    config: Config,
    registries: Registries,
    at: RefView,
    refs: Seq<RefView>,
)
    requires
        forall|i: int|
            0 <= i < refs.len() ==> first_error(config, registries, #[trigger] refs[i], None) is None,
    ensures
        first_error_among(config, registries, at, refs) is None,
    decreases refs.len(),
{
    if refs.len() > 0 {
        let front = refs.drop_last();
        assert forall|i: int| 0 <= i < front.len() implies first_error(
            config,
            registries,
            #[trigger] front[i],
            None,
        ) is None by {
            assert(front[i] == refs[i]);
        }
        lemma_no_error_among_sound(config, registries, at, front);
        assert(refs[refs.len() - 1] == refs.last());
        lemma_referrer_is_carried_only(config, registries, refs.last(), None, Some(at));
    }
}

/// Reached through a launcher, the removal on offer is disabling: the capability
/// that the problem lies behind is one that the launcher enables, and it does
/// not validate.
pub proof fn law_launcher_is_offered_disabling(
    config: Config,
    registries: Registries,
    launcher_id: Seq<char>,
)
    requires
        first_error(config, registries, (RefKind::Launcher, launcher_id), None) is Some,
        own_problem(config, registries, (RefKind::Launcher, launcher_id)) is None,
    ensures
        ({
            let root = (RefKind::Launcher, launcher_id);
            let error = first_error(config, registries, root, None)->0;
            &&& fix_for(error, config, registries, root) matches Some(fix)
            &&& removal(fix) == Some(Choice::Disable)
            &&& fix.disable matches Some((launcher, capability))
            &&& launcher == launcher_id
            &&& enabled_ids(config.launchers@[launcher_id]).contains(capability)
            &&& first_error(config, registries, (RefKind::Capability, capability), None) is Some
        }),
{
    let root = (RefKind::Launcher, launcher_id);
    let error = first_error(config, registries, root, None)->0;
    law_error_names_what_to_act_on(config, registries, root);
    law_every_error_has_a_repair(config, registries, root);
    assert(error.target != root) by {
        if error.target == root {
            assert(own_problem(config, registries, root) == Some(error.problem));
        }
    }
    let list = enabled_ids(config.launchers@[launcher_id]);
    lemma_first_broken(config, registries, list);
    if first_broken(config, registries, list) is None {
        let refs = enabled(config.launchers@[launcher_id]);
        assert forall|i: int| 0 <= i < refs.len() implies first_error(
            config,
            registries,
            #[trigger] refs[i],
            None,
        ) is None by {
            assert(refs[i] == (RefKind::Capability, list[i]));
        }
        lemma_no_error_among_sound(config, registries, root, refs);
        assert(false);
    }
}

/// A repair that was tried against a problem is not offered again for it, and
/// every other repair on offer stays on offer.
pub proof fn law_tried_is_not_offered_again(
    fix: FixView,
    tried: Seq<Choice>,
    choice: Choice,
    other: Choice,
)
    ensures
        !offered(fix, tried.push(choice)).contains(choice),
        other != choice ==> offered(fix, tried.push(choice)).contains(other) == offered(
            fix,
            tried,
        ).contains(other),
{
    let more = tried.push(choice);
    assert(more[tried.len() as int] == choice);
    assert(more.contains(choice));
    assert forall|c: Choice| c != choice implies #[trigger] more.contains(c) == tried.contains(
        c,
    ) by {
        if tried.contains(c) {
            let i = tried.index_of(c);
            assert(more[i] == c);
        }
        if more.contains(c) {
            let i = more.index_of(c);
            assert(tried[i] == c);
        }
    }
    lemma_offered(fix, tried);
    lemma_offered(fix, more);
}

proof fn lemma_offered(fix: FixView, tried: Seq<Choice>)
    ensures
        offered(fix, tried).contains(Choice::Reconfigure) == (fix.can_reconfigure
            && !tried.contains(Choice::Reconfigure)),
        offered(fix, tried).contains(Choice::Disable) == (removal(fix) == Some(Choice::Disable)
            && !tried.contains(Choice::Disable)),
        offered(fix, tried).contains(Choice::Remove) == (removal(fix) == Some(Choice::Remove)
            && !tried.contains(Choice::Remove)),
        !offered(fix, tried).contains(Choice::Decline),
{
    let list = offered(fix, tried);
    if fix.can_reconfigure && !tried.contains(Choice::Reconfigure) {
        assert(list[0] == Choice::Reconfigure);
    }
    match removal(fix) {
        Some(choice) => {
            if !tried.contains(choice) {
                assert(list[list.len() - 1] == choice);
            }
        },
        None => {},
    }
}

/// Each repair that is tried against a problem leaves fewer on offer for it, so
/// a run that keeps meeting the same problem ends.
pub proof fn law_run_ends(fix: FixView, tried: Seq<Choice>, choice: Choice)
    requires
        offered(fix, tried).contains(choice),
    ensures
        offered(fix, tried.push(choice)).len() < offered(fix, tried).len() <= 2,
{
    lemma_offered(fix, tried);
    lemma_offered(fix, tried.push(choice));
    law_tried_is_not_offered_again(fix, tried, choice, Choice::Reconfigure);
    law_tried_is_not_offered_again(fix, tried, choice, Choice::Disable);
    law_tried_is_not_offered_again(fix, tried, choice, Choice::Remove);
    let more = tried.push(choice);
    assert(more[tried.len() as int] == choice);
    assert(more.contains(choice));
    assert forall|c: Choice| #[trigger] tried.contains(c) implies more.contains(c) by {
        let i = tried.index_of(c);
        assert(more[i] == c);
    }
}

proof fn lemma_without(list: Seq<Seq<char>>, id: Seq<char>)
    ensures
        !without(list, id).contains(id),
        forall|x: Seq<char>| #[trigger]
            without(list, id).contains(x) == (x != id && list.contains(x)),
    decreases list.len(),
{
    if list.len() > 0 {
        let front = list.drop_last();
        let rest = without(front, id);
        lemma_without(front, id);
        assert forall|x: Seq<char>| #[trigger] without(list, id).contains(x) == (x != id
            && list.contains(x)) by {
            if list.contains(x) && x != id {
                let i = list.index_of(x);
                if i < front.len() {
                    assert(front[i] == x);
                    assert(rest.contains(x));
                    let j = rest.index_of(x);
                    assert(without(list, id)[j] == x);
                } else {
                    assert(without(list, id)[rest.len() as int] == x);
                }
            }
            if without(list, id).contains(x) {
                let j = without(list, id).index_of(x);
                if j < rest.len() {
                    assert(rest[j] == x);
                    assert(rest.contains(x));
                    let i = front.index_of(x);
                    assert(list[i] == x);
                } else {
                    assert(list[list.len() - 1] == x);
                }
            }
        }
    }
}

/// Disabling takes out that capability and no other.
pub proof fn law_disabling_takes_out_one_id(
    before: Config,
    after: Config,
    launcher_id: Seq<char>,
    capability_id: Seq<char>,
    id: Seq<char>,
)
    requires
        only_disables(before, after, launcher_id, capability_id),
        before.launchers@.contains_key(launcher_id),
    ensures
        enabled_ids(after.launchers@[launcher_id]).contains(id) == (id != capability_id
            && enabled_ids(before.launchers@[launcher_id]).contains(id)),
{
    lemma_without(enabled_ids(before.launchers@[launcher_id]), capability_id);
}

/// Instances below a launcher are found alike before and after disabling.
proof fn lemma_disabling_keeps_capabilities(
    before: Config,
    after: Config,
    registries: Registries,
    launcher_id: Seq<char>,
    capability_id: Seq<char>,
    at: RefView,
)
    requires
        only_disables(before, after, launcher_id, capability_id),
        at.0 != RefKind::Launcher,
    ensures
        first_error(before, registries, at, None) == first_error(after, registries, at, None),
{
    assert forall|path: Seq<RefView>| #[trigger]
        is_path(before, registries, path) && path[0] == at implies same_entry(
        before,
        after,
        path.last(),
    ) by {
        lemma_path_goes_down(before, registries, path);
    }
    law_walk_reads_only_what_it_reaches(before, after, registries, at, None);
}

proof fn lemma_path_goes_down(config: Config, registries: Registries, path: Seq<RefView>)
    requires
        is_path(config, registries, path),
    ensures
        rank(path.last().0) <= rank(path[0].0),
    decreases path.len(),
{
    if path.len() > 1 {
        let front = path.drop_last();
        let n = path.len() - 2;
        assert forall|i: int| #![trigger front[i]] 0 <= i < front.len() - 1 implies own_problem(
            config,
            registries,
            front[i],
        ) is None && targets(config, registries, front[i])->Ok_0.contains(front[i + 1]) by {
            assert(front[i] == path[i]);
            assert(front[i + 1] == path[i + 1]);
        }
        lemma_path_goes_down(config, registries, front);
        law_references_go_down(config, registries, path[n]);
        assert(targets(config, registries, path[n])->Ok_0.contains(path[n + 1]));
    }
}

/// Disabling the only capability of a launcher that does not validate repairs
/// the launcher.
pub proof fn law_disabling_repairs_the_launcher(
    before: Config,
    after: Config,
    registries: Registries,
    launcher_id: Seq<char>,
    capability_id: Seq<char>,
)
    requires
        only_disables(before, after, launcher_id, capability_id),
        own_problem(before, registries, (RefKind::Launcher, launcher_id)) is None,
        forall|id: Seq<char>| #[trigger]
            enabled_ids(before.launchers@[launcher_id]).contains(id) && id != capability_id
                ==> first_error(before, registries, (RefKind::Capability, id), None) is None,
    ensures
        first_error(after, registries, (RefKind::Launcher, launcher_id), None) is None,
{
    let root = (RefKind::Launcher, launcher_id);
    assert(before.launchers@.contains_key(launcher_id));
    assert(after.launchers@.contains_key(launcher_id));
    let refs = enabled(after.launchers@[launcher_id]);
    let list = enabled_ids(after.launchers@[launcher_id]);
    lemma_without(enabled_ids(before.launchers@[launcher_id]), capability_id);
    assert forall|i: int| 0 <= i < refs.len() implies first_error(
        after,
        registries,
        #[trigger] refs[i],
        None,
    ) is None by {
        assert(list[i] == refs[i].1);
        assert(list.contains(list[i]));
        assert(refs[i] == (RefKind::Capability, list[i]));
        lemma_disabling_keeps_capabilities(
            before,
            after,
            registries,
            launcher_id,
            capability_id,
            refs[i],
        );
    }
    lemma_no_error_among_sound(after, registries, root, refs);
}

} // verus!
