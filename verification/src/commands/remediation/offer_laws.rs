//! What is repaired, what is offered for it, and what an answer leads to.

use vstd::prelude::*;
use crate::commands::remediation::{
    choice_text, dangling_notes, disable, fix_for, notes, offer, offered, without, Choice, Fix,
    OnDecline, Outcome, Prompt, Remediation, RemedyAction, RemedyStep,
};
use crate::config::validation::laws::{
    law_error_names_what_to_act_on, lemma_dependency_problem, lemma_not_configured,
};
use crate::config::validation::walk_laws::{
    dependencies_of, is_error, law_capability_refers_to_what_its_settings_name,
    law_settings_name_the_dependencies, word,
};
use crate::config::validation::{
    dangling, error_text, first_error, ids, own_problem, Problem, ProblemView, RefKind, RefView,
    ValidationError,
};
use crate::config::Config;
use crate::name_map::NameMap;
use crate::registry::Registries;

verus! {

/// The type name that an instance is configured with.
pub open spec fn configured_type(config: Config, kind: RefKind, id: Seq<char>) -> Option<Seq<char>> {
    match kind {
        RefKind::Launcher => if config.launchers@.contains_key(id) {
            Some(config.launchers@[id].launcher_type@)
        } else {
            None
        },
        RefKind::Capability => if config.capabilities@.contains_key(id) {
            Some(config.capabilities@[id].capability_type@)
        } else {
            None
        },
        RefKind::Model => if config.models@.contains_key(id) {
            Some(config.models@[id].model_type@)
        } else {
            None
        },
        RefKind::Provider => if config.providers@.contains_key(id) {
            Some(config.providers@[id].provider_type@)
        } else {
            None
        },
    }
}

/// The instance to act on: the target, or whoever refers to it where it is not there.
pub open spec fn to_act_on(error: ValidationError) -> Option<RefView> {
    match error.problem {
        Problem::NotConfigured => match error.referrer {
            Some(referrer) => Some((referrer.0, referrer.1@)),
            None => None,
        },
        Problem::UnknownType { .. } => Some((error.target.0, error.target.1@)),
        Problem::NoProviderConfigured => Some((error.target.0, error.target.1@)),
        Problem::MissingDependency { .. } => Some((error.target.0, error.target.1@)),
    }
}

/// Tells whether the capability at a place in the list of a launcher is the first there
/// that does not validate.
pub open spec fn is_first_broken(
    config: Config,
    registries: Registries,
    launcher_id: Seq<char>,
    i: int,
) -> bool {
    let list = config.launchers@[launcher_id].enabled_capabilities@;
    &&& 0 <= i < list.len()
    &&& first_error(config, registries, (RefKind::Capability, list[i]@), None) is Some
    &&& forall|j: int|
        0 <= j < i ==> first_error(
            config,
            registries,
            (RefKind::Capability, (#[trigger] list[j])@),
            None,
        ) is None
}

proof fn lemma_first_broken_place(
    config: Config,
    registries: Registries,
    launcher_id: Seq<char>,
    n: int,
)
    requires
        0 <= n <= config.launchers@[launcher_id].enabled_capabilities@.len(),
    ensures
        ({
            let list = config.launchers@[launcher_id].enabled_capabilities@;
            let all = crate::commands::remediation::enabled_ids(config.launchers@[launcher_id]);
            match crate::commands::remediation::first_broken(config, registries, all.take(n)) {
                Some(id) => exists|i: int| #[trigger]
                    is_first_broken(config, registries, launcher_id, i) && i < n && list[i]@ == id,
                None => forall|i: int|
                    0 <= i < n ==> first_error(
                        config,
                        registries,
                        (RefKind::Capability, (#[trigger] list[i])@),
                        None,
                    ) is None,
            }
        }),
    decreases n,
{
    let list = config.launchers@[launcher_id].enabled_capabilities@;
    let all = crate::commands::remediation::enabled_ids(config.launchers@[launcher_id]);
    if n > 0 {
        lemma_first_broken_place(config, registries, launcher_id, n - 1);
        assert(all.take(n).drop_last() =~= all.take(n - 1));
        assert(all.take(n).last() == list[n - 1]@);
        if crate::commands::remediation::first_broken(config, registries, all.take(n - 1)) is None
            && first_error(config, registries, (RefKind::Capability, list[n - 1]@), None) is Some {
            assert(is_first_broken(config, registries, launcher_id, n - 1));
        }
    } else {
        assert(all.take(0) =~= Seq::<Seq<char>>::empty());
    }
}

/// A repair acts on the target of an error, or on whoever refers to it where it is not
/// configured. The instance can be set up again whatever the problem is, unless its type
/// is not registered. It can be deleted where the caller named it. A caller that named a
/// launcher can disable the first capability in its list that does not validate.
pub proof fn law_repair_fits_the_problem(
    error: &ValidationError,
    config: &Config,
    registries: &Registries,
    root_kind: RefKind,
    root_id: &str,
    r: Option<Fix>,
)
    requires
        call_ensures(Fix::for_error, (error, config, registries, root_kind, root_id), r),
    ensures
        match r {
            None => to_act_on(*error) matches Some(at) ==> configured_type(*config, at.0, at.1) is None,
            Some(fix) => {
                &&& to_act_on(*error) == Some((fix.kind, fix.id@))
                &&& configured_type(*config, fix.kind, fix.id@) == Some(fix.type_key@)
                &&& fix.can_reconfigure == (match error.problem {
                    Problem::UnknownType { .. } => false,
                    Problem::NotConfigured => true,
                    Problem::NoProviderConfigured => true,
                    Problem::MissingDependency { .. } => true,
                })
                &&& fix.can_remove == (fix.kind == root_kind && fix.id@ == root_id@)
                &&& match fix.disable {
                    Some(pair) => {
                        &&& root_kind == RefKind::Launcher
                        &&& config.launchers@.contains_key(root_id@)
                        &&& (error.target.0, error.target.1@) != (root_kind, root_id@)
                        &&& pair.0@ == root_id@
                        &&& exists|i: int| #[trigger]
                            is_first_broken(*config, *registries, root_id@, i)
                                && config.launchers@[root_id@].enabled_capabilities@[i]@ == pair.1@
                    },
                    None => root_kind == RefKind::Launcher && config.launchers@.contains_key(
                        root_id@,
                    ) && (error.target.0, error.target.1@) != (root_kind, root_id@)
                        ==> forall|i: int|
                        0 <= i < config.launchers@[root_id@].enabled_capabilities@.len()
                            ==> first_error(
                            *config,
                            *registries,
                            (
                                RefKind::Capability,
                                (#[trigger] config.launchers@[root_id@].enabled_capabilities@[i])@,
                            ),
                            None,
                        ) is None,
                }
            },
        },
{
    let root = (root_kind, root_id@);
    if config.launchers@.contains_key(root_id@) {
        let list = config.launchers@[root_id@].enabled_capabilities@;
        let all = crate::commands::remediation::enabled_ids(config.launchers@[root_id@]);
        lemma_first_broken_place(*config, *registries, root_id@, list.len() as int);
        assert(all.take(list.len() as int) =~= all);
    }
    if let Some(fix) = r {
        assert(fix@ == fix_for(error@, *config, *registries, root)->0);
    }
}

/// A question about a repair offers, in this order, to set the instance up again where
/// that can be done, then to disable the capability where there is one to disable, else to
/// delete the instance where that may be done, each unless it was tried already, and last
/// to decline, which is preselected. There is no question where nothing is left to offer.
pub proof fn law_question_offers_what_can_be_done(
    error: ValidationError,
    fix: Fix,
    on_decline: OnDecline,
    tried: &Vec<Choice>,
    r: Result<Prompt, ValidationError>,
)
    requires
        call_ensures(offer, (error, fix, on_decline, tried), r),
    ensures
        ({
            let reconfigure = fix.can_reconfigure && !tried@.contains(Choice::Reconfigure);
            let disable = fix.disable is Some && !tried@.contains(Choice::Disable);
            let remove = fix.disable is None && fix.can_remove && !tried@.contains(Choice::Remove);
            match r {
                Err(same) => same == error && !reconfigure && !disable && !remove,
                Ok(prompt) => {
                    let n = prompt.choices@.len();
                    &&& reconfigure || disable || remove
                    &&& prompt.choices@.contains(Choice::Reconfigure) == reconfigure
                    &&& prompt.choices@.contains(Choice::Disable) == disable
                    &&& prompt.choices@.contains(Choice::Remove) == remove
                    &&& reconfigure ==> prompt.choices@[0] == Choice::Reconfigure
                    &&& n == 1 + (if reconfigure {
                        1int
                    } else {
                        0int
                    }) + (if disable || remove {
                        1int
                    } else {
                        0int
                    })
                    &&& prompt.choices@[n - 1] == Choice::Decline
                    &&& prompt.preselected == n - 1
                    &&& prompt.items@.len() == n
                    &&& is_error(prompt.error, error@)
                    &&& prompt.fix.kind == fix.kind
                    &&& prompt.fix.id@ == fix.id@
                    &&& prompt.fix.type_key@ == fix.type_key@
                    &&& prompt.fix.can_reconfigure == fix.can_reconfigure
                    &&& prompt.fix.can_remove == fix.can_remove
                    &&& prompt.fix.disable is Some == fix.disable is Some
                    &&& fix.disable matches Some(pair) ==> (prompt.fix.disable->0).0@ == pair.0@
                        && (prompt.fix.disable->0).1@ == pair.1@
                    &&& prompt.warning@ == "Configuration issue: "@ + error_text(error@)
                },
            }
        }),
{
    if let Ok(prompt) = r {
        let list = offered(fix@, tried@);
        let all = prompt.choices@;
        assert(all == list.push(Choice::Decline));
        assert(all.len() == list.len() + 1);
        assert forall|c: Choice| c != Choice::Decline implies #[trigger] all.contains(c)
            == list.contains(c) by {
            if list.contains(c) {
                assert(all[list.index_of(c)] == c);
            }
            if all.contains(c) {
                let i = all.index_of(c);
                assert(i < list.len());
                assert(list[i] == c);
            }
        }
        if fix.can_reconfigure && !tried@.contains(Choice::Reconfigure) {
            assert(list[0] == Choice::Reconfigure);
        }
        if fix.disable is Some && !tried@.contains(Choice::Disable) {
            assert(list[list.len() - 1] == Choice::Disable);
        }
        if fix.disable is None && fix.can_remove && !tried@.contains(Choice::Remove) {
            assert(list[list.len() - 1] == Choice::Remove);
        }
        assert(prompt.error@ == error@);
        assert(prompt.fix@ == fix@);
    }
}

/// An answer reads as what it does, and to which instance.
pub proof fn law_answers_read_as_what_they_do(
    error: ValidationError,
    fix: Fix,
    on_decline: OnDecline,
    tried: &Vec<Choice>,
    prompt: Prompt,
    i: int,
)
    requires
        call_ensures(
            offer,
            (error, fix, on_decline, tried),
            Ok::<Prompt, ValidationError>(prompt),
        ),
        0 <= i < prompt.choices@.len(),
    ensures
        prompt.items@[i]@ == (match prompt.choices@[i] {
            Choice::Reconfigure => "Reconfigure "@ + (word(fix.kind) + " '"@ + fix.id@ + "'"@)
                + " now"@,
            Choice::Remove => "Remove "@ + (word(fix.kind) + " '"@ + fix.id@ + "'"@),
            Choice::Disable => "Remove "@ + ("capability"@ + " '"@ + (fix.disable->0).1@ + "'"@)
                + " from "@ + ("launcher"@ + " '"@ + (fix.disable->0).0@ + "'"@),
            Choice::Decline => match on_decline {
                OnDecline::Skip => "Skip for now, '"@ + fix.id@ + "' stays broken until fixed"@,
                OnDecline::Abort => "Cancel"@,
            },
        }),
{
    law_question_offers_what_can_be_done(error, fix, on_decline, tried, Ok(prompt));
    assert(prompt.items@[i]@ == choice_text(prompt.choices@[i], fix@, on_decline));
    if prompt.choices@[i] == Choice::Disable {
        assert(prompt.choices@.contains(Choice::Disable));
    }
}

/// A run begins with what the caller named and nothing tried. It asks only where the
/// caller may prompt and somebody is there to answer.
pub proof fn law_run_begins_with_what_was_named(
    kind: RefKind,
    id: &str,
    on_decline: OnDecline,
    may_prompt: bool,
    interactive: bool,
    r: Remediation,
)
    requires
        call_ensures(Remediation::start, (kind, id, on_decline, may_prompt, interactive), r),
    ensures
        r.kind == kind,
        r.id@ == id@,
        r.on_decline == on_decline,
        r.prompting <==> may_prompt && interactive,
        r.previous is None,
        r.tried@.len() == 0,
{
}

/// Tells whether the last repair of a run was for an error.
pub open spec fn was_for(run: Remediation, error: crate::config::validation::ErrorView) -> bool {
    run.previous matches Some(previous) && is_error(previous, error)
}

/// A step of a run ends clean exactly when what the caller named validates. Else it asks
/// about the error that there is, where it may ask and something can be done that was not
/// tried against this very error, and ends unresolved where not. What was tried against
/// another error is forgotten.
pub proof fn law_step_asks_while_something_can_be_done(config: &Config, registries: &Registries)
    ensures
        forall|run: &mut Remediation, r: RemedyStep| #[trigger]
            call_ensures(Remediation::next, (run, config, registries), r) ==> {
                let found = first_error(*config, *registries, (run.kind, run.id@), None);
                &&& final(run).kind == run.kind
                &&& final(run).id@ == run.id@
                &&& final(run).on_decline == run.on_decline
                &&& final(run).prompting == run.prompting
                &&& final(run).previous == run.previous
                &&& found is None <==> (r matches RemedyStep::Done { outcome, .. } && outcome
                    == Outcome::Clean)
                &&& found matches Some(error) ==> {
                    &&& was_for(*run, error) ==> final(run).tried@ == run.tried@
                    &&& !was_for(*run, error) ==> final(run).tried@.len() == 0
                    &&& r matches RemedyStep::Ask(prompt) ==> {
                        &&& run.prompting
                        &&& is_error(prompt.error, error)
                        &&& prompt.choices@.contains(Choice::Reconfigure) <==> !(
                        error.problem is UnknownType) && !final(run).tried@.contains(
                            Choice::Reconfigure,
                        )
                        &&& prompt.choices@.len() > 1
                        &&& prompt.choices@.last() == Choice::Decline
                    }
                    &&& run.prompting && !(error.problem is UnknownType) && !(error.problem
                        == ProblemView::NotConfigured && error.referrer is None) && !final(
                        run).tried@.contains(Choice::Reconfigure) && to_reach(*config, error)
                        ==> r is Ask
                    &&& r matches RemedyStep::Done { outcome, warning } ==> outcome
                        == Outcome::Unresolved && warning is Some
                }
            },
{
    assert forall|run: &mut Remediation, r: RemedyStep| #[trigger]
        call_ensures(Remediation::next, (run, config, registries), r) implies {
        let found = first_error(*config, *registries, (run.kind, run.id@), None);
        &&& found matches Some(error) ==> {
            &&& was_for(*run, error) ==> final(run).tried@ == run.tried@
            &&& !was_for(*run, error) ==> final(run).tried@.len() == 0
            &&& r matches RemedyStep::Ask(prompt) ==> {
                &&& run.prompting
                &&& is_error(prompt.error, error)
                &&& prompt.choices@.contains(Choice::Reconfigure) <==> !(
                error.problem is UnknownType) && !final(run).tried@.contains(Choice::Reconfigure)
                &&& prompt.choices@.len() > 1
                &&& prompt.choices@.last() == Choice::Decline
            }
            &&& run.prompting && !(error.problem is UnknownType) && !(error.problem
                == ProblemView::NotConfigured && error.referrer is None) && !final(
                run).tried@.contains(Choice::Reconfigure) && to_reach(*config, error) ==> r is Ask
            &&& r matches RemedyStep::Done { outcome, warning } ==> outcome == Outcome::Unresolved
                && warning is Some
        }
    } by {
        let root = (run.kind, run.id@);
        if let Some(error) = first_error(*config, *registries, root, None) {
            if let Some(fix) = fix_for(error, *config, *registries, root) {
                let tried = final(run).tried@;
                let list = offered(fix, tried);
                if fix.can_reconfigure && !tried.contains(Choice::Reconfigure) {
                    assert(list[0] == Choice::Reconfigure);
                }
                if let RemedyStep::Ask(prompt) = r {
                    let all = prompt.choices@;
                    assert(all == list.push(Choice::Decline));
                    if list.contains(Choice::Reconfigure) {
                        assert(all[list.index_of(Choice::Reconfigure)] == Choice::Reconfigure);
                    }
                    if all.contains(Choice::Reconfigure) {
                        let i = all.index_of(Choice::Reconfigure);
                        assert(list[i] == Choice::Reconfigure);
                    }
                }
            }
        }
    }
}

/// Tells whether the instance that an error is repaired at is configured.
pub open spec fn to_reach(config: Config, error: crate::config::validation::ErrorView) -> bool {
    match error.problem {
        ProblemView::NotConfigured => error.referrer matches Some(at) && configured_type(
            config,
            at.0,
            at.1,
        ) is Some,
        _ => configured_type(config, error.target.0, error.target.1) is Some,
    }
}

/// An answer leads to what was picked, on the instance that was asked about, and counts
/// as tried against the error that it was for. Declining ends the run unresolved.
pub proof fn law_answer_leads_to_what_was_picked(prompt: Prompt, picked: usize)
    requires
        picked < prompt.choices@.len(),
    ensures
        forall|run: &mut Remediation, r: (RemedyAction, Fix)| #[trigger]
            call_ensures(Remediation::answer, (run, prompt, picked), r) ==> {
                let choice = prompt.choices@[picked as int];
                &&& r.1 == prompt.fix
                &&& r.0 == (match choice {
                    Choice::Reconfigure => RemedyAction::Reconfigure,
                    Choice::Remove => RemedyAction::Remove,
                    Choice::Disable => RemedyAction::Disable,
                    Choice::Decline => RemedyAction::Stop(Outcome::Unresolved),
                })
                &&& final(run).kind == run.kind
                &&& final(run).id@ == run.id@
                &&& final(run).on_decline == run.on_decline
                &&& final(run).prompting == run.prompting
                &&& final(run).tried@ == run.tried@.push(choice)
                &&& choice != Choice::Decline ==> final(run).previous == Some(prompt.error)
                &&& choice == Choice::Decline ==> final(run).previous == run.previous
            },
{
}

/// Every id but one.
pub open spec fn other_than(id: Seq<char>) -> spec_fn(Seq<char>) -> bool {
    |x: Seq<char>| x != id
}

proof fn lemma_without_filters(list: Seq<Seq<char>>, id: Seq<char>)
    ensures
        without(list, id) == list.filter(other_than(id)),
    decreases list.len(),
{
    reveal(Seq::filter);
    if list.len() > 0 {
        lemma_without_filters(list.drop_last(), id);
    } else {
        assert(without(list, id) =~= list.filter(other_than(id)));
    }
}

/// The ids in a list of texts.
pub open spec fn texts(list: Seq<String>) -> Seq<Seq<char>> {
    list.map_values(|id: String| id@)
}

/// Disabling a capability in a launcher takes every mention of it out of the list of that
/// launcher and leaves the others there in their order. Nothing else in the configuration
/// changes.
pub proof fn law_disabling_filters_one_list(launcher_id: &str, capability_id: &str)
    ensures
        forall|config: &mut Config, r: String| #[trigger]
            call_ensures(disable, (config, launcher_id, capability_id), r) ==> {
                &&& final(config).providers == config.providers
                &&& final(config).models == config.models
                &&& final(config).capabilities == config.capabilities
                &&& final(config).model_proxy == config.model_proxy
                &&& final(config).launchers@.dom() == config.launchers@.dom()
                &&& final(config).launchers.names() == config.launchers.names()
                &&& forall|id: Seq<char>| #[trigger]
                    config.launchers@.contains_key(id) && id != launcher_id@ ==> final(
                        config).launchers@[id] == config.launchers@[id]
                &&& config.launchers@.contains_key(launcher_id@) ==> {
                    let before = config.launchers@[launcher_id@];
                    let after = final(config).launchers@[launcher_id@];
                    &&& after.launcher_id == before.launcher_id
                    &&& after.launcher_type == before.launcher_type
                    &&& after.config == before.config
                    &&& texts(after.enabled_capabilities@) == texts(
                        before.enabled_capabilities@,
                    ).filter(other_than(capability_id@))
                }
                &&& r@ == "Launcher '"@ + launcher_id@ + "' no longer enables capability '"@
                    + capability_id@ + "'."@
            },
{
    assert forall|config: &mut Config, r: String| #[trigger]
        call_ensures(
            disable,
            (config, launcher_id, capability_id),
            r,
        ) && config.launchers@.contains_key(launcher_id@) implies texts(
        final(config).launchers@[launcher_id@].enabled_capabilities@,
    ) == texts(config.launchers@[launcher_id@].enabled_capabilities@).filter(other_than(capability_id@)) by {
        let before = config.launchers@[launcher_id@];
        let after = final(config).launchers@[launcher_id@];
        lemma_without_filters(
            crate::commands::remediation::enabled_ids(before),
            capability_id@,
        );
        assert(crate::commands::remediation::enabled_ids(before) =~= texts(
            before.enabled_capabilities@,
        ));
        assert(crate::commands::remediation::enabled_ids(after) =~= texts(
            after.enabled_capabilities@,
        ));
    }
}

proof fn lemma_notes(
    config: Config,
    registries: Registries,
    kind: RefKind,
    all: Seq<Seq<char>>,
    id: Seq<char>,
)
    ensures
        ({
            let found = notes(dangling(config, registries, kind, all));
            &&& found.contains_key(id) <==> all.contains(id) && first_error(
                config,
                registries,
                (kind, id),
                None,
            ) is Some
            &&& found.contains_key(id) ==> found[id] == "⚠ "@ + error_text(
                first_error(config, registries, (kind, id), None)->0,
            )
        }),
    decreases all.len(),
{
    if all.len() > 0 {
        let front = all.drop_last();
        let earlier = dangling(config, registries, kind, front);
        let found = dangling(config, registries, kind, all);
        lemma_notes(config, registries, kind, front, id);
        assert(all.contains(id) == (front.contains(id) || id == all.last())) by {
            if front.contains(id) {
                assert(all[front.index_of(id)] == id);
            }
            if id == all.last() {
                assert(all[all.len() - 1] == id);
            }
            if all.contains(id) {
                let i = all.index_of(id);
                if i < front.len() {
                    assert(front[i] == id);
                }
            }
        }
        if first_error(config, registries, (kind, all.last()), None) is Some {
            assert(found.drop_last() =~= earlier);
        }
    }
}

/// A list puts a note against exactly those instances of the kind that do not validate,
/// each with its own error.
pub proof fn law_notes_are_against_the_broken(
    kind: RefKind,
    config: &Config,
    registries: &Registries,
    id: Seq<char>,
    r: NameMap<String>,
)
    requires
        call_ensures(dangling_notes, (kind, config, registries), r),
    ensures
        r@.contains_key(id) <==> ids(*config, kind).contains(id) && first_error(
            *config,
            *registries,
            (kind, id),
            None,
        ) is Some,
        r@.contains_key(id) ==> r@[id]@ == "⚠ "@ + error_text(
            first_error(*config, *registries, (kind, id), None)->0,
        ),
{
    lemma_notes(*config, *registries, kind, ids(*config, kind), id);
    let shown = r@.map_values(|note: String| note@);
    assert(shown.contains_key(id) == r@.contains_key(id));
    if r@.contains_key(id) {
        assert(shown[id] == r@[id]@);
    }
}

/// Tells whether the type that an instance is configured with is registered.
pub open spec fn has_registered_type(
    config: Config,
    registries: Registries,
    kind: RefKind,
    id: Seq<char>,
) -> bool {
    match kind {
        RefKind::Launcher => registries.launchers@.contains_key(
            config.launchers@[id].launcher_type@,
        ),
        RefKind::Capability => registries.capabilities.registry@.contains_key(
            config.capabilities@[id].capability_type@,
        ),
        RefKind::Model => registries.models.registry@.contains_key(config.models@[id].model_type@),
        RefKind::Provider => registries.providers@.contains_key(
            config.providers@[id].provider_type@,
        ),
    }
}

/// As long as nothing was tried, setting up again is offered exactly where the type of the
/// instance that the repair acts on is registered.
pub proof fn law_registered_types_can_be_set_up_again(
    config: Config,
    registries: Registries,
    root: RefView,
)
    requires
        first_error(config, registries, root, None) is Some,
    ensures
        ({
            let error = first_error(config, registries, root, None)->0;
            fix_for(error, config, registries, root) matches Some(fix) ==> (offered(
                fix,
                Seq::empty(),
            ).contains(Choice::Reconfigure) <==> has_registered_type(
                config,
                registries,
                fix.kind,
                fix.id,
            ))
        }),
{
    let error = first_error(config, registries, root, None)->0;
    law_error_names_what_to_act_on(config, registries, root);
    if let Some(fix) = fix_for(error, config, registries, root) {
        let list = offered(fix, Seq::empty());
        if fix.can_reconfigure {
            assert(list[0] == Choice::Reconfigure);
        }
        if error.problem == ProblemView::NotConfigured {
            assert(own_problem(config, registries, error.referrer->0) is None);
        } else {
            lemma_not_configured(config, registries, error.target);
            assert(own_problem(config, registries, error.target) == Some(error.problem));
            lemma_unknown_type(config, registries, error.target);
        }
    }
}

/// An instance has an unknown type exactly when its type is not registered.
proof fn lemma_unknown_type(config: Config, registries: Registries, at: RefView)
    requires
        configured_type(config, at.0, at.1) is Some,
    ensures
        own_problem(config, registries, at) matches Some(problem) && problem is UnknownType
            <==> !has_registered_type(config, registries, at.0, at.1),
{
    if at.0 == RefKind::Capability && has_registered_type(config, registries, at.0, at.1) {
        law_capability_refers_to_what_its_settings_name(config, registries, at.1, at);
        law_settings_name_the_dependencies(
            config.capabilities@[at.1].config.tree(),
            dependencies_of(config, registries, at.1),
        );
        lemma_dependency_problem(
            config.capabilities@[at.1].config.tree(),
            dependencies_of(config, registries, at.1),
        );
    }
}

} // verus!
