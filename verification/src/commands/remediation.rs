//! Offers to repair a broken configuration reference, one problem at a time,
//! until what the caller named validates or the user stops accepting repairs.
//!
//! The repairs are the commands that the user would otherwise run by hand. What
//! is asked and what follows from an answer is decided here; asking, and running
//! the commands, is up to the caller.

pub mod laws;
pub mod offer_laws;

use vstd::prelude::*;
use vstd::string::*;
use crate::config::validation::{
    dangling, dangling_view, error_text, find_dangling, first_error, ids, instance_text, ref_text,
    type_key, type_of, validate_ref, DanglingView, ErrorView, Problem, ProblemView,
    RefKind, RefView, ValidationError,
};
use crate::config::{Config, LauncherConfig};
use crate::name_map::NameMap;
use crate::registry::Registries;
use crate::text::same_text;

verus! {

/// What declining a repair means for the command that asked.
#[derive(Debug, Clone, Copy, PartialEq, Eq, Structural)]
pub enum OnDecline {
    /// The command carries on with the instance left as it is.
    Skip,
    /// The command cannot run against a broken configuration and stops.
    Abort,
}

/// Whether what the caller named validates now.
#[derive(Debug, Clone, Copy, PartialEq, Eq, Structural)]
pub enum Outcome {
    /// Nothing was broken, or everything broken was repaired.
    Clean,
    /// Something is still broken.
    Unresolved,
}

/// What the user can choose.
#[derive(Debug, Clone, Copy, PartialEq, Eq, Structural)]
pub enum Choice {
    /// Set the instance up again.
    Reconfigure,
    /// Delete the instance.
    Remove,
    /// Take a capability out of a launcher's list.
    Disable,
    /// Leave everything as it is.
    Decline,
}

/// The instance that a repair acts on, and what can be done to it.
#[derive(Debug)]
pub struct Fix {
    pub kind: RefKind,
    pub id: String,
    /// The type of the instance, which setting it up again starts from.
    pub type_key: String,
    /// False where the type is itself the problem: nothing can be set up with a
    /// type that is not registered.
    pub can_reconfigure: bool,
    /// True where the caller named this very instance, and may delete it.
    pub can_remove: bool,
    /// The launcher and the capability to take out of its list, where the caller
    /// named a launcher and the problem lies behind a capability that it enables.
    pub disable: Option<(String, String)>,
}

/// The instance that a repair acts on, and what can be done to it.
pub struct FixView {
    pub kind: RefKind,
    pub id: Seq<char>,
    pub type_key: Seq<char>,
    pub can_reconfigure: bool,
    pub can_remove: bool,
    pub disable: Option<(Seq<char>, Seq<char>)>,
}

impl View for Fix {
    type V = FixView;

    open spec fn view(&self) -> FixView {
        FixView {
            kind: self.kind,
            id: self.id@,
            type_key: self.type_key@,
            can_reconfigure: self.can_reconfigure,
            can_remove: self.can_remove,
            disable: match self.disable {
                Some(pair) => Some((pair.0@, pair.1@)),
                None => None,
            },
        }
    }
}

/// The instance that a repair of an error acts on. An instance that is not
/// configured cannot be acted on, so the repair belongs to whoever refers to it;
/// every other problem is one of the target itself.
pub open spec fn acts_on(error: ErrorView) -> Option<RefView> {
    match error.problem {
        ProblemView::NotConfigured => error.referrer,
        _ => Some(error.target),
    }
}

/// The first capability in a list that does not validate.
pub open spec fn first_broken(config: Config, registries: Registries, list: Seq<Seq<char>>) -> Option<
    Seq<char>,
>
    decreases list.len(),
{
    if list.len() == 0 {
        None
    } else {
        match first_broken(config, registries, list.drop_last()) {
            Some(id) => Some(id),
            None => if first_error(
                config,
                registries,
                (RefKind::Capability, list.last()),
                None,
            ) is Some {
                Some(list.last())
            } else {
                None
            },
        }
    }
}

/// The ids of the capabilities that a launcher enables.
pub open spec fn enabled_ids(launcher: LauncherConfig) -> Seq<Seq<char>> {
    launcher.enabled_capabilities@.map_values(|id: String| id@)
}

/// The capability to take out of the list of the launcher that the caller named:
/// the first one that does not validate, which is the one that the problem lies
/// behind. There is none where the launcher is itself the problem.
pub open spec fn disable_pair(
    error: ErrorView,
    config: Config,
    registries: Registries,
    root: RefView,
) -> Option<(Seq<char>, Seq<char>)> {
    if root.0 == RefKind::Launcher && error.target != root && config.launchers@.contains_key(
        root.1,
    ) {
        match first_broken(config, registries, enabled_ids(config.launchers@[root.1])) {
            Some(capability) => Some((root.1, capability)),
            None => None,
        }
    } else {
        None
    }
}

/// The repair for an error that was met on the way from `root`.
pub open spec fn fix_for(
    error: ErrorView,
    config: Config,
    registries: Registries,
    root: RefView,
) -> Option<FixView> {
    match acts_on(error) {
        None => None,
        Some(at) => match type_of(config, at) {
            None => None,
            Some(name) => Some(
                FixView {
                    kind: at.0,
                    id: at.1,
                    type_key: name,
                    can_reconfigure: !(error.problem is UnknownType),
                    can_remove: at == root,
                    disable: disable_pair(error, config, registries, root),
                },
            ),
        },
    }
}

/// The first capability in a list that does not validate.
fn find_first_broken(config: &Config, registries: &Registries, list: &Vec<String>) -> (r: Option<
    String,
>)
    ensures
        first_broken(*config, *registries, list@.map_values(|id: String| id@)) == (match r {
            Some(id) => Some(id@),
            None => None,
        }),
{
    let ghost all = list@.map_values(|id: String| id@);
    let mut i: usize = 0;
    proof {
        assert(all.take(0) =~= Seq::<Seq<char>>::empty());
    }
    while i < list.len()
        invariant
            i <= list@.len(),
            all == list@.map_values(|id: String| id@),
            first_broken(*config, *registries, all.take(i as int)) is None,
        decreases list@.len() - i,
    {
        proof {
            let here = all.take(i + 1);
            assert(here.drop_last() =~= all.take(i as int));
            assert(here.last() == list@[i as int]@);
        }
        match validate_ref(RefKind::Capability, list[i].as_str(), config, registries) {
            Ok(_) => {},
            Err(_) => {
                proof {
                    lemma_first_broken_stays(*config, *registries, all, i + 1);
                }
                return Some(list[i].clone());
            },
        }
        i += 1;
    }
    proof {
        assert(all.take(i as int) =~= all);
    }
    None
}

proof fn lemma_first_broken_stays(
    config: Config,
    registries: Registries,
    list: Seq<Seq<char>>,
    n: int,
)
    requires
        0 <= n <= list.len(),
        first_broken(config, registries, list.take(n)) is Some,
    ensures
        first_broken(config, registries, list) == first_broken(config, registries, list.take(n)),
    decreases list.len() - n,
{
    if n < list.len() {
        assert(list.take(n + 1).drop_last() =~= list.take(n));
        lemma_first_broken_stays(config, registries, list, n + 1);
    } else {
        assert(list.take(n) =~= list);
    }
}

/// Tells whether two kinds and ids are the same.
fn same_ref(a_kind: RefKind, a_id: &str, b_kind: RefKind, b_id: &str) -> (r: bool)
    ensures
        r == ((a_kind, a_id@) == (b_kind, b_id@)),
{
    a_kind == b_kind && same_text(a_id, b_id)
}

/// The launcher and the capability to take out of its list.
fn disable_target(
    error: &ValidationError,
    config: &Config,
    registries: &Registries,
    root_kind: RefKind,
    root_id: &str,
) -> (r: Option<(String, String)>)
    ensures
        disable_pair(error@, *config, *registries, (root_kind, root_id@)) == (match r {
            Some(pair) => Some((pair.0@, pair.1@)),
            None => None,
        }),
{
    if root_kind != RefKind::Launcher || same_ref(
        error.target.0,
        error.target.1.as_str(),
        root_kind,
        root_id,
    ) {
        return None;
    }
    match config.launchers.get(root_id) {
        None => None,
        Some(launcher) => match find_first_broken(
            config,
            registries,
            &launcher.enabled_capabilities,
        ) {
            None => None,
            Some(capability) => Some((root_id.to_owned(), capability)),
        },
    }
}

impl Fix {
    /// The repair for an error that was met on the way from the instance that the
    /// caller named. There is none where that instance is itself missing.
    pub fn for_error(
        error: &ValidationError,
        config: &Config,
        registries: &Registries,
        root_kind: RefKind,
        root_id: &str,
    ) -> (r: Option<Fix>)
        ensures
            fix_for(error@, *config, *registries, (root_kind, root_id@)) == (match r {
                Some(fix) => Some(fix@),
                None => None,
            }),
    {
        let unknown = match &error.problem {
            Problem::UnknownType { .. } => true,
            _ => false,
        };
        let missing = match &error.problem {
            Problem::NotConfigured => true,
            _ => false,
        };
        let (kind, id) = if missing {
            match &error.referrer {
                Some((kind, id)) => (*kind, id),
                None => {
                    return None;
                },
            }
        } else {
            (error.target.0, &error.target.1)
        };
        match type_key(config, kind, id.as_str()) {
            None => None,
            Some(name) => Some(
                Fix {
                    kind,
                    id: id.clone(),
                    type_key: name.to_owned(),
                    can_reconfigure: !unknown,
                    can_remove: same_ref(kind, id.as_str(), root_kind, root_id),
                    disable: disable_target(error, config, registries, root_kind, root_id),
                },
            ),
        }
    }
}

/// The repairs on offer: those that apply and were not tried against this
/// problem yet.
pub open spec fn offered(fix: FixView, tried: Seq<Choice>) -> Seq<Choice> {
    (if fix.can_reconfigure && !tried.contains(Choice::Reconfigure) {
        seq![Choice::Reconfigure]
    } else {
        Seq::empty()
    }) + (match removal(fix) {
        Some(choice) if !tried.contains(choice) => seq![choice],
        _ => Seq::empty(),
    })
}

/// What removing means for a repair: disabling where there is something to
/// disable, deleting where the caller may delete, and nothing otherwise.
pub open spec fn removal(fix: FixView) -> Option<Choice> {
    if fix.disable is Some {
        Some(Choice::Disable)
    } else if fix.can_remove {
        Some(Choice::Remove)
    } else {
        None
    }
}

/// A choice in words.
pub open spec fn choice_text(choice: Choice, fix: FixView, on_decline: OnDecline) -> Seq<char> {
    match choice {
        Choice::Reconfigure => "Reconfigure "@ + ref_text((fix.kind, fix.id)) + " now"@,
        Choice::Remove => "Remove "@ + ref_text((fix.kind, fix.id)),
        Choice::Disable => "Remove "@ + ref_text((RefKind::Capability, (fix.disable->0).1))
            + " from "@ + ref_text((RefKind::Launcher, (fix.disable->0).0)),
        Choice::Decline => match on_decline {
            OnDecline::Skip => "Skip for now, '"@ + fix.id + "' stays broken until fixed"@,
            OnDecline::Abort => "Cancel"@,
        },
    }
}

/// A choice in words.
fn choice_item(choice: Choice, fix: &Fix, on_decline: OnDecline) -> (r: String)
    requires
        choice is Disable ==> fix.disable is Some,
    ensures
        r@ == choice_text(choice, fix@, on_decline),
{
    match choice {
        Choice::Reconfigure => {
            let mut out = "Reconfigure ".to_owned();
            out.append(instance_text(fix.kind, fix.id.as_str()).as_str());
            out.append(" now");
            out
        },
        Choice::Remove => {
            let mut out = "Remove ".to_owned();
            out.append(instance_text(fix.kind, fix.id.as_str()).as_str());
            out
        },
        Choice::Disable => {
            let mut out = "Remove ".to_owned();
            if let Some((launcher, capability)) = &fix.disable {
                out.append(instance_text(RefKind::Capability, capability.as_str()).as_str());
                out.append(" from ");
                out.append(instance_text(RefKind::Launcher, launcher.as_str()).as_str());
            }
            out
        },
        Choice::Decline => match on_decline {
            OnDecline::Skip => {
                let mut out = "Skip for now, '".to_owned();
                out.append(fix.id.as_str());
                out.append("' stays broken until fixed");
                out
            },
            OnDecline::Abort => "Cancel".to_owned(),
        },
    }
}

/// Tells whether a choice is in a list.
fn has_choice(list: &Vec<Choice>, choice: Choice) -> (r: bool)
    ensures
        r == list@.contains(choice),
{
    let mut i: usize = 0;
    while i < list.len()
        invariant
            i <= list@.len(),
            forall|j: int| 0 <= j < i ==> list@[j] != choice,
        decreases list@.len() - i,
    {
        if list[i] == choice {
            proof {
                assert(list@[i as int] == choice);
            }
            return true;
        }
        i += 1;
    }
    false
}

/// A question to the user.
#[derive(Debug)]
pub struct Prompt {
    /// What to tell the user first.
    pub warning: String,
    pub question: String,
    /// The answers to choose from, in words.
    pub items: Vec<String>,
    /// What each answer stands for. The last one declines.
    pub choices: Vec<Choice>,
    /// The answer that is preselected: the one that declines.
    pub preselected: usize,
    pub error: ValidationError,
    pub fix: Fix,
}

impl Prompt {
    /// Tells whether this asks about a repair of an error, with everything on
    /// offer that was not tried yet.
    pub open spec fn asks(
        self,
        error: ErrorView,
        fix: FixView,
        on_decline: OnDecline,
        tried: Seq<Choice>,
    ) -> bool {
        &&& self.error@ == error
        &&& self.fix@ == fix
        &&& self.warning@ == "Configuration issue: "@ + error_text(error)
        &&& self.question@ == "What would you like to do?"@
        &&& self.choices@ == offered(fix, tried).push(Choice::Decline)
        &&& self.items@.len() == self.choices@.len()
        &&& forall|i: int|
            0 <= i < self.items@.len() ==> (#[trigger] self.items@[i])@ == choice_text(
                self.choices@[i],
                fix,
                on_decline,
            )
        &&& self.preselected == self.items@.len() - 1
    }
}

/// Makes the question about a repair. There is none where every repair was tried.
pub fn offer(error: ValidationError, fix: Fix, on_decline: OnDecline, tried: &Vec<Choice>) -> (r:
    Result<Prompt, ValidationError>)
    ensures
        match r {
            Ok(prompt) => offered(fix@, tried@).len() > 0 && prompt.asks(
                error@,
                fix@,
                on_decline,
                tried@,
            ),
            Err(same) => offered(fix@, tried@).len() == 0 && same == error,
        },
{
    let mut choices: Vec<Choice> = Vec::new();
    if fix.can_reconfigure && !has_choice(tried, Choice::Reconfigure) {
        choices.push(Choice::Reconfigure);
    }
    if fix.disable.is_some() {
        if !has_choice(tried, Choice::Disable) {
            choices.push(Choice::Disable);
        }
    } else if fix.can_remove && !has_choice(tried, Choice::Remove) {
        choices.push(Choice::Remove);
    }
    proof {
        assert(choices@ =~= offered(fix@, tried@));
    }
    if choices.len() == 0 {
        return Err(error);
    }
    choices.push(Choice::Decline);
    let mut items: Vec<String> = Vec::new();
    let mut i: usize = 0;
    while i < choices.len()
        invariant
            i <= choices@.len(),
            choices@ == offered(fix@, tried@).push(Choice::Decline),
            items@.len() == i,
            forall|j: int|
                0 <= j < i ==> (#[trigger] items@[j])@ == choice_text(choices@[j], fix@, on_decline),
        decreases choices@.len() - i,
    {
        items.push(choice_item(choices[i], &fix, on_decline));
        i += 1;
    }
    let mut warning = "Configuration issue: ".to_owned();
    warning.append(error.text().as_str());
    let preselected: usize = items.len() - 1;
    Ok(
        Prompt {
            warning,
            question: "What would you like to do?".to_owned(),
            items,
            choices,
            preselected,
            error,
            fix,
        },
    )
}

/// Tells whether two problems are the same.
fn same_problem(a: &Problem, b: &Problem) -> (r: bool)
    ensures
        r == (a@ == b@),
{
    match (a, b) {
        (Problem::NotConfigured, Problem::NotConfigured) => true,
        (Problem::UnknownType { type_key: x }, Problem::UnknownType { type_key: y }) => *x == *y,
        (Problem::NoProviderConfigured, Problem::NoProviderConfigured) => true,
        (
            Problem::MissingDependency { config_key: x },
            Problem::MissingDependency { config_key: y },
        ) => *x == *y,
        _ => false,
    }
}

/// Tells whether two errors are the same.
fn same_error(a: &ValidationError, b: &ValidationError) -> (r: bool)
    ensures
        r == (a@ == b@),
{
    let same_referrer = match (&a.referrer, &b.referrer) {
        (None, None) => true,
        (Some((ak, ai)), Some((bk, bi))) => same_ref(*ak, ai.as_str(), *bk, bi.as_str()),
        _ => false,
    };
    let same_target = same_ref(
        a.target.0,
        a.target.1.as_str(),
        b.target.0,
        b.target.1.as_str(),
    );
    same_referrer && same_target && same_problem(&a.problem, &b.problem)
}

/// A repair run: the instance that the caller named, and what was tried so far.
#[derive(Debug)]
pub struct Remediation {
    pub kind: RefKind,
    pub id: String,
    pub on_decline: OnDecline,
    /// Whether there is somebody to ask.
    pub prompting: bool,
    /// The error that the last repair was for.
    pub previous: Option<ValidationError>,
    /// What was tried against it.
    pub tried: Vec<Choice>,
}

/// What a repair run has to do next.
#[derive(Debug)]
pub enum RemedyStep {
    /// Show the warning, if there is one, and end with the outcome.
    Done { outcome: Outcome, warning: Option<String> },
    /// Ask the user and go on with [`Remediation::answer`].
    Ask(Prompt),
}

/// What an answer leads to.
#[derive(Debug, Clone, Copy, PartialEq, Eq, Structural)]
pub enum RemedyAction {
    /// Set the instance of the repair up again, then go on.
    Reconfigure,
    /// Delete the instance of the repair, then go on.
    Remove,
    /// Take the capability out of the launcher's list, then go on.
    Disable,
    /// End with the outcome.
    Stop(Outcome),
}

impl Remediation {
    /// The instance that the caller named.
    pub open spec fn root(self) -> RefView {
        (self.kind, self.id@)
    }

    /// What counts as tried against an error: nothing, unless the last repair
    /// was for the same one.
    pub open spec fn tried_against(self, error: ErrorView) -> Seq<Choice> {
        match self.previous {
            Some(previous) if previous@ == error => self.tried@,
            _ => Seq::empty(),
        }
    }

    /// Begins a repair run. It asks only where the caller may prompt and the
    /// session is interactive.
    pub fn start(
        kind: RefKind,
        id: &str,
        on_decline: OnDecline,
        may_prompt: bool,
        interactive: bool,
    ) -> (r: Remediation)
        ensures
            r.root() == (kind, id@),
            r.on_decline == on_decline,
            r.prompting == (may_prompt && interactive),
            r.previous is None,
            r.tried@ == Seq::<Choice>::empty(),
    {
        Remediation {
            kind,
            id: id.to_owned(),
            on_decline,
            prompting: may_prompt && interactive,
            previous: None,
            tried: Vec::new(),
        }
    }

    /// Validates what the caller named and says what to do about it. A repair
    /// that left the problem as it was is not offered again; a different problem
    /// starts over with all of them.
    pub fn next(&mut self, config: &Config, registries: &Registries) -> (r: RemedyStep)
        ensures
            final(self).root() == old(self).root(),
            final(self).on_decline == old(self).on_decline,
            final(self).prompting == old(self).prompting,
            final(self).previous == old(self).previous,
            match first_error(*config, *registries, old(self).root(), None) {
                None => r == (RemedyStep::Done { outcome: Outcome::Clean, warning: None })
                    && final(self).tried@ == old(self).tried@,
                Some(error) => {
                    &&& final(self).tried@ == old(self).tried_against(error)
                    &&& match fix_for(error, *config, *registries, old(self).root()) {
                        Some(fix) if old(self).prompting => if offered(
                            fix,
                            final(self).tried@,
                        ).len() > 0 {
                            r matches RemedyStep::Ask(prompt) && prompt.asks(
                                error,
                                fix,
                                old(self).on_decline,
                                final(self).tried@,
                            )
                        } else {
                            r matches RemedyStep::Done { outcome, warning: Some(text) } && outcome
                                == Outcome::Unresolved && text@ == "Still unresolved: "@
                                + error_text(error)
                        },
                        _ => r matches RemedyStep::Done { outcome, warning: Some(text) } && outcome
                            == Outcome::Unresolved && text@ == error_text(error),
                    }
                },
            },
    {
        let error = match validate_ref(self.kind, self.id.as_str(), config, registries) {
            Ok(_) => {
                return RemedyStep::Done { outcome: Outcome::Clean, warning: None };
            },
            Err(error) => error,
        };
        let repeated = match &self.previous {
            Some(previous) => same_error(previous, &error),
            None => false,
        };
        if !repeated {
            self.tried = Vec::new();
        }
        let fix = match Fix::for_error(&error, config, registries, self.kind, self.id.as_str()) {
            Some(fix) => fix,
            None => {
                return RemedyStep::Done {
                    outcome: Outcome::Unresolved,
                    warning: Some(error.text()),
                };
            },
        };
        if !self.prompting {
            return RemedyStep::Done {
                outcome: Outcome::Unresolved,
                warning: Some(error.text()),
            };
        }
        match offer(error, fix, self.on_decline, &self.tried) {
            Ok(prompt) => RemedyStep::Ask(prompt),
            Err(error) => {
                let mut text = "Still unresolved: ".to_owned();
                text.append(error.text().as_str());
                RemedyStep::Done { outcome: Outcome::Unresolved, warning: Some(text) }
            },
        }
    }

    /// Goes on with the user's answer, given by its position. Hands back the
    /// repair that the action is about.
    pub fn answer(&mut self, prompt: Prompt, picked: usize) -> (r: (RemedyAction, Fix))
        requires
            picked < prompt.choices@.len(),
        ensures
            final(self).root() == old(self).root(),
            final(self).on_decline == old(self).on_decline,
            final(self).prompting == old(self).prompting,
            final(self).tried@ == old(self).tried@.push(prompt.choices@[picked as int]),
            r.1 == prompt.fix,
            r.0 == action_of(prompt.choices@[picked as int]),
            prompt.choices@[picked as int] is Decline ==> final(self).previous == old(
                self,
            ).previous,
            !(prompt.choices@[picked as int] is Decline) ==> final(self).previous == Some(
                prompt.error,
            ),
    {
        let choice = prompt.choices[picked];
        self.tried.push(choice);
        let action = match choice {
            Choice::Reconfigure => RemedyAction::Reconfigure,
            Choice::Remove => RemedyAction::Remove,
            Choice::Disable => RemedyAction::Disable,
            Choice::Decline => {
                return (RemedyAction::Stop(Outcome::Unresolved), prompt.fix);
            },
        };
        self.previous = Some(prompt.error);
        (action, prompt.fix)
    }
}

/// What a choice leads to.
pub open spec fn action_of(choice: Choice) -> RemedyAction {
    match choice {
        Choice::Reconfigure => RemedyAction::Reconfigure,
        Choice::Remove => RemedyAction::Remove,
        Choice::Disable => RemedyAction::Disable,
        Choice::Decline => RemedyAction::Stop(Outcome::Unresolved),
    }
}

/// A list of ids without every occurrence of one of them.
pub open spec fn without(list: Seq<Seq<char>>, id: Seq<char>) -> Seq<Seq<char>>
    decreases list.len(),
{
    if list.len() == 0 {
        Seq::empty()
    } else if list.last() == id {
        without(list.drop_last(), id)
    } else {
        without(list.drop_last(), id).push(list.last())
    }
}

/// Takes every occurrence of an id out of a list.
fn drop_id(list: Vec<String>, id: &str) -> (r: Vec<String>)
    ensures
        r@.map_values(|x: String| x@) == without(list@.map_values(|x: String| x@), id@),
{
    let mut list = list;
    let ghost all = list@.map_values(|x: String| x@);
    let ghost mut done: int = 0;
    let mut rest: Vec<String> = Vec::new();
    proof {
        assert(all.take(0) =~= Seq::<Seq<char>>::empty());
        assert(rest@.map_values(|x: String| x@) =~= Seq::<Seq<char>>::empty());
    }
    while list.len() > 0
        invariant
            0 <= done <= all.len(),
            list@.map_values(|x: String| x@) == all.skip(done),
            list@.len() == all.len() - done,
            rest@.map_values(|x: String| x@) == without(all.take(done), id@),
        decreases list@.len(),
    {
        let ghost left = list@.map_values(|x: String| x@);
        let ghost kept = rest@.map_values(|x: String| x@);
        let item = list.remove(0);
        proof {
            assert(left[0] == item@);
            assert(all.skip(done)[0] == all[done]);
            assert(list@.map_values(|x: String| x@) =~= left.drop_first());
            assert(left.drop_first() =~= all.skip(done + 1));
            assert(all.take(done + 1).drop_last() =~= all.take(done));
            assert(all.take(done + 1).last() == item@);
        }
        if !same_text(item.as_str(), id) {
            rest.push(item);
            proof {
                assert(rest@.map_values(|x: String| x@) =~= kept.push(item@));
            }
        }
        proof {
            done = done + 1;
        }
    }
    proof {
        assert(all.take(done) =~= all);
    }
    rest
}

/// Tells whether `after` is `before` with one capability taken out of the list of
/// one launcher, and nothing else changed.
pub open spec fn only_disables(
    before: Config,
    after: Config,
    launcher_id: Seq<char>,
    capability_id: Seq<char>,
) -> bool {
    &&& after.providers == before.providers
    &&& after.models == before.models
    &&& after.capabilities == before.capabilities
    &&& after.model_proxy == before.model_proxy
    &&& after.launchers.names() == before.launchers.names()
    &&& after.launchers@.dom() == before.launchers@.dom()
    &&& forall|id: Seq<char>| #[trigger]
        before.launchers@.contains_key(id) && id != launcher_id ==> after.launchers@[id]
            == before.launchers@[id]
    &&& before.launchers@.contains_key(launcher_id) ==> {
        let old_entry = before.launchers@[launcher_id];
        let new_entry = after.launchers@[launcher_id];
        &&& new_entry.launcher_id == old_entry.launcher_id
        &&& new_entry.launcher_type == old_entry.launcher_type
        &&& new_entry.config == old_entry.config
        &&& enabled_ids(new_entry) == without(enabled_ids(old_entry), capability_id)
    }
}

/// Takes a capability out of a launcher's list. The capability stays configured,
/// so that other launchers that enable it are not touched. Hands back what to
/// tell the user.
pub fn disable(config: &mut Config, launcher_id: &str, capability_id: &str) -> (r: String)
    ensures
        only_disables(*old(config), *final(config), launcher_id@, capability_id@),
        r@ == "Launcher '"@ + launcher_id@ + "' no longer enables capability '"@ + capability_id@
            + "'."@,
{
    if config.launchers.contains_key(launcher_id) {
        let blank = LauncherConfig {
            launcher_id: String::new(),
            launcher_type: String::new(),
            enabled_capabilities: Vec::new(),
            config: crate::json::Json::Null,
        };
        proof {
            assert(config.launchers.names().contains(launcher_id@));
        }
        if let Some(entry) = config.launchers.insert(launcher_id.to_owned(), blank) {
            let changed = LauncherConfig {
                launcher_id: entry.launcher_id,
                launcher_type: entry.launcher_type,
                enabled_capabilities: drop_id(entry.enabled_capabilities, capability_id),
                config: entry.config,
            };
            config.launchers.insert(launcher_id.to_owned(), changed);
            proof {
                assert(config.launchers@ =~= old(config).launchers@.insert(launcher_id@, changed));
                assert(config.launchers@.dom() =~= old(config).launchers@.dom());
            }
        }
    }
    let mut text = "Launcher '".to_owned();
    text.append(launcher_id);
    text.append("' no longer enables capability '");
    text.append(capability_id);
    text.append("'.");
    text
}

/// The note that a list puts against an instance that does not validate.
pub open spec fn note_text(reason: Seq<char>) -> Seq<char> {
    "⚠ "@ + reason
}

/// The notes for the given broken instances, each under the id of its instance.
pub open spec fn notes(found: Seq<DanglingView>) -> Map<Seq<char>, Seq<char>>
    decreases found.len(),
{
    if found.len() == 0 {
        Map::empty()
    } else {
        notes(found.drop_last()).insert(found.last().instance_id, note_text(found.last().reason))
    }
}

/// The note that a list command puts against each instance of a kind whose
/// references do not resolve.
pub fn dangling_notes(kind: RefKind, config: &Config, registries: &Registries) -> (r: NameMap<
    String,
>)
    ensures
        r@.map_values(|note: String| note@) == notes(
            dangling(*config, *registries, kind, ids(*config, kind)),
        ),
{
    let found = find_dangling(kind, config, registries);
    let ghost all = dangling_view(found@);
    let mut out: NameMap<String> = NameMap::new();
    let mut i: usize = 0;
    proof {
        assert(all.take(0) =~= Seq::<DanglingView>::empty());
        assert(out@.map_values(|note: String| note@) =~= Map::<Seq<char>, Seq<char>>::empty());
    }
    while i < found.len()
        invariant
            i <= found@.len(),
            all == dangling_view(found@),
            out@.map_values(|note: String| note@) == notes(all.take(i as int)),
        decreases found@.len() - i,
    {
        let ghost before = out@.map_values(|note: String| note@);
        let mut note = "⚠ ".to_owned();
        note.append(found[i].reason.as_str());
        proof {
            let here = all.take(i + 1);
            assert(here.drop_last() =~= all.take(i as int));
            assert(here.last() == found@[i as int]@);
        }
        out.insert(found[i].instance_id.clone(), note);
        proof {
            assert(out@.map_values(|note: String| note@) =~= before.insert(
                found@[i as int].instance_id@,
                note@,
            ));
        }
        i += 1;
    }
    proof {
        assert(all.take(i as int) =~= all);
    }
    out
}

} // verus!
