//! Whether the references of a configured instance resolve, told from the
//! configuration and the registries without building anything.
//!
//! Two kinds of reference are checked. An id names another configured instance,
//! and a type name names an implementation in the registry of its kind.

pub mod laws;
pub mod walk_laws;

use vstd::prelude::*;
use vstd::string::*;
use crate::capabilities::Dependency;
use crate::config::{CapabilityConfig, Config, LauncherConfig, ModelConfig, ProviderConfig};
use crate::json::{Json, JsonTree};
use crate::registry::Registries;

verus! {

/// The four kinds of configured instance that refer to each other.
#[derive(Debug, Clone, Copy, PartialEq, Eq, Structural)]
pub enum RefKind {
    Launcher,
    Capability,
    Model,
    Provider,
}

/// What is wrong with a reference.
#[derive(Debug, PartialEq, Eq)]
pub enum Problem {
    /// Nothing is configured under the id.
    NotConfigured,
    /// The type of the instance is not in the registry of its kind.
    UnknownType { type_key: String },
    /// A model that names no provider at all.
    NoProviderConfigured,
    /// A capability whose settings hold no id under the key of a required
    /// dependency.
    MissingDependency { config_key: String },
}

/// A reference that does not resolve.
///
/// `referrer` is the configured instance that holds the broken reference, on
/// which a repair acts. There is none where the instance that was asked about
/// is itself the problem.
#[derive(Debug, PartialEq, Eq)]
pub struct ValidationError {
    pub target: (RefKind, String),
    pub problem: Problem,
    pub referrer: Option<(RefKind, String)>,
}

/// An instance with a broken reference.
#[derive(Debug, PartialEq, Eq)]
pub struct DanglingRef {
    pub kind: RefKind,
    pub instance_id: String,
    /// The validation error in words.
    pub reason: String,
}

/// An instance, given by its kind and its id.
pub type RefView = (RefKind, Seq<char>);

/// What is wrong with a reference.
pub enum ProblemView {
    NotConfigured,
    UnknownType(Seq<char>),
    NoProviderConfigured,
    MissingDependency(Seq<char>),
}

/// A reference that does not resolve.
pub struct ErrorView {
    pub target: RefView,
    pub problem: ProblemView,
    pub referrer: Option<RefView>,
}

impl View for Problem {
    type V = ProblemView;

    open spec fn view(&self) -> ProblemView {
        match self {
            Problem::NotConfigured => ProblemView::NotConfigured,
            Problem::UnknownType { type_key } => ProblemView::UnknownType(type_key@),
            Problem::NoProviderConfigured => ProblemView::NoProviderConfigured,
            Problem::MissingDependency { config_key } => ProblemView::MissingDependency(
                config_key@,
            ),
        }
    }
}

impl View for ValidationError {
    type V = ErrorView;

    open spec fn view(&self) -> ErrorView {
        ErrorView {
            target: (self.target.0, self.target.1@),
            problem: self.problem@,
            referrer: match self.referrer {
                Some(r) => Some((r.0, r.1@)),
                None => None,
            },
        }
    }
}

/// How many steps a walk from an instance of a kind can take at most.
pub open spec fn rank(kind: RefKind) -> nat {
    match kind {
        RefKind::Launcher => 3,
        RefKind::Capability => 2,
        RefKind::Model => 1,
        RefKind::Provider => 0,
    }
}

/// The type name of a configured instance.
pub open spec fn type_of(config: Config, at: RefView) -> Option<Seq<char>> {
    let (kind, id) = at;
    match kind {
        RefKind::Launcher => if config.launchers@.contains_key(id) {
            Some(config.launchers@[id].launcher_type@)
        } else {
            None
        },
        RefKind::Capability => if config.capabilities@.contains_key(id) {
            Some(config.capabilities@[id].capability_type@)
        } else {
            None
        },
        RefKind::Model => if config.models@.contains_key(id) {
            Some(config.models@[id].model_type@)
        } else {
            None
        },
        RefKind::Provider => if config.providers@.contains_key(id) {
            Some(config.providers@[id].provider_type@)
        } else {
            None
        },
    }
}

/// Tells whether a type name is in the registry of a kind.
pub open spec fn is_registered(registries: Registries, kind: RefKind, name: Seq<char>) -> bool {
    match kind {
        RefKind::Launcher => registries.launchers@.contains_key(name),
        RefKind::Capability => registries.capabilities.types().contains_key(name),
        RefKind::Model => registries.models.types().contains_key(name),
        RefKind::Provider => registries.providers@.contains_key(name),
    }
}

/// What a dependency points at in the settings of a capability: the kind of
/// instance, the key of its id, and whether there has to be one. A command on
/// the machine is no configured instance.
pub open spec fn slot(dependency: Dependency) -> Option<(RefKind, Seq<char>, bool)> {
    match dependency {
        Dependency::Model { config_key, required, .. } => Some(
            (RefKind::Model, config_key@, required),
        ),
        Dependency::Provider { config_key, required, .. } => Some(
            (RefKind::Provider, config_key@, required),
        ),
        Dependency::ExternalTool { .. } => None,
    }
}

/// The id under a key of the settings. The empty text counts as no id.
pub open spec fn id_under(settings: JsonTree, key: Seq<char>) -> Option<Seq<char>> {
    match settings.text_field(key) {
        Some(id) if id.len() > 0 => Some(id),
        _ => None,
    }
}

/// The instances that the settings of a capability name, in the order of the
/// dependencies; or the first required one that they do not name.
pub open spec fn dependency_targets(settings: JsonTree, dependencies: Seq<Dependency>) -> Result<
    Seq<RefView>,
    ProblemView,
>
    decreases dependencies.len(),
{
    if dependencies.len() == 0 {
        Ok(Seq::empty())
    } else {
        match dependency_targets(settings, dependencies.drop_last()) {
            Err(problem) => Err(problem),
            Ok(targets) => match slot(dependencies.last()) {
                None => Ok(targets),
                Some((kind, key, required)) => match id_under(settings, key) {
                    Some(id) => Ok(targets.push((kind, id))),
                    None => if required {
                        Err(ProblemView::MissingDependency(key))
                    } else {
                        Ok(targets)
                    },
                },
            },
        }
    }
}

/// The capabilities that a launcher enables.
pub open spec fn enabled(launcher: LauncherConfig) -> Seq<RefView> {
    Seq::new(
        launcher.enabled_capabilities@.len(),
        |i: int| (RefKind::Capability, launcher.enabled_capabilities@[i]@),
    )
}

/// The instances that a capability refers to, or why it cannot name them.
pub open spec fn capability_targets(capability: CapabilityConfig, registries: Registries) -> Result<
    Seq<RefView>,
    ProblemView,
> {
    let name = capability.capability_type@;
    if registries.capabilities.types().contains_key(name) {
        dependency_targets(
            capability.config.tree(),
            registries.capabilities.types()[name].metadata.dependencies@,
        )
    } else {
        Err(ProblemView::UnknownType(name))
    }
}

/// The provider that a model refers to. To name none is a problem of the model.
pub open spec fn model_targets(model: ModelConfig) -> Result<Seq<RefView>, ProblemView> {
    match model.provider_id {
        Some(provider_id) => Ok(seq![(RefKind::Provider, provider_id@)]),
        None => Err(ProblemView::NoProviderConfigured),
    }
}

/// The instances that a configured instance refers to, or why it cannot name them.
pub open spec fn targets(config: Config, registries: Registries, at: RefView) -> Result<
    Seq<RefView>,
    ProblemView,
> {
    let (kind, id) = at;
    match kind {
        RefKind::Launcher => Ok(enabled(config.launchers@[id])),
        RefKind::Capability => capability_targets(config.capabilities@[id], registries),
        RefKind::Model => model_targets(config.models@[id]),
        RefKind::Provider => Ok(Seq::empty()),
    }
}

/// What is wrong with an instance itself, whatever it refers to.
pub open spec fn own_problem(config: Config, registries: Registries, at: RefView) -> Option<
    ProblemView,
> {
    match type_of(config, at) {
        None => Some(ProblemView::NotConfigured),
        Some(name) => if !is_registered(registries, at.0, name) {
            Some(ProblemView::UnknownType(name))
        } else {
            match targets(config, registries, at) {
                Ok(_) => None,
                Err(problem) => Some(problem),
            }
        },
    }
}

/// The first broken reference that a walk from an instance meets, in the order
/// in which each instance names what it refers to.
pub open spec fn first_error(
    config: Config,
    registries: Registries,
    at: RefView,
    referrer: Option<RefView>,
) -> Option<ErrorView>
    decreases rank(at.0), 1nat, 0nat,
{
    match own_problem(config, registries, at) {
        Some(problem) => Some(ErrorView { target: at, problem, referrer }),
        None => first_error_among(
            config,
            registries,
            at,
            targets(config, registries, at)->Ok_0,
        ),
    }
}

/// The first broken reference that a walk meets from the given targets of an
/// instance on.
pub open spec fn first_error_among(
    config: Config,
    registries: Registries,
    at: RefView,
    refs: Seq<RefView>,
) -> Option<ErrorView>
    decreases rank(at.0), 0nat, refs.len(),
{
    if refs.len() == 0 {
        None
    } else {
        match first_error_among(config, registries, at, refs.drop_last()) {
            Some(error) => Some(error),
            None => if rank(refs.last().0) < rank(at.0) {
                first_error(config, registries, refs.last(), Some(at))
            } else {
                None
            },
        }
    }
}

/// The name of a kind.
pub open spec fn kind_name(kind: RefKind) -> Seq<char> {
    match kind {
        RefKind::Launcher => "launcher"@,
        RefKind::Capability => "capability"@,
        RefKind::Model => "model"@,
        RefKind::Provider => "provider"@,
    }
}

/// An instance in words.
pub open spec fn ref_text(at: RefView) -> Seq<char> {
    kind_name(at.0) + " '"@ + at.1 + "'"@
}

/// A validation error in words.
pub open spec fn error_text(error: ErrorView) -> Seq<char> {
    (match error.referrer {
        Some(referrer) => ref_text(referrer) + " depends on "@ + ref_text(error.target)
            + ", which "@,
        None => ref_text(error.target) + " "@,
    }) + (match error.problem {
        ProblemView::NotConfigured => "is not configured"@,
        ProblemView::UnknownType(name) => "has an unknown "@ + kind_name(error.target.0)
            + " type '"@ + name + "'"@,
        ProblemView::NoProviderConfigured => "has no provider configured"@,
        ProblemView::MissingDependency(key) => "is missing required dependency '"@ + key + "'"@,
    })
}

impl RefKind {
    /// The name of the kind.
    pub fn name(&self) -> (r: &'static str)
        ensures
            r@ == kind_name(*self),
    {
        match self {
            RefKind::Launcher => "launcher",
            RefKind::Capability => "capability",
            RefKind::Model => "model",
            RefKind::Provider => "provider",
        }
    }
}

/// An instance in words.
pub fn instance_text(kind: RefKind, id: &str) -> (r: String)
    ensures
        r@ == ref_text((kind, id@)),
{
    let mut out = kind.name().to_owned();
    out.append(" '");
    out.append(id);
    out.append("'");
    out
}

impl ValidationError {
    /// The error in words.
    pub fn text(&self) -> (r: String)
        ensures
            r@ == error_text(self@),
    {
        let target = instance_text(self.target.0, self.target.1.as_str());
        let mut out = String::new();
        match &self.referrer {
            Some((kind, id)) => {
                out = instance_text(*kind, id.as_str());
                out.append(" depends on ");
                out.append(target.as_str());
                out.append(", which ");
            },
            None => {
                out = target;
                out.append(" ");
            },
        }
        let ghost head = out@;
        match &self.problem {
            Problem::NotConfigured => {
                out.append("is not configured");
            },
            Problem::UnknownType { type_key } => {
                out.append("has an unknown ");
                out.append(self.target.0.name());
                out.append(" type '");
                out.append(type_key.as_str());
                out.append("'");
            },
            Problem::NoProviderConfigured => {
                out.append("has no provider configured");
            },
            Problem::MissingDependency { config_key } => {
                out.append("is missing required dependency '");
                out.append(config_key.as_str());
                out.append("'");
            },
        }
        proof {
            assert(out@ =~= error_text(self@));
        }
        out
    }
}

/// What a reference in a list is.
pub open spec fn refs_view(refs: Seq<(RefKind, &str)>) -> Seq<RefView> {
    Seq::new(refs.len(), |i: int| (refs[i].0, refs[i].1@))
}

/// The instances that the settings of a capability name under the keys of its
/// dependencies. A dependency counts whenever there is an id, required or not.
/// An empty id counts as none, and none is a problem only where one is required.
pub fn dependency_refs<'a>(capability_config: &'a Json, dependencies: &Vec<Dependency>) -> (r:
    Result<Vec<(RefKind, &'a str)>, Problem>)
    ensures
        match r {
            Ok(refs) => dependency_targets(capability_config.tree(), dependencies@) == Ok::<
                Seq<RefView>,
                ProblemView,
            >(refs_view(refs@)),
            Err(problem) => dependency_targets(capability_config.tree(), dependencies@) == Err::<
                Seq<RefView>,
                ProblemView,
            >(problem@),
        },
{
    let mut refs: Vec<(RefKind, &'a str)> = Vec::new();
    let mut i: usize = 0;
    proof {
        assert(dependencies@.take(0) =~= Seq::<Dependency>::empty());
        assert(refs_view(refs@) =~= Seq::<RefView>::empty());
    }
    while i < dependencies.len()
        invariant
            i <= dependencies@.len(),
            dependency_targets(capability_config.tree(), dependencies@.take(i as int)) == Ok::<
                Seq<RefView>,
                ProblemView,
            >(refs_view(refs@)),
        decreases dependencies@.len() - i,
    {
        let ghost before = refs_view(refs@);
        proof {
            let here = dependencies@.take(i + 1);
            assert(here.drop_last() =~= dependencies@.take(i as int));
            assert(here.last() == dependencies@[i as int]);
        }
        let (kind, config_key, required) = match &dependencies[i] {
            Dependency::Model { config_key, required, .. } => (
                RefKind::Model,
                config_key,
                *required,
            ),
            Dependency::Provider { config_key, required, .. } => (
                RefKind::Provider,
                config_key,
                *required,
            ),
            Dependency::ExternalTool { .. } => {
                i += 1;
                continue ;
            },
        };
        let id: &'a str = match capability_config.text_field(config_key.as_str()) {
            Some(id) => id,
            None => "",
        };
        proof {
            reveal_strlit("");
        }
        if id.is_empty() {
            if required {
                let problem = Problem::MissingDependency { config_key: config_key.clone() };
                proof {
                    lemma_first_problem_stays(
                        capability_config.tree(),
                        dependencies@,
                        i + 1,
                    );
                }
                return Err(problem);
            }
        } else {
            refs.push((kind, id));
            proof {
                assert(refs_view(refs@) =~= before.push((kind, id@)));
            }
        }
        i += 1;
    }
    proof {
        assert(dependencies@.take(i as int) =~= dependencies@);
    }
    Ok(refs)
}

/// A problem with the first dependencies is the problem of all of them.
proof fn lemma_first_problem_stays(settings: JsonTree, dependencies: Seq<Dependency>, n: int)
    requires
        0 <= n <= dependencies.len(),
        dependency_targets(settings, dependencies.take(n)) is Err,
    ensures
        dependency_targets(settings, dependencies) == dependency_targets(
            settings,
            dependencies.take(n),
        ),
    decreases dependencies.len() - n,
{
    if n < dependencies.len() {
        assert(dependencies.take(n + 1).drop_last() =~= dependencies.take(n));
        lemma_first_problem_stays(settings, dependencies, n + 1);
    } else {
        assert(dependencies.take(n) =~= dependencies);
    }
}

/// The dependencies of a capability name models and providers only.
proof fn lemma_dependency_kinds(settings: JsonTree, dependencies: Seq<Dependency>)
    ensures
        dependency_targets(settings, dependencies) matches Ok(refs) ==> forall|i: int|
            0 <= i < refs.len() ==> rank((#[trigger] refs[i]).0) < rank(RefKind::Capability),
    decreases dependencies.len(),
{
    if dependencies.len() > 0 {
        lemma_dependency_kinds(settings, dependencies.drop_last());
    }
}

/// An instance refers to instances of lower rank only, so every walk ends.
pub proof fn law_references_go_down(config: Config, registries: Registries, at: RefView)
    ensures
        targets(config, registries, at) matches Ok(refs) ==> forall|i: int|
            0 <= i < refs.len() ==> rank((#[trigger] refs[i]).0) < rank(at.0),
{
    if at.0 == RefKind::Capability {
        let capability = config.capabilities@[at.1];
        let name = capability.capability_type@;
        lemma_dependency_kinds(
            capability.config.tree(),
            registries.capabilities.types()[name].metadata.dependencies@,
        );
    }
}

impl LauncherConfig {
    /// The capabilities that the launcher enables.
    fn refs(&self) -> (r: Vec<(RefKind, &str)>)
        ensures
            refs_view(r@) == enabled(*self),
    {
        let mut refs: Vec<(RefKind, &str)> = Vec::new();
        let mut i: usize = 0;
        while i < self.enabled_capabilities.len()
            invariant
                i <= self.enabled_capabilities@.len(),
                refs@.len() == i,
                forall|j: int|
                    #![trigger refs@[j]]
                    0 <= j < i ==> refs@[j].0 == RefKind::Capability && refs@[j].1@
                        == self.enabled_capabilities@[j]@,
            decreases self.enabled_capabilities@.len() - i,
        {
            refs.push((RefKind::Capability, self.enabled_capabilities[i].as_str()));
            i += 1;
        }
        proof {
            assert(refs_view(refs@) =~= enabled(*self));
        }
        refs
    }
}

impl CapabilityConfig {
    /// What the capability refers to: its settings hold the ids, and only the
    /// registry says under which keys.
    pub fn refs(&self, registries: &Registries) -> (r: Result<Vec<(RefKind, &str)>, Problem>)
        ensures
            capability_targets(*self, *registries) == (match r {
                Ok(refs) => Ok(refs_view(refs@)),
                Err(problem) => Err(problem@),
            }),
    {
        match registries.capabilities.get(self.capability_type.as_str()) {
            Some(metadata) => dependency_refs(&self.config, &metadata.dependencies),
            None => Err(Problem::UnknownType { type_key: self.capability_type.clone() }),
        }
    }
}

impl ModelConfig {
    /// The provider that serves the model. To name none is a problem of its own.
    fn refs(&self) -> (r: Result<Vec<(RefKind, &str)>, Problem>)
        ensures
            model_targets(*self) == (match r {
                Ok(refs) => Ok(refs_view(refs@)),
                Err(problem) => Err(problem@),
            }),
    {
        match &self.provider_id {
            Some(provider_id) => {
                let mut refs: Vec<(RefKind, &str)> = Vec::new();
                refs.push((RefKind::Provider, provider_id.as_str()));
                proof {
                    assert(refs_view(refs@) =~= seq![(RefKind::Provider, provider_id@)]);
                }
                Ok(refs)
            },
            None => Err(Problem::NoProviderConfigured),
        }
    }
}

/// The type name of a configured instance.
pub fn type_key<'a>(config: &'a Config, kind: RefKind, id: &str) -> (r: Option<&'a str>)
    ensures
        type_of(*config, (kind, id@)) == (match r {
            Some(name) => Some(name@),
            None => None,
        }),
{
    match kind {
        RefKind::Launcher => match config.launchers.get(id) {
            Some(entry) => Some(entry.launcher_type.as_str()),
            None => None,
        },
        RefKind::Capability => match config.capabilities.get(id) {
            Some(entry) => Some(entry.capability_type.as_str()),
            None => None,
        },
        RefKind::Model => match config.models.get(id) {
            Some(entry) => Some(entry.model_type.as_str()),
            None => None,
        },
        RefKind::Provider => match config.providers.get(id) {
            Some(entry) => Some(entry.provider_type.as_str()),
            None => None,
        },
    }
}

/// Tells whether a type name is in the registry of a kind.
fn type_is_registered(registries: &Registries, kind: RefKind, name: &str) -> (r: bool)
    ensures
        r == is_registered(*registries, kind, name@),
{
    match kind {
        RefKind::Launcher => registries.launchers.contains_key(name),
        RefKind::Capability => registries.capabilities.get(name).is_some(),
        RefKind::Model => registries.models.get(name).is_some(),
        RefKind::Provider => registries.providers.contains_key(name),
    }
}

/// What a configured instance refers to.
fn refs<'a>(config: &'a Config, registries: &Registries, kind: RefKind, id: &str) -> (r: Result<
    Vec<(RefKind, &'a str)>,
    Problem,
>)
    requires
        type_of(*config, (kind, id@)) is Some,
    ensures
        targets(*config, *registries, (kind, id@)) == (match r {
            Ok(refs) => Ok(refs_view(refs@)),
            Err(problem) => Err(problem@),
        }),
{
    match kind {
        RefKind::Launcher => match config.launchers.get(id) {
            Some(entry) => Ok(entry.refs()),
            None => Err(Problem::NotConfigured),
        },
        RefKind::Capability => match config.capabilities.get(id) {
            Some(entry) => entry.refs(registries),
            None => Err(Problem::NotConfigured),
        },
        RefKind::Model => match config.models.get(id) {
            Some(entry) => entry.refs(),
            None => Err(Problem::NotConfigured),
        },
        RefKind::Provider => {
            let none: Vec<(RefKind, &'a str)> = Vec::new();
            proof {
                assert(refs_view(none@) =~= Seq::<RefView>::empty());
            }
            Ok(none)
        },
    }
}

/// What a referrer is.
pub open spec fn referrer_view(referrer: Option<(RefKind, &str)>) -> Option<RefView> {
    match referrer {
        Some(r) => Some((r.0, r.1@)),
        None => None,
    }
}

/// A broken reference.
fn broken(kind: RefKind, id: &str, problem: Problem, referrer: Option<(RefKind, &str)>) -> (r:
    ValidationError)
    ensures
        r@ == (ErrorView {
            target: (kind, id@),
            problem: problem@,
            referrer: referrer_view(referrer),
        }),
{
    ValidationError {
        target: (kind, id.to_owned()),
        problem,
        referrer: match referrer {
            Some((k, i)) => Some((k, i.to_owned())),
            None => None,
        },
    }
}

/// Validates one instance that `referrer` led to: it is configured, its type is
/// registered, and everything it refers to validates in turn.
pub fn validate(
    kind: RefKind,
    id: &str,
    config: &Config,
    registries: &Registries,
    referrer: Option<(RefKind, &str)>,
) -> (r: Result<(), ValidationError>)
    ensures
        first_error(*config, *registries, (kind, id@), referrer_view(referrer)) == (match r {
            Ok(_) => None,
            Err(error) => Some(error@),
        }),
    decreases rank(kind),
{
    let ghost at: RefView = (kind, id@);
    let name = match type_key(config, kind, id) {
        Some(name) => name,
        None => {
            return Err(broken(kind, id, Problem::NotConfigured, referrer));
        },
    };
    if !type_is_registered(registries, kind, name) {
        return Err(
            broken(kind, id, Problem::UnknownType { type_key: name.to_owned() }, referrer),
        );
    }
    let refs = match refs(config, registries, kind, id) {
        Ok(refs) => refs,
        Err(problem) => {
            return Err(broken(kind, id, problem, referrer));
        },
    };
    let ghost all = refs_view(refs@);
    proof {
        law_references_go_down(*config, *registries, at);
        assert(all.take(0) =~= Seq::<RefView>::empty());
    }
    let mut i: usize = 0;
    while i < refs.len()
        invariant
            at == (kind, id@),
            all == refs_view(refs@),
            i <= refs@.len(),
            own_problem(*config, *registries, at) is None,
            targets(*config, *registries, at) == Ok::<Seq<RefView>, ProblemView>(all),
            forall|j: int| 0 <= j < all.len() ==> rank((#[trigger] all[j]).0) < rank(kind),
            first_error_among(*config, *registries, at, all.take(i as int)) is None,
        decreases refs@.len() - i,
    {
        let (target_kind, target_id) = refs[i];
        proof {
            assert(all[i as int] == (target_kind, target_id@));
            let here = all.take(i + 1);
            assert(here.drop_last() =~= all.take(i as int));
            assert(here.last() == all[i as int]);
        }
        match validate(target_kind, target_id, config, registries, Some((kind, id))) {
            Ok(_) => {},
            Err(error) => {
                proof {
                    lemma_first_error_stays(*config, *registries, at, all, i + 1);
                }
                return Err(error);
            },
        }
        i += 1;
    }
    proof {
        assert(all.take(i as int) =~= all);
    }
    Ok(())
}

/// The first error among the first targets is the first error among all of them.
proof fn lemma_first_error_stays(
    config: Config,
    registries: Registries,
    at: RefView,
    refs: Seq<RefView>,
    n: int,
)
    requires
        0 <= n <= refs.len(),
        first_error_among(config, registries, at, refs.take(n)) is Some,
    ensures
        first_error_among(config, registries, at, refs) == first_error_among(
            config,
            registries,
            at,
            refs.take(n),
        ),
    decreases refs.len() - n,
{
    if n < refs.len() {
        assert(refs.take(n + 1).drop_last() =~= refs.take(n));
        lemma_first_error_stays(config, registries, at, refs, n + 1);
    } else {
        assert(refs.take(n) =~= refs);
    }
}

/// Validates that the references of an instance resolve, one step at a time
/// through whatever it refers to. A launcher leads to the capabilities that it
/// enables, those to their models, and those to their providers. The first
/// broken reference on the way is reported.
pub fn validate_ref(kind: RefKind, id: &str, config: &Config, registries: &Registries) -> (r:
    Result<(), ValidationError>)
    ensures
        first_error(*config, *registries, (kind, id@), None) == (match r {
            Ok(_) => None,
            Err(error) => Some(error@),
        }),
{
    validate(kind, id, config, registries, None)
}

/// An instance with a broken reference.
pub struct DanglingView {
    pub kind: RefKind,
    pub instance_id: Seq<char>,
    pub reason: Seq<char>,
}

impl View for DanglingRef {
    type V = DanglingView;

    open spec fn view(&self) -> DanglingView {
        DanglingView {
            kind: self.kind,
            instance_id: self.instance_id@,
            reason: self.reason@,
        }
    }
}

/// The ids that the configured instances of a kind carry, in their order.
pub open spec fn ids(config: Config, kind: RefKind) -> Seq<Seq<char>> {
    match kind {
        RefKind::Launcher => config.launchers.values().map_values(
            |entry: LauncherConfig| entry.launcher_id@,
        ),
        RefKind::Capability => config.capabilities.values().map_values(
            |entry: CapabilityConfig| entry.capability_id@,
        ),
        RefKind::Model => config.models.values().map_values(|entry: ModelConfig| entry.model_id@),
        RefKind::Provider => config.providers.values().map_values(
            |entry: ProviderConfig| entry.provider_id@,
        ),
    }
}

/// The instances among those with the given ids that do not validate, in their
/// order, each with its error in words.
pub open spec fn dangling(
    config: Config,
    registries: Registries,
    kind: RefKind,
    ids: Seq<Seq<char>>,
) -> Seq<DanglingView>
    decreases ids.len(),
{
    if ids.len() == 0 {
        Seq::empty()
    } else {
        let earlier = dangling(config, registries, kind, ids.drop_last());
        match first_error(config, registries, (kind, ids.last()), None) {
            Some(error) => earlier.push(
                DanglingView { kind, instance_id: ids.last(), reason: error_text(error) },
            ),
            None => earlier,
        }
    }
}

/// What the entries of a list are.
pub open spec fn dangling_view(found: Seq<DanglingRef>) -> Seq<DanglingView> {
    found.map_values(|d: DanglingRef| d@)
}

/// The number of configured instances of a kind.
fn count(config: &Config, kind: RefKind) -> (r: usize)
    ensures
        r == ids(*config, kind).len(),
{
    match kind {
        RefKind::Launcher => config.launchers.len(),
        RefKind::Capability => config.capabilities.len(),
        RefKind::Model => config.models.len(),
        RefKind::Provider => config.providers.len(),
    }
}

/// The id that the instance of a kind at a position carries.
fn id_at<'a>(config: &'a Config, kind: RefKind, i: usize) -> (r: &'a str)
    requires
        i < ids(*config, kind).len(),
    ensures
        r@ == ids(*config, kind)[i as int],
{
    match kind {
        RefKind::Launcher => {
            proof {
                config.launchers.lemma_lengths();
            }
            config.launchers.at(i).1.launcher_id.as_str()
        },
        RefKind::Capability => {
            proof {
                config.capabilities.lemma_lengths();
            }
            config.capabilities.at(i).1.capability_id.as_str()
        },
        RefKind::Model => {
            proof {
                config.models.lemma_lengths();
            }
            config.models.at(i).1.model_id.as_str()
        },
        RefKind::Provider => {
            proof {
                config.providers.lemma_lengths();
            }
            config.providers.at(i).1.provider_id.as_str()
        },
    }
}

/// Validates every configured instance of a kind and returns those that fail.
pub fn find_dangling(kind: RefKind, config: &Config, registries: &Registries) -> (r: Vec<
    DanglingRef,
>)
    ensures
        dangling_view(r@) == dangling(*config, *registries, kind, ids(*config, kind)),
{
    let mut found: Vec<DanglingRef> = Vec::new();
    let ghost all = ids(*config, kind);
    let n: usize = count(config, kind);
    let mut i: usize = 0;
    proof {
        assert(all.take(0) =~= Seq::<Seq<char>>::empty());
        assert(dangling_view(found@) =~= Seq::<DanglingView>::empty());
    }
    while i < n
        invariant
            i <= n,
            n == all.len(),
            all == ids(*config, kind),
            dangling_view(found@) == dangling(*config, *registries, kind, all.take(i as int)),
        decreases n - i,
    {
        let ghost before = dangling_view(found@);
        let id = id_at(config, kind, i);
        proof {
            let here = all.take(i + 1);
            assert(here.drop_last() =~= all.take(i as int));
            assert(here.last() == id@);
        }
        match validate_ref(kind, id, config, registries) {
            Ok(_) => {},
            Err(error) => {
                let entry = DanglingRef {
                    kind,
                    instance_id: id.to_owned(),
                    reason: error.text(),
                };
                found.push(entry);
                proof {
                    assert(dangling_view(found@) =~= before.push(entry@));
                }
            },
        }
        i += 1;
    }
    proof {
        assert(all.take(i as int) =~= all);
    }
    found
}

} // verus!
