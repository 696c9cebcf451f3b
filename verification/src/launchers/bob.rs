//! The launcher for the Bob command line.

use vstd::prelude::*;
use vstd::string::*;
use crate::capabilities::{Binding, BindingRequest, BindingType, McpBinding, SubAgentBinding};
use crate::config::Config;
use crate::json::{Json, JsonTree};
use crate::launchers::LauncherMetadata;
use crate::providers::ApiType;
use crate::registry::Named;

verus! {

/// The settings of the launcher.
#[derive(Debug)]
pub struct BobLauncherConfig {
    /// The `bob` program, where it is not the one on the search path.
    pub command_path: Option<String>,
    /// The `pi` program that runs sub-agents, where it is not the one on the search
    /// path. It has nothing to do with `command_path`.
    pub pi_command_path: Option<String>,
}

/// An optional text in settings: the text, nothing, or something else.
pub open spec fn optional_text(field: Option<JsonTree>) -> Option<Option<Seq<char>>> {
    match field {
        None => Some(None),
        Some(JsonTree::Null) => Some(None),
        Some(JsonTree::Str(s)) => Some(Some(s)),
        Some(_) => None,
    }
}

/// The two paths in settings. Settings that hold anything but a text under one of
/// the names count as empty.
pub open spec fn bob_settings(cfg: JsonTree) -> (Option<Seq<char>>, Option<Seq<char>>) {
    match (
        optional_text(cfg.record_field("command_path"@, 0)),
        optional_text(cfg.record_field("pi_command_path"@, 1)),
    ) {
        (Some(command_path), Some(pi_command_path)) => if cfg.is_record(2) {
            (command_path, pi_command_path)
        } else {
            (None, None)
        },
        _ => (None, None),
    }
}

/// The text that may be there.
pub open spec fn path_view(path: Option<String>) -> Option<Seq<char>> {
    match path {
        Some(path) => Some(path@),
        None => None,
    }
}

/// Reads an optional text.
fn read_optional(field: Option<&Json>) -> (r: Option<Option<String>>)
    ensures
        optional_text(
            match field {
                Some(v) => Some(v.tree()),
                None => None,
            },
        ) == (match r {
            Some(path) => Some(path_view(path)),
            None => None,
        }),
{
    match field {
        None => Some(None),
        Some(Json::Null) => Some(None),
        Some(Json::Str(s)) => Some(Some(s.clone())),
        Some(_) => None,
    }
}

impl BobLauncherConfig {
    /// Reads settings.
    pub fn read(cfg: &Json) -> (r: BobLauncherConfig)
        ensures
            (path_view(r.command_path), path_view(r.pi_command_path)) == bob_settings(cfg.tree()),
    {
        if cfg.is_record(2) {
            if let Some(command_path) = read_optional(cfg.record_field("command_path", 0)) {
                if let Some(pi_command_path) = read_optional(
                    cfg.record_field("pi_command_path", 1),
                ) {
                    return BobLauncherConfig { command_path, pi_command_path };
                }
            }
        }
        BobLauncherConfig { command_path: None, pi_command_path: None }
    }
}

/// The launcher, with what was bound to it.
pub struct BobLauncher {
    pub instance_id: String,
    pub config: BobLauncherConfig,
    /// The MCP servers to register while Bob runs, each under its name.
    pub bound_mcp_bindings: Vec<(String, McpBinding)>,
    /// The sub-agents, each under its name. They reach Bob through one MCP server
    /// for all of them.
    pub pending_sub_agents: Vec<(String, SubAgentBinding)>,
}

impl Named for BobLauncher {
    fn instance_id(&self) -> (r: &str)
        ensures
            r@ == self.instance_id@,
    {
        self.instance_id.as_str()
    }
}

/// The types among `types` that are not among `supported`.
pub open spec fn unsupported(types: Seq<BindingType>, supported: Seq<BindingType>) -> Seq<BindingType>
    decreases types.len(),
{
    if types.len() == 0 {
        Seq::empty()
    } else if supported.contains(types.last()) {
        unsupported(types.drop_last(), supported)
    } else {
        unsupported(types.drop_last(), supported).push(types.last())
    }
}

/// A list of types in words.
pub open spec fn types_text(types: Seq<BindingType>) -> Seq<char>
    decreases types.len(),
{
    if types.len() == 0 {
        Seq::empty()
    } else if types.len() == 1 {
        types[0].label()
    } else {
        types_text(types.drop_last()) + ", "@ + types.last().label()
    }
}

/// Why a capability cannot be bound.
pub open spec fn unsupported_text(types: Seq<BindingType>) -> Seq<char> {
    "capability supports ["@ + types_text(types) + "] which this launcher does not support"@
}

/// What is asked of a capability that attaches in the given ways: a sub-agent
/// where it can be one, else an MCP server.
pub open spec fn request_for(types: Seq<BindingType>) -> BindingRequest {
    if types.contains(BindingType::SubAgent) {
        BindingRequest::SubAgent { api_type: ApiType::OpenAI }
    } else {
        BindingRequest::Mcp
    }
}

/// Tells whether a type is in a list.
fn has_type(types: &Vec<BindingType>, wanted: BindingType) -> (r: bool)
    ensures
        r == types@.contains(wanted),
{
    let mut i: usize = 0;
    while i < types.len()
        invariant
            i <= types@.len(),
            forall|j: int| 0 <= j < i ==> types@[j] != wanted,
        decreases types@.len() - i,
    {
        if types[i] == wanted {
            proof {
                assert(types@[i as int] == wanted);
            }
            return true;
        }
        i += 1;
    }
    false
}

/// The types among `types` that are not among `supported`.
fn find_unsupported(types: &Vec<BindingType>, supported: &Vec<BindingType>) -> (r: Vec<BindingType>)
    ensures
        r@ == unsupported(types@, supported@),
{
    let mut out: Vec<BindingType> = Vec::new();
    let mut i: usize = 0;
    proof {
        assert(types@.take(0) =~= Seq::<BindingType>::empty());
    }
    while i < types.len()
        invariant
            i <= types@.len(),
            out@ == unsupported(types@.take(i as int), supported@),
        decreases types@.len() - i,
    {
        proof {
            let here = types@.take(i + 1);
            assert(here.drop_last() =~= types@.take(i as int));
            assert(here.last() == types@[i as int]);
        }
        if !has_type(supported, types[i]) {
            out.push(types[i]);
        }
        i += 1;
    }
    proof {
        assert(types@.take(i as int) =~= types@);
    }
    out
}

/// A list of types in words.
fn list_types(types: &Vec<BindingType>) -> (r: String)
    ensures
        r@ == types_text(types@),
{
    let mut out = String::new();
    let mut i: usize = 0;
    proof {
        assert(types@.take(0) =~= Seq::<BindingType>::empty());
        assert(out@ =~= types_text(types@.take(0)));
    }
    while i < types.len()
        invariant
            i <= types@.len(),
            out@ == types_text(types@.take(i as int)),
        decreases types@.len() - i,
    {
        let ghost before = out@;
        proof {
            let here = types@.take(i + 1);
            assert(here.drop_last() =~= types@.take(i as int));
            assert(here.last() == types@[i as int]);
        }
        if i > 0 {
            out.append(", ");
        }
        out.append(types[i].name());
        proof {
            if i == 0 {
                assert(before =~= Seq::<char>::empty());
                assert(out@ =~= types@[0].label());
            }
        }
        i += 1;
    }
    proof {
        assert(types@.take(i as int) =~= types@);
    }
    out
}

/// What a launcher says to a capability that hands over something else.
pub open spec fn mismatch_text(wanted: BindingType, given: BindingType) -> Seq<char> {
    (match wanted {
        BindingType::SubAgent => "expected a SubAgent binding, got "@,
        _ => "expected an Mcp binding, got "@,
    }) + given.label()
}

/// The server through which Bob reaches the sub-agents.
pub open spec fn delegate_name() -> Seq<char> {
    "bob-sub-agents"@
}

/// Tells whether this is what is known of Bob without building the launcher.
pub open spec fn is_bob(metadata: LauncherMetadata) -> bool {
    &&& metadata.name@ == "Bob CLI"@
    &&& metadata.description@ == "IBM Bob AI assistant CLI"@
    &&& metadata.default_command@ == "bob"@
    &&& metadata.supported_capabilities@ == seq![BindingType::Mcp, BindingType::SubAgent]
    &&& metadata.tags@.len() == 2
    &&& metadata.tags@[0]@ == "bob"@
    &&& metadata.tags@[1]@ == "ibm"@
}

impl BobLauncher {
    /// Makes the launcher from its id and its settings. Nothing is bound yet.
    pub fn new(instance_id: &str, cfg: &Json, _global_config: &Config) -> (r: BobLauncher)
        ensures
            r.instance_id@ == instance_id@,
            (path_view(r.config.command_path), path_view(r.config.pi_command_path)) == bob_settings(
                cfg.tree(),
            ),
            r.bound_mcp_bindings@.len() == 0,
            r.pending_sub_agents@.len() == 0,
    {
        BobLauncher {
            instance_id: instance_id.to_owned(),
            config: BobLauncherConfig::read(cfg),
            bound_mcp_bindings: Vec::new(),
            pending_sub_agents: Vec::new(),
        }
    }

    /// The name of the launcher.
    pub fn name(&self) -> (r: &'static str)
        ensures
            r@ == "Bob CLI"@,
    {
        "Bob CLI"
    }

    /// The program to start.
    pub fn command(&self) -> (r: &str)
        ensures
            r@ == (match self.config.command_path {
                Some(path) => path@,
                None => "bob"@,
            }),
    {
        match &self.config.command_path {
            Some(path) => path.as_str(),
            None => "bob",
        }
    }

    /// How capabilities can attach to the launcher.
    pub fn supported_capabilities() -> (r: Vec<BindingType>)
        ensures
            r@ == seq![BindingType::Mcp, BindingType::SubAgent],
    {
        let mut types: Vec<BindingType> = Vec::new();
        types.push(BindingType::Mcp);
        types.push(BindingType::SubAgent);
        proof {
            assert(types@ =~= seq![BindingType::Mcp, BindingType::SubAgent]);
        }
        types
    }

    /// What is known of the launcher without building one.
    pub fn metadata() -> (r: LauncherMetadata)
        ensures
            is_bob(r),
    {
        let mut tags: Vec<String> = Vec::new();
        tags.push("bob".to_owned());
        tags.push("ibm".to_owned());
        LauncherMetadata {
            name: "Bob CLI".to_owned(),
            description: "IBM Bob AI assistant CLI".to_owned(),
            default_command: "bob".to_owned(),
            supported_capabilities: BobLauncher::supported_capabilities(),
            tags,
        }
    }

    /// What to ask of a capability that attaches in the given ways, or why it cannot
    /// be bound.
    pub fn bind_request(&self, capability_types: &Vec<BindingType>) -> (r: Result<
        BindingRequest,
        String,
    >)
        ensures
            ({
                let missing = unsupported(
                    capability_types@,
                    seq![BindingType::Mcp, BindingType::SubAgent],
                );
                if missing.len() == 0 {
                    r == Ok::<BindingRequest, String>(request_for(capability_types@))
                } else {
                    r matches Err(message) && message@ == unsupported_text(missing)
                }
            }),
    {
        let supported = BobLauncher::supported_capabilities();
        let missing = find_unsupported(capability_types, &supported);
        if missing.len() > 0 {
            let mut message = "capability supports [".to_owned();
            message.append(list_types(&missing).as_str());
            message.append("] which this launcher does not support");
            return Err(message);
        }
        if has_type(capability_types, BindingType::SubAgent) {
            Ok(BindingRequest::SubAgent { api_type: ApiType::OpenAI })
        } else {
            Ok(BindingRequest::Mcp)
        }
    }

    /// Binds a capability that attaches in the given ways, given what it handed over
    /// for the request. It has to be what was asked for.
    pub fn bind_capability(
        &mut self,
        instance_id: &str,
        capability_types: &Vec<BindingType>,
        binding: Result<Binding, String>,
    ) -> (r: Result<(), String>)
        ensures
            final(self).instance_id == old(self).instance_id,
            final(self).config == old(self).config,
            r is Err ==> *final(self) == *old(self),
            ({
                let missing = unsupported(
                    capability_types@,
                    seq![BindingType::Mcp, BindingType::SubAgent],
                );
                let asked = request_for(capability_types@).asked();
                if missing.len() > 0 {
                    r matches Err(message) && message@ == unsupported_text(missing)
                } else {
                    match binding {
                        Err(reason) => r == Err::<(), String>(reason),
                        Ok(given) => if asked != given.given() {
                            r matches Err(message) && message@ == mismatch_text(
                                asked,
                                given.given(),
                            )
                        } else {
                            r is Ok
                        },
                    }
                }
            }),
            r is Ok ==> match binding {
                Ok(Binding::SubAgent(agent)) => {
                    &&& final(self).bound_mcp_bindings == old(self).bound_mcp_bindings
                    &&& added(
                        old(self).pending_sub_agents@,
                        final(self).pending_sub_agents@,
                        instance_id@,
                        agent,
                    )
                },
                Ok(Binding::Mcp(server)) => {
                    &&& final(self).pending_sub_agents == old(self).pending_sub_agents
                    &&& added(
                        old(self).bound_mcp_bindings@,
                        final(self).bound_mcp_bindings@,
                        instance_id@,
                        server,
                    )
                },
                _ => false,
            },
    {
        let request = match self.bind_request(capability_types) {
            Ok(request) => request,
            Err(message) => {
                return Err(message);
            },
        };
        let binding = match binding {
            Ok(binding) => binding,
            Err(reason) => {
                return Err(reason);
            },
        };
        let given = binding.binding_type();
        match request {
            BindingRequest::SubAgent { .. } => match binding {
                Binding::SubAgent(agent) => {
                    self.pending_sub_agents.push((instance_id.to_owned(), agent));
                    proof {
                        assert(self.pending_sub_agents@.drop_last() =~= old(
                            self,
                        ).pending_sub_agents@);
                    }
                    Ok(())
                },
                _ => {
                    let mut message = "expected a SubAgent binding, got ".to_owned();
                    message.append(given.name());
                    Err(message)
                },
            },
            _ => match binding {
                Binding::Mcp(server) => {
                    self.bound_mcp_bindings.push((instance_id.to_owned(), server));
                    proof {
                        assert(self.bound_mcp_bindings@.drop_last() =~= old(
                            self,
                        ).bound_mcp_bindings@);
                    }
                    Ok(())
                },
                _ => {
                    let mut message = "expected an Mcp binding, got ".to_owned();
                    message.append(given.name());
                    Err(message)
                },
            },
        }
    }

    /// Tells whether Bob needs the server through which it reaches the sub-agents.
    pub fn needs_delegate(&self) -> (r: bool)
        ensures
            r == (self.pending_sub_agents@.len() > 0),
    {
        self.pending_sub_agents.len() > 0
    }

    /// The arguments that Bob is started with. Its own sub-agents are turned off
    /// where it gets them through a server.
    pub fn launch_args(&self, args: Vec<String>) -> (r: Vec<String>)
        ensures
            if self.pending_sub_agents@.len() > 0 {
                &&& r@.len() == args@.len() + 1
                &&& r@.drop_last() == args@
                &&& r@.last()@ == "--disable-subagents"@
            } else {
                r == args
            },
    {
        let mut args = args;
        if self.pending_sub_agents.len() > 0 {
            let ghost before = args@;
            args.push("--disable-subagents".to_owned());
            proof {
                assert(args@.drop_last() =~= before);
            }
        }
        args
    }

    /// The servers to register while Bob runs, each under its name: those that were
    /// bound, and last the one for the sub-agents where it is needed.
    pub fn launch_servers<'a>(&'a self, delegate: Option<&'a McpBinding>) -> (r: Vec<
        (&'a str, &'a McpBinding),
    >)
        requires
            delegate is Some <==> self.pending_sub_agents@.len() > 0,
        ensures
            r@.len() == self.bound_mcp_bindings@.len() + (if delegate is Some {
                1int
            } else {
                0int
            }),
            forall|i: int|
                #![trigger r@[i]]
                0 <= i < self.bound_mcp_bindings@.len() ==> r@[i].0@
                    == self.bound_mcp_bindings@[i].0@ && *r@[i].1 == self.bound_mcp_bindings@[i].1,
            delegate matches Some(server) ==> r@.last().0@ == delegate_name() && *r@.last().1
                == *server,
    {
        let mut servers: Vec<(&'a str, &'a McpBinding)> = Vec::new();
        let mut i: usize = 0;
        while i < self.bound_mcp_bindings.len()
            invariant
                i <= self.bound_mcp_bindings@.len(),
                servers@.len() == i,
                forall|j: int|
                    #![trigger servers@[j]]
                    0 <= j < i ==> servers@[j].0@ == self.bound_mcp_bindings@[j].0@
                        && *servers@[j].1 == self.bound_mcp_bindings@[j].1,
            decreases self.bound_mcp_bindings@.len() - i,
        {
            let entry = &self.bound_mcp_bindings[i];
            servers.push((entry.0.as_str(), &entry.1));
            i += 1;
        }
        if let Some(server) = delegate {
            servers.push(("bob-sub-agents", server));
        }
        servers
    }
}

/// Tells whether a list has one more entry at its end.
pub open spec fn added<T>(
    before: Seq<(String, T)>,
    after: Seq<(String, T)>,
    name: Seq<char>,
    value: T,
) -> bool {
    &&& after.len() == before.len() + 1
    &&& after.drop_last() == before
    &&& after.last().0@ == name
    &&& after.last().1 == value
}

/// The directory in a workspace that Bob keeps its settings in, and expects to be
/// there when a server is registered.
pub const WORKSPACE_CONFIG_DIR: &'static str = ".bob";

/// What is done next to launch Bob.
#[derive(Debug, Clone, Copy, PartialEq, Eq, Structural)]
pub enum LaunchStep {
    /// Create the directory for Bob's settings in the workspace.
    CreateConfigDir,
    /// Register the server at this position.
    Register(usize),
    /// Run Bob.
    Run,
    /// Remove the server at this position. A failure does not matter.
    Remove(usize),
    /// Shut the server for the sub-agents down.
    ShutDownDelegate,
    /// Nothing: the launch is over.
    Finished,
}

/// A launch of Bob.
#[derive(Debug, Clone, Copy, PartialEq, Eq, Structural)]
pub struct LaunchRun {
    /// The number of servers to register while Bob runs.
    pub servers: usize,
    /// Whether one of them is the one for the sub-agents.
    pub delegate: bool,
    pub step: LaunchStep,
}

/// The step after Bob ran and the first `removed` servers are removed.
pub open spec fn after_removing(servers: usize, delegate: bool, removed: int) -> LaunchStep {
    if removed < servers {
        LaunchStep::Remove(removed as usize)
    } else if delegate {
        LaunchStep::ShutDownDelegate
    } else {
        LaunchStep::Finished
    }
}

/// The step after the first `registered` servers are registered.
pub open spec fn after_registering(servers: usize, registered: int) -> LaunchStep {
    if registered < servers {
        LaunchStep::Register(registered as usize)
    } else {
        LaunchStep::Run
    }
}

impl LaunchRun {
    /// The first step of a launch. A dry run does not touch the workspace, and
    /// neither does a launch without servers.
    pub open spec fn first_step(servers: usize, dry_run: bool) -> LaunchStep {
        if servers > 0 && !dry_run {
            LaunchStep::CreateConfigDir
        } else {
            after_registering(servers, 0)
        }
    }

    /// The step after this one, given whether it worked. A failure before Bob runs
    /// ends the launch; Bob's own failure and failures after it do not.
    pub open spec fn next_step(self, worked: bool) -> LaunchStep {
        match self.step {
            LaunchStep::CreateConfigDir => if worked {
                after_registering(self.servers, 0)
            } else {
                LaunchStep::Finished
            },
            LaunchStep::Register(i) => if worked {
                after_registering(self.servers, i + 1)
            } else {
                LaunchStep::Finished
            },
            LaunchStep::Run => after_removing(self.servers, self.delegate, 0),
            LaunchStep::Remove(i) => after_removing(self.servers, self.delegate, i + 1),
            LaunchStep::ShutDownDelegate => LaunchStep::Finished,
            LaunchStep::Finished => LaunchStep::Finished,
        }
    }

    /// Begins a launch.
    pub fn start(servers: usize, delegate: bool, dry_run: bool) -> (r: LaunchRun)
        ensures
            r.servers == servers,
            r.delegate == delegate,
            r.step == LaunchRun::first_step(servers, dry_run),
    {
        let step = if servers > 0 && !dry_run {
            LaunchStep::CreateConfigDir
        } else if servers > 0 {
            LaunchStep::Register(0)
        } else {
            LaunchStep::Run
        };
        LaunchRun { servers, delegate, step }
    }

    /// Goes on to the next step, given whether the last one worked.
    pub fn advance(&mut self, worked: bool)
        ensures
            final(self).servers == old(self).servers,
            final(self).delegate == old(self).delegate,
            final(self).step == old(self).next_step(worked),
    {
        let step = match self.step {
            LaunchStep::CreateConfigDir => if !worked {
                LaunchStep::Finished
            } else if self.servers > 0 {
                LaunchStep::Register(0)
            } else {
                LaunchStep::Run
            },
            LaunchStep::Register(i) => if !worked {
                LaunchStep::Finished
            } else if self.servers > 0 && i < self.servers - 1 {
                LaunchStep::Register(i + 1)
            } else {
                LaunchStep::Run
            },
            LaunchStep::Run => if self.servers > 0 {
                LaunchStep::Remove(0)
            } else if self.delegate {
                LaunchStep::ShutDownDelegate
            } else {
                LaunchStep::Finished
            },
            LaunchStep::Remove(i) => if self.servers > 0 && i < self.servers - 1 {
                LaunchStep::Remove(i + 1)
            } else if self.delegate {
                LaunchStep::ShutDownDelegate
            } else {
                LaunchStep::Finished
            },
            LaunchStep::ShutDownDelegate => LaunchStep::Finished,
            LaunchStep::Finished => LaunchStep::Finished,
        };
        self.step = step;
    }
}

/// The step at a position of a launch in which nothing goes wrong before Bob runs:
/// the directory where it is needed, every server, Bob, every server again, and the
/// server for the sub-agents where there is one.
pub open spec fn step_at(servers: usize, delegate: bool, dry_run: bool, k: int) -> LaunchStep {
    let n = servers as int;
    let first: int = if n > 0 && !dry_run {
        1
    } else {
        0
    };
    if k < first {
        LaunchStep::CreateConfigDir
    } else if k < first + n {
        LaunchStep::Register((k - first) as usize)
    } else if k == first + n {
        LaunchStep::Run
    } else if k <= first + n + n {
        LaunchStep::Remove((k - (first + n + 1)) as usize)
    } else if delegate && k == first + n + n + 1 {
        LaunchStep::ShutDownDelegate
    } else {
        LaunchStep::Finished
    }
}

/// A launch registers every server before Bob runs and removes every one of them
/// afterwards, whether Bob or a removal failed or not, and then shuts down the
/// server for the sub-agents where there is one.
pub proof fn law_launch_removes_what_it_registers(
    servers: usize,
    delegate: bool,
    dry_run: bool,
    k: int,
    worked: bool,
)
    requires
        0 <= k,
        ({
            let step = step_at(servers, delegate, dry_run, k);
            worked || !(step is CreateConfigDir || step is Register)
        }),
    ensures
        step_at(servers, delegate, dry_run, 0) == LaunchRun::first_step(servers, dry_run),
        (LaunchRun { servers, delegate, step: step_at(servers, delegate, dry_run, k) }).next_step(
            worked,
        ) == step_at(servers, delegate, dry_run, k + 1),
{
}

} // verus!
