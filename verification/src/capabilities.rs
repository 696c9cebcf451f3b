//! The capabilities: what a launched tool can be given, and what each needs.

pub mod laws;
pub mod source;
pub mod sub_agent_explore;

use vstd::prelude::*;
use vstd::string::*;
use crate::capabilities::sub_agent_explore::ExploreSubAgentCapability;
use crate::providers::{ApiType, Secret};
use crate::config::Config;
use crate::json::{Json, JsonTree};
use crate::registry::{ConfigConstructable, Factory, Named};
use crate::models::ModelFunction;

verus! {

/// How a capability attaches to a launcher.
#[derive(Debug, Clone, Copy, PartialEq, Eq, Structural)]
pub enum BindingType {
    AgentModel,
    Mcp,
    SubAgent,
}

/// What a capability asks of a model.
#[derive(Debug)]
pub struct ModelRequirement {
    pub supported_functions: Vec<ModelFunction>,
}

/// What a capability asks of a provider.
#[derive(Debug)]
pub struct ProviderRequirement {
    /// The provider types that will do; any where there are none.
    pub provider_types: Vec<String>,
}

/// A command that a capability runs.
#[derive(Debug)]
pub struct ShellCommandRequirement {
    pub command: String,
}

/// Something that a capability needs to work.
#[derive(Debug)]
#[allow(inconsistent_fields)]
pub enum Dependency {
    /// A configured model, named in the capability's settings under `config_key`.
    Model {
        config_key: String,
        requirement: ModelRequirement,
        resolved_id: Option<String>,
        required: bool,
    },
    /// A configured provider, named in the capability's settings under `config_key`.
    Provider {
        config_key: String,
        requirement: ProviderRequirement,
        resolved_id: Option<String>,
        required: bool,
    },
    /// A command on the machine.
    ExternalTool { requirement: ShellCommandRequirement, required: bool },
}

/// What is known of a capability type without building one.
#[derive(Debug)]
pub struct CapabilityMetadata {
    pub name: String,
    pub description: String,
    pub dependencies: Vec<Dependency>,
    pub tags: Vec<String>,
    pub supported_binding_types: Vec<BindingType>,
}

/// The implementations of a capability type.
#[derive(Debug, Clone, Copy, PartialEq, Eq, Structural)]
pub enum CapabilityKind {
    AgentModel,
    VisionMcp,
    SubAgent,
    SubAgentCode,
    SubAgentExplore,
    SubAgentPlan,
}

/// The tools that a sub-agent may use.
#[derive(Debug, Clone, Copy, PartialEq, Eq, Structural)]
pub enum ToolName {
    FileRead,
    FileWrite,
    Search,
    Shell,
}

/// The sub-agents that a launcher may know by name.
#[derive(Debug, Clone, Copy, PartialEq, Eq, Structural)]
pub enum KnownSubAgent {
    Code,
    Explore,
    Plan,
}

/// What a launcher asks a capability for.
#[derive(Debug, Clone, Copy, PartialEq, Eq, Structural)]
pub enum BindingRequest {
    /// A model that speaks the given protocol.
    AgentModel { api_type: ApiType },
    /// An MCP server.
    Mcp,
    /// A sub-agent on a model that speaks the given protocol.
    SubAgent { api_type: ApiType },
}

/// A model for an agent: how it is reached.
pub struct AgentModelBinding {
    pub api_type: ApiType,
    pub provider_name: String,
    pub base_url: String,
    pub model_name: String,
    pub endpoint_path: String,
    pub api_key: Option<Secret>,
    pub verify_ssl: bool,
    pub context_length: Option<u64>,
}

/// An MCP server: how it is reached or started.
#[derive(Debug)]
#[allow(inconsistent_fields)]
pub enum McpBinding {
    Http { url: String, headers: Vec<(String, String)>, timeout: Option<u64> },
    Stdio { command: String, args: Vec<String>, env: Vec<(String, String)> },
}

/// A sub-agent: what it is told, what it may use, and the model that it runs on.
pub struct SubAgentBinding {
    pub description: String,
    pub prompt: String,
    pub tools: Vec<ToolName>,
    pub model: AgentModelBinding,
    pub known_type: Option<KnownSubAgent>,
}

/// What a capability hands to a launcher.
pub enum Binding {
    AgentModel(AgentModelBinding),
    Mcp(McpBinding),
    SubAgent(SubAgentBinding),
}

impl BindingType {
    /// The name of the type.
    pub open spec fn label(self) -> Seq<char> {
        match self {
            BindingType::AgentModel => "AgentModel"@,
            BindingType::Mcp => "Mcp"@,
            BindingType::SubAgent => "SubAgent"@,
        }
    }

    /// The name of the type.
    pub fn name(&self) -> (r: &'static str)
        ensures
            r@ == self.label(),
    {
        match self {
            BindingType::AgentModel => "AgentModel",
            BindingType::Mcp => "Mcp",
            BindingType::SubAgent => "SubAgent",
        }
    }
}

impl BindingRequest {
    /// What is asked for.
    pub open spec fn asked(self) -> BindingType {
        match self {
            BindingRequest::AgentModel { .. } => BindingType::AgentModel,
            BindingRequest::Mcp => BindingType::Mcp,
            BindingRequest::SubAgent { .. } => BindingType::SubAgent,
        }
    }

    /// What is asked for.
    pub fn binding_type(&self) -> (r: BindingType)
        ensures
            r == self.asked(),
    {
        match self {
            BindingRequest::AgentModel { .. } => BindingType::AgentModel,
            BindingRequest::Mcp => BindingType::Mcp,
            BindingRequest::SubAgent { .. } => BindingType::SubAgent,
        }
    }
}

impl Binding {
    /// What is handed over.
    pub open spec fn given(self) -> BindingType {
        match self {
            Binding::AgentModel(_) => BindingType::AgentModel,
            Binding::Mcp(_) => BindingType::Mcp,
            Binding::SubAgent(_) => BindingType::SubAgent,
        }
    }

    /// What is handed over.
    pub fn binding_type(&self) -> (r: BindingType)
        ensures
            r == self.given(),
    {
        match self {
            Binding::AgentModel(_) => BindingType::AgentModel,
            Binding::Mcp(_) => BindingType::Mcp,
            Binding::SubAgent(_) => BindingType::SubAgent,
        }
    }
}

/// A capability that was built from its configuration.
pub enum BuiltCapability {
    Explore(ExploreSubAgentCapability),
    /// One whose behaviour lies outside this library.
    Other { kind: CapabilityKind, instance_id: String, config: Json },
}

impl Named for BuiltCapability {
    fn instance_id(&self) -> (r: &str)
        ensures
            r@ == (match self {
                BuiltCapability::Explore(capability) => capability.instance_id@,
                BuiltCapability::Other { instance_id, .. } => instance_id@,
            }),
    {
        match self {
            BuiltCapability::Explore(capability) => capability.instance_id.as_str(),
            BuiltCapability::Other { instance_id, .. } => instance_id.as_str(),
        }
    }
}

impl CapabilityKind {
    /// Tells whether a capability is one of this kind with the given id and settings.
    pub open spec fn builds(
        self,
        instance_id: Seq<char>,
        cfg: JsonTree,
        global_config: Config,
        built: BuiltCapability,
    ) -> bool {
        if self == CapabilityKind::SubAgentExplore {
            built matches BuiltCapability::Explore(capability) && capability.made_from(
                instance_id,
                cfg,
                global_config,
            )
        } else {
            built matches BuiltCapability::Other { kind, instance_id: id, config } && kind == self
                && id@ == instance_id && config.tree() == cfg
        }
    }
}

impl ConfigConstructable for CapabilityKind {
    type Built = BuiltCapability;

    fn construct(&self, instance_id: &str, cfg: &Json, global_config: &Config) -> (built:
        BuiltCapability)
        ensures
            self.builds(instance_id@, cfg.tree(), *global_config, built),
    {
        if *self == CapabilityKind::SubAgentExplore {
            BuiltCapability::Explore(
                ExploreSubAgentCapability::new(instance_id, cfg, global_config),
            )
        } else {
            BuiltCapability::Other {
                kind: *self,
                instance_id: instance_id.to_owned(),
                config: cfg.copy(),
            }
        }
    }
}

/// The capability types, each under its name.
pub type CapabilityFactory = Factory<CapabilityMetadata, CapabilityKind>;

} // verus!
