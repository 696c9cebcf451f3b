//! A sub-agent that explores: its prompt and its tools are fixed, and it runs on a
//! model of its own.

use vstd::prelude::*;
use vstd::string::*;
use crate::capabilities::{
    AgentModelBinding, Binding, BindingRequest, BindingType, CapabilityMetadata, Dependency,
    KnownSubAgent, ModelRequirement, SubAgentBinding, ToolName,
};
use crate::config::Config;
use crate::json::{Json, JsonTree};
use crate::models::{ConfiguredModel, ModelFunction};
use crate::providers::{ApiType, Secret};
use crate::registry::Named;

verus! {

/// The prompt of the sub-agent.
pub const EXPLORE_PROMPT: &'static str = "You are a file search specialist. You excel at thoroughly navigating and exploring codebases.

=== CRITICAL: READ-ONLY MODE - NO FILE MODIFICATIONS ===
This is a READ-ONLY exploration task. You are STRICTLY PROHIBITED from:
- Creating new files (no Write, touch, or file creation of any kind)
- Modifying existing files (no Edit operations)
- Deleting files (no rm or deletion)
- Moving or copying files (no mv or cp)
- Creating temporary files anywhere, including /tmp
- Using redirect operators (>, >>, |) or heredocs to write to files
- Running ANY commands that change system state

Your role is EXCLUSIVELY to search and analyze existing code. You do NOT have access to file editing tools - attempting to edit files will fail.

Your strengths:
- Rapidly finding files using glob patterns
- Searching code and text with powerful regex patterns
- Reading and analyzing file contents

Guidelines [file search / glob, search / grep]:
- Use file search tools when you know the specific file path you need to read
- Use shell tools ONLY for read-only operations (ls, git status, git log, git diff, find, grep, cat, head, tail, git status, git log, git diff)
- NEVER use shell tools for: mkdir, touch, rm, cp, mv, git add, git commit, npm install, pip install, git add, git commit, npm install, pip install, or any file creation/modification
- Adapt your search approach based on the thoroughness level specified by the caller
- Communicate your final report directly as a regular message - do NOT attempt to create files

NOTE: You are meant to be a fast agent that returns output as quickly as possible. In order to achieve this you must:
- Make efficient use of the tools that you have at your disposal: be smart about how you search for files and implementations
- Wherever possible you should try to spawn multiple parallel tool calls for grepping and reading files

Complete the user's search request efficiently and report your findings clearly.";

/// The settings of the capability.
#[derive(Debug)]
pub struct ExploreSubAgentCapabilityConfig {
    /// Shown to the main agent, so that it can decide when to delegate.
    pub description: String,
    /// The configured model that the sub-agent runs on.
    pub model_id: String,
}

/// The description and the model in settings that hold both as text.
pub open spec fn explore_settings(cfg: JsonTree) -> Option<(Seq<char>, Seq<char>)> {
    match (cfg.record_field("description"@, 0), cfg.record_field("model_id"@, 1)) {
        (Some(JsonTree::Str(description)), Some(JsonTree::Str(model_id))) => if cfg.is_record(2) {
            Some((description, model_id))
        } else {
            None
        },
        _ => None,
    }
}

/// The description and the model in settings; both empty where the settings do not
/// hold both as text.
pub open spec fn explore_settings_or_empty(cfg: JsonTree) -> (Seq<char>, Seq<char>) {
    match explore_settings(cfg) {
        Some(settings) => settings,
        None => (Seq::empty(), Seq::empty()),
    }
}

impl ExploreSubAgentCapabilityConfig {
    /// Tells whether the settings are complete: neither text may be empty.
    pub fn is_valid(&self) -> (r: bool)
        ensures
            r == (self.description@.len() > 0 && self.model_id@.len() > 0),
    {
        !self.description.as_str().is_empty() && !self.model_id.as_str().is_empty()
    }

    /// Reads settings. Settings that do not hold both fields as text count as empty.
    pub fn read(cfg: &Json) -> (r: ExploreSubAgentCapabilityConfig)
        ensures
            (r.description@, r.model_id@) == explore_settings_or_empty(cfg.tree()),
    {
        if cfg.is_record(2) {
            if let Some(Json::Str(description)) = cfg.record_field("description", 0) {
                if let Some(Json::Str(model_id)) = cfg.record_field("model_id", 1) {
                    return ExploreSubAgentCapabilityConfig {
                        description: description.clone(),
                        model_id: model_id.clone(),
                    };
                }
            }
        }
        let empty = ExploreSubAgentCapabilityConfig {
            description: String::new(),
            model_id: String::new(),
        };
        empty
    }
}

/// The capability.
pub struct ExploreSubAgentCapability {
    pub instance_id: String,
    pub config: ExploreSubAgentCapabilityConfig,
    /// The message where the model is not configured. It comes up when the
    /// capability is bound, or asked for its health.
    pub configured_model: Result<ConfiguredModel, String>,
    pub prompt: String,
    pub tools: Vec<ToolName>,
}

impl Named for ExploreSubAgentCapability {
    fn instance_id(&self) -> (r: &str)
        ensures
            r@ == self.instance_id@,
    {
        self.instance_id.as_str()
    }
}

/// A question to the provider of a model: where it serves the model.
#[derive(Debug)]
pub struct EndpointQuery {
    /// The configured model.
    pub model_id: String,
    /// The protocol that the endpoint has to speak.
    pub api_type: ApiType,
    /// What the model has to be able to do.
    pub model_function: ModelFunction,
    /// What the endpoint has to serve.
    pub endpoint_function: ModelFunction,
}

/// Where a model is served: what its provider answers for a protocol.
pub struct ResolvedEndpoint {
    pub provider_name: String,
    pub base_url: String,
    pub model_name: String,
    pub endpoint_path: String,
    pub api_key: Option<Secret>,
    pub verify_ssl: bool,
    pub context_length: u64,
}

/// The functions that the sub-agent needs of its model.
pub open spec fn explore_functions() -> Seq<ModelFunction> {
    seq![ModelFunction::Chat, ModelFunction::ToolCalling]
}

/// The only dependency: a model that can chat and call tools.
pub open spec fn is_model_dependency(dependency: Dependency, resolved: Option<Seq<char>>) -> bool {
    dependency matches Dependency::Model { config_key, requirement, resolved_id, required }
        && config_key@ == "model_id"@ && requirement.supported_functions@ == explore_functions()
        && required && (match resolved_id {
        Some(id) => resolved == Some(id@),
        None => resolved is None,
    })
}

/// The only dependency: a model that can chat and call tools.
fn model_dependency(resolved_id: Option<String>) -> (r: Vec<Dependency>)
    ensures
        r@.len() == 1,
        is_model_dependency(
            r@[0],
            match resolved_id {
                Some(id) => Some(id@),
                None => None,
            },
        ),
{
    let mut functions: Vec<ModelFunction> = Vec::new();
    functions.push(ModelFunction::Chat);
    functions.push(ModelFunction::ToolCalling);
    proof {
        assert(functions@ =~= explore_functions());
    }
    let mut dependencies: Vec<Dependency> = Vec::new();
    dependencies.push(
        Dependency::Model {
            config_key: "model_id".to_owned(),
            requirement: ModelRequirement { supported_functions: functions },
            resolved_id,
            required: true,
        },
    );
    dependencies
}

/// What a launcher is told that asks for something else.
pub open spec fn wrong_request_text(asked: BindingType) -> Seq<char> {
    "ExploreSubAgentCapability does not handle "@ + asked.label() + " binding requests"@
}

impl ExploreSubAgentCapability {
    /// Tells whether this is the capability with the given id and settings.
    pub open spec fn made_from(
        self,
        instance_id: Seq<char>,
        cfg: JsonTree,
        global_config: Config,
    ) -> bool {
        &&& self.instance_id@ == instance_id
        &&& (self.config.description@, self.config.model_id@) == explore_settings_or_empty(cfg)
        &&& ConfiguredModel::resolves(self.configured_model, self.config.model_id@, global_config)
        &&& self.prompt@ == EXPLORE_PROMPT@
        &&& self.tools@ == seq![ToolName::FileRead, ToolName::Search, ToolName::Shell]
    }

    /// Makes the capability from its id, its settings and the configuration. A
    /// model that is not configured comes up later.
    pub fn new(instance_id: &str, cfg: &Json, global_config: &Config) -> (r:
        ExploreSubAgentCapability)
        ensures
            r.made_from(instance_id@, cfg.tree(), *global_config),
    {
        let config = ExploreSubAgentCapabilityConfig::read(cfg);
        let configured_model = ConfiguredModel::resolve(config.model_id.as_str(), global_config);
        let mut tools: Vec<ToolName> = Vec::new();
        tools.push(ToolName::FileRead);
        tools.push(ToolName::Search);
        tools.push(ToolName::Shell);
        proof {
            assert(tools@ =~= seq![ToolName::FileRead, ToolName::Search, ToolName::Shell]);
        }
        ExploreSubAgentCapability {
            instance_id: instance_id.to_owned(),
            config,
            configured_model,
            prompt: EXPLORE_PROMPT.to_owned(),
            tools,
        }
    }

    /// The name of the capability.
    pub fn name(&self) -> (r: &'static str)
        ensures
            r@ == "Explore Sub-Agent"@,
    {
        "Explore Sub-Agent"
    }

    /// What the capability is.
    pub fn description(&self) -> (r: &'static str)
        ensures
            r@ == "Defines a named exploration sub-agent (static prompt, fixed tools, and model) that a launched coding agent can delegate to."@,
    {
        "Defines a named exploration sub-agent (static prompt, fixed tools, and model) that a launched coding agent can delegate to."
    }

    /// What the capability needs, with the model that its settings name.
    pub fn dependencies(&self) -> (r: Vec<Dependency>)
        ensures
            r@.len() == 1,
            is_model_dependency(r@[0], Some(self.config.model_id@)),
    {
        model_dependency(Some(self.config.model_id.clone()))
    }

    /// How the capability attaches to a launcher.
    pub fn binding_types(&self) -> (r: Vec<BindingType>)
        ensures
            r@ == seq![BindingType::SubAgent],
    {
        let mut types: Vec<BindingType> = Vec::new();
        types.push(BindingType::SubAgent);
        proof {
            assert(types@ =~= seq![BindingType::SubAgent]);
        }
        types
    }

    /// What has to be found out of the model to meet a request: where its provider
    /// serves it for chats in the protocol that was asked for. Or why the request cannot
    /// be met.
    pub fn endpoint_query(&self, request: BindingRequest) -> (r: Result<EndpointQuery, String>)
        ensures
            match request {
                BindingRequest::SubAgent { api_type } => match self.configured_model {
                    Ok(_) => {
                        &&& r matches Ok(query)
                        &&& query.model_id@ == self.config.model_id@
                        &&& query.api_type == api_type
                        &&& query.model_function == ModelFunction::Chat
                        &&& query.endpoint_function == ModelFunction::Chat
                    },
                    Err(message) => r == Err::<EndpointQuery, String>(message),
                },
                _ => r matches Err(message) && message@ == wrong_request_text(request.asked()),
            },
    {
        match request {
            BindingRequest::SubAgent { api_type } => match &self.configured_model {
                Ok(_) => Ok(
                    EndpointQuery {
                        model_id: self.config.model_id.clone(),
                        api_type,
                        model_function: ModelFunction::Chat,
                        endpoint_function: ModelFunction::Chat,
                    },
                ),
                Err(message) => Err(message.clone()),
            },
            other => {
                let mut message = "ExploreSubAgentCapability does not handle ".to_owned();
                message.append(other.binding_type().name());
                message.append(" binding requests");
                Err(message)
            },
        }
    }

    /// Tells whether a binding is this sub-agent on a model that is served at an
    /// endpoint.
    pub open spec fn is_bound(
        self,
        binding: Binding,
        api_type: ApiType,
        endpoint: ResolvedEndpoint,
    ) -> bool {
        &&& binding matches Binding::SubAgent(agent)
        &&& agent.description@ == self.config.description@
        &&& agent.prompt@ == self.prompt@
        &&& agent.tools@ == self.tools@
        &&& agent.known_type == Some(KnownSubAgent::Explore)
        &&& agent.model.api_type == api_type
        &&& agent.model.provider_name == endpoint.provider_name
        &&& agent.model.base_url == endpoint.base_url
        &&& agent.model.model_name == endpoint.model_name
        &&& agent.model.endpoint_path == endpoint.endpoint_path
        &&& agent.model.api_key == endpoint.api_key
        &&& agent.model.verify_ssl == endpoint.verify_ssl
        &&& agent.model.context_length == Some(endpoint.context_length)
    }

    /// Meets a request, given the answer to [`Self::endpoint_query`]: where the model is
    /// served, or why that cannot be told.
    pub fn bind(&self, request: BindingRequest, endpoint: Result<ResolvedEndpoint, String>) -> (r:
        Result<Binding, String>)
        ensures
            match request {
                BindingRequest::SubAgent { api_type } => match self.configured_model {
                    Ok(_) => match endpoint {
                        Ok(endpoint) => r matches Ok(binding) && self.is_bound(
                            binding,
                            api_type,
                            endpoint,
                        ),
                        Err(message) => r == Err::<Binding, String>(message),
                    },
                    Err(message) => r == Err::<Binding, String>(message),
                },
                _ => r matches Err(message) && message@ == wrong_request_text(request.asked()),
            },
    {
        let api_type = match self.endpoint_query(request) {
            Ok(query) => query.api_type,
            Err(message) => {
                return Err(message);
            },
        };
        let endpoint = match endpoint {
            Ok(endpoint) => endpoint,
            Err(message) => {
                return Err(message);
            },
        };
        Ok(
            Binding::SubAgent(
                SubAgentBinding {
                    description: self.config.description.clone(),
                    prompt: self.prompt.clone(),
                    tools: copy_tools(&self.tools),
                    model: AgentModelBinding {
                        api_type,
                        provider_name: endpoint.provider_name,
                        base_url: endpoint.base_url,
                        model_name: endpoint.model_name,
                        endpoint_path: endpoint.endpoint_path,
                        api_key: endpoint.api_key,
                        verify_ssl: endpoint.verify_ssl,
                        context_length: Some(endpoint.context_length),
                    },
                    known_type: Some(KnownSubAgent::Explore),
                },
            ),
        )
    }

    /// Whether the capability can be bound, or why not.
    pub fn is_healthy(&self) -> (r: Result<(), String>)
        ensures
            match self.configured_model {
                Ok(_) => r is Ok,
                Err(message) => r == Err::<(), String>(message),
            },
    {
        match &self.configured_model {
            Ok(_) => Ok(()),
            Err(message) => Err(message.clone()),
        }
    }

    /// What is known of the capability without building one.
    pub fn metadata() -> (r: CapabilityMetadata)
        ensures
            r.name@ == "Explore Sub-Agent"@,
            r.description@ == "Defines a named exploration sub-agent (static prompt, fixed tools, and model) that a launched coding agent can delegate to."@,
            r.dependencies@.len() == 1,
            is_model_dependency(r.dependencies@[0], None),
            r.tags@.len() == 2,
            r.tags@[0]@ == "agent"@,
            r.tags@[1]@ == "explore"@,
            r.supported_binding_types@ == seq![BindingType::SubAgent],
    {
        let mut tags: Vec<String> = Vec::new();
        tags.push("agent".to_owned());
        tags.push("explore".to_owned());
        let mut types: Vec<BindingType> = Vec::new();
        types.push(BindingType::SubAgent);
        proof {
            assert(types@ =~= seq![BindingType::SubAgent]);
        }
        CapabilityMetadata {
            name: "Explore Sub-Agent".to_owned(),
            description: "Defines a named exploration sub-agent (static prompt, fixed tools, and model) that a launched coding agent can delegate to.".to_owned(),
            dependencies: model_dependency(None),
            tags,
            supported_binding_types: types,
        }
    }
}

/// A copy of a list of tools.
fn copy_tools(tools: &Vec<ToolName>) -> (r: Vec<ToolName>)
    ensures
        r@ == tools@,
{
    let mut out: Vec<ToolName> = Vec::new();
    let mut i: usize = 0;
    while i < tools.len()
        invariant
            i <= tools@.len(),
            out@ == tools@.take(i as int),
        decreases tools@.len() - i,
    {
        out.push(tools[i]);
        i += 1;
        proof {
            assert(out@ =~= tools@.take(i as int));
        }
    }
    proof {
        assert(tools@.take(i as int) =~= tools@);
    }
    out
}

} // verus!
