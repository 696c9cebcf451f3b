//! What the capabilities promise as a whole.

use vstd::prelude::*;
use crate::capabilities::sub_agent_explore::{
    EndpointQuery, ExploreSubAgentCapability, ExploreSubAgentCapabilityConfig, ResolvedEndpoint,
    EXPLORE_PROMPT,
};
use crate::capabilities::{
    Binding, BindingRequest, BindingType, BuiltCapability, CapabilityKind, CapabilityMetadata,
    Dependency, KnownSubAgent, ToolName,
};
use crate::config::Config;
use crate::json::{Json, JsonTree};
use crate::models::{ConfiguredModel, ModelFunction};
use crate::registry::ConfigConstructable;

verus! {

/// Tells whether an object holds a text under both of two names.
pub open spec fn holds_both(
    fields: Map<Seq<char>, JsonTree>,
    first: Seq<char>,
    second: Seq<char>,
) -> bool {
    &&& fields.contains_key(first) && fields[first] is Str
    &&& fields.contains_key(second) && fields[second] is Str
}

/// The settings of an explorer hold its description and its model, each under its own
/// name or, in a list of two, at its own place. Settings that do not hold both as text
/// count as empty, and then they are not valid.
pub proof fn law_explorer_settings_are_read(cfg: &Json, r: ExploreSubAgentCapabilityConfig)
    requires
        call_ensures(ExploreSubAgentCapabilityConfig::read, (cfg,), r),
    ensures
        match cfg.tree() {
            JsonTree::Object(fields) => if holds_both(fields, "description"@, "model_id"@) {
                &&& JsonTree::Str(r.description@) == fields["description"@]
                &&& JsonTree::Str(r.model_id@) == fields["model_id"@]
            } else {
                r.description@.len() == 0 && r.model_id@.len() == 0
            },
            JsonTree::Array(items) => if items.len() == 2 && items[0] is Str && items[1] is Str {
                &&& JsonTree::Str(r.description@) == items[0]
                &&& JsonTree::Str(r.model_id@) == items[1]
            } else {
                r.description@.len() == 0 && r.model_id@.len() == 0
            },
            _ => r.description@.len() == 0 && r.model_id@.len() == 0,
        },
        forall|valid: bool| #[trigger]
            call_ensures(ExploreSubAgentCapabilityConfig::is_valid, (&r,), valid) ==> (valid <==> (
            r.description@.len() > 0 && r.model_id@.len() > 0)),
{
}

/// An explorer has the id that it is made with, what its settings hold, the model that is
/// configured under the id there, or the message that there is none, its fixed prompt, and
/// three tools, none of which writes a file.
pub proof fn law_explorer_is_made_from_its_settings(
    id: &str,
    cfg: &Json,
    config: &Config,
    r: ExploreSubAgentCapability,
    settings: ExploreSubAgentCapabilityConfig,
    model_id: &str,
    model: Result<ConfiguredModel, String>,
)
    requires
        call_ensures(ExploreSubAgentCapability::new, (id, cfg, config), r),
        call_ensures(ExploreSubAgentCapabilityConfig::read, (cfg,), settings),
        model_id@ == settings.model_id@,
        call_ensures(ConfiguredModel::resolve, (model_id, config), model),
    ensures
        r.instance_id@ == id@,
        r.config.description@ == settings.description@,
        r.config.model_id@ == settings.model_id@,
        r.configured_model is Ok <==> config.models@.contains_key(settings.model_id@),
        match (r.configured_model, model) {
            (Ok(a), Ok(b)) => {
                &&& a.model_id == b.model_id
                &&& a.model_type == b.model_type
                &&& a.provider_id == b.provider_id
                &&& a.variant == b.variant
            },
            (Err(a), Err(b)) => a@ == b@,
            _ => false,
        },
        r.prompt@ == EXPLORE_PROMPT@,
        r.tools@ == seq![ToolName::FileRead, ToolName::Search, ToolName::Shell],
        !r.tools@.contains(ToolName::FileWrite),
{
}

/// An explorer is asked for as a sub-agent. Its model is then looked for where it serves
/// chats in the protocol that was asked for. Where the model is not configured the message
/// that says so is the answer, and whatever else is asked for is refused by its name.
pub proof fn law_explorer_looks_for_its_model(
    capability: &ExploreSubAgentCapability,
    request: BindingRequest,
    r: Result<EndpointQuery, String>,
)
    requires
        call_ensures(ExploreSubAgentCapability::endpoint_query, (capability, request), r),
    ensures
        request matches BindingRequest::SubAgent { api_type } ==> (
        match capability.configured_model {
            Ok(_) => {
                &&& r matches Ok(query)
                &&& query.model_id@ == capability.config.model_id@
                &&& query.api_type == api_type
                &&& query.model_function == ModelFunction::Chat
                &&& query.endpoint_function == ModelFunction::Chat
            },
            Err(message) => r matches Err(said) && said@ == message@,
        }),
        request is Mcp ==> (r matches Err(said) && said@
            == "ExploreSubAgentCapability does not handle "@ + "Mcp"@ + " binding requests"@),
        request is AgentModel ==> (r matches Err(said) && said@
            == "ExploreSubAgentCapability does not handle "@ + "AgentModel"@
            + " binding requests"@),
{
}

/// An explorer is bound as what it was made from, on the model where that is served: its
/// own description, prompt and tools, the protocol that was asked for, and the endpoint as
/// it was found. It is bound exactly when it could be asked for and the endpoint was found;
/// else the message is that of what failed first.
pub proof fn law_explorer_is_bound_to_its_endpoint(
    capability: &ExploreSubAgentCapability,
    request: BindingRequest,
    endpoint: Result<ResolvedEndpoint, String>,
    query: Result<EndpointQuery, String>,
    r: Result<Binding, String>,
)
    requires
        call_ensures(ExploreSubAgentCapability::bind, (capability, request, endpoint), r),
        call_ensures(ExploreSubAgentCapability::endpoint_query, (capability, request), query),
    ensures
        r is Ok <==> query is Ok && endpoint is Ok,
        query matches Err(message) ==> (r matches Err(said) && said@ == message@),
        query is Ok && endpoint is Err ==> (r matches Err(said) && said@ == endpoint->Err_0@),
        r matches Ok(binding) ==> {
            let at = endpoint->Ok_0;
            &&& binding matches Binding::SubAgent(agent)
            &&& agent.description@ == capability.config.description@
            &&& agent.prompt@ == capability.prompt@
            &&& agent.tools@ == capability.tools@
            &&& agent.known_type == Some(KnownSubAgent::Explore)
            &&& request matches BindingRequest::SubAgent { api_type }
            &&& agent.model.api_type == api_type
            &&& agent.model.provider_name@ == at.provider_name@
            &&& agent.model.base_url@ == at.base_url@
            &&& agent.model.model_name@ == at.model_name@
            &&& agent.model.endpoint_path@ == at.endpoint_path@
            &&& agent.model.api_key == at.api_key
            &&& agent.model.verify_ssl == at.verify_ssl
            &&& agent.model.context_length == Some(at.context_length)
        },
{
}

/// An explorer is healthy exactly when its model is configured, and else says why not.
pub proof fn law_explorer_is_healthy_with_its_model(
    capability: &ExploreSubAgentCapability,
    r: Result<(), String>,
)
    requires
        call_ensures(ExploreSubAgentCapability::is_healthy, (capability,), r),
    ensures
        r is Ok <==> capability.configured_model is Ok,
        r matches Err(said) ==> said@ == capability.configured_model->Err_0@,
{
}

/// Tells whether a dependency is one on a model that can chat and call tools, which has to
/// be named under `model_id`.
pub open spec fn is_on_a_model(dependency: Dependency, resolved: Option<Seq<char>>) -> bool {
    &&& dependency matches Dependency::Model { config_key, requirement, resolved_id, required }
    &&& config_key@ == "model_id"@
    &&& requirement.supported_functions@ == seq![ModelFunction::Chat, ModelFunction::ToolCalling]
    &&& required
    &&& match (resolved_id, resolved) {
        (Some(a), Some(b)) => a@ == b,
        (None, None) => true,
        _ => false,
    }
}

/// What is known of an explorer without building one agrees with what one says of itself:
/// its name, its description, how it attaches, and that it needs one model, which a built
/// one names.
pub proof fn law_explorer_is_what_it_says(
    capability: &ExploreSubAgentCapability,
    known: CapabilityMetadata,
    name: &'static str,
    description: &'static str,
    types: Vec<BindingType>,
    dependencies: Vec<Dependency>,
)
    requires
        call_ensures(ExploreSubAgentCapability::metadata, (), known),
        call_ensures(ExploreSubAgentCapability::name, (capability,), name),
        call_ensures(ExploreSubAgentCapability::description, (capability,), description),
        call_ensures(ExploreSubAgentCapability::binding_types, (capability,), types),
        call_ensures(ExploreSubAgentCapability::dependencies, (capability,), dependencies),
    ensures
        known.name@ == name@,
        known.description@ == description@,
        known.supported_binding_types@ == types@,
        types@ == seq![BindingType::SubAgent],
        known.dependencies@.len() == 1 && dependencies@.len() == 1,
        is_on_a_model(known.dependencies@[0], None),
        is_on_a_model(dependencies@[0], Some(capability.config.model_id@)),
{
}

/// An implementation makes a capability of its own kind with the id and the settings that
/// it is given; the one of the explorer makes an explorer.
pub proof fn law_each_kind_makes_its_own(
    kind: &CapabilityKind,
    id: &str,
    cfg: &Json,
    config: &Config,
    r: BuiltCapability,
    explorer: ExploreSubAgentCapability,
)
    requires
        call_ensures(CapabilityKind::construct, (kind, id, cfg, config), r),
        call_ensures(ExploreSubAgentCapability::new, (id, cfg, config), explorer),
    ensures
        r is Explore <==> *kind == CapabilityKind::SubAgentExplore,
        r matches BuiltCapability::Explore(made) ==> {
            &&& made.instance_id@ == id@
            &&& made.config.description@ == explorer.config.description@
            &&& made.config.model_id@ == explorer.config.model_id@
            &&& made.configured_model is Ok <==> explorer.configured_model is Ok
            &&& made.prompt@ == explorer.prompt@
            &&& made.tools@ == explorer.tools@
        },
        r matches BuiltCapability::Other { kind: made, instance_id, config: settings } ==> {
            &&& made == *kind
            &&& instance_id@ == id@
            &&& settings.tree() == cfg.tree()
        },
{
}

/// What is asked for and what is handed over have the same types, and the types have their
/// names.
pub proof fn law_types_have_their_names(
    request: &BindingRequest,
    binding: &Binding,
    asked: BindingType,
    given: BindingType,
    name: &'static str,
)
    requires
        call_ensures(BindingRequest::binding_type, (request,), asked),
        call_ensures(Binding::binding_type, (binding,), given),
        call_ensures(BindingType::name, (&asked,), name),
    ensures
        asked == BindingType::AgentModel <==> request is AgentModel,
        asked == BindingType::Mcp <==> request is Mcp,
        asked == BindingType::SubAgent <==> request is SubAgent,
        given == BindingType::AgentModel <==> binding is AgentModel,
        given == BindingType::Mcp <==> binding is Mcp,
        given == BindingType::SubAgent <==> binding is SubAgent,
        request is AgentModel ==> name@ == "AgentModel"@,
        request is Mcp ==> name@ == "Mcp"@,
        request is SubAgent ==> name@ == "SubAgent"@,
{
}

} // verus!
