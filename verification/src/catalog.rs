//! The implementations that come with the program.

pub mod laws;

use vstd::prelude::*;
use vstd::string::*;
use crate::capabilities::sub_agent_explore::ExploreSubAgentCapability;
use crate::capabilities::{
    BindingType, CapabilityFactory, CapabilityKind, CapabilityMetadata, Dependency,
    ModelRequirement,
};
use crate::json::{Json, JsonTree};
use crate::launchers::bob::{is_bob, BobLauncher};
use crate::launchers::LauncherMetadata;
use crate::models::{
    ModelFactory, ModelFunction, ModelKind, ModelMetadata, ModelType, ModelVariant,
};
use crate::name_map::NameMap;
use crate::providers::ProviderMetadata;
use crate::registry::{Factory, Registration, Registries};

verus! {

/// What the program knows of the settings of a type.
pub struct SettingsShape {
    pub schema: Json,
    pub default_config: Json,
}

/// The schema and the defaults of the settings of a type; nothing where they are
/// not known.
fn settings_of(shapes: &NameMap<SettingsShape>, name: &str) -> (r: (Json, Json))
    ensures
        if shapes@.contains_key(name@) {
            r.0.tree() == shapes@[name@].schema.tree() && r.1.tree()
                == shapes@[name@].default_config.tree()
        } else {
            r.0.tree() == JsonTree::Null && r.1.tree() == JsonTree::Null
        },
{
    match shapes.get(name) {
        Some(shape) => (shape.schema.copy(), shape.default_config.copy()),
        None => (Json::Null, Json::Null),
    }
}

/// Tells whether a registration has the settings that the program knows of.
pub open spec fn has_settings<M, C>(
    registration: Registration<M, C>,
    shapes: Map<Seq<char>, SettingsShape>,
    name: Seq<char>,
) -> bool {
    if shapes.contains_key(name) {
        registration.config_schema.tree() == shapes[name].schema.tree()
            && registration.default_config.tree() == shapes[name].default_config.tree()
    } else {
        registration.config_schema.tree() == JsonTree::Null && registration.default_config.tree()
            == JsonTree::Null
    }
}

/// Tells whether a capability needs one thing, a model that its settings name under
/// `model_id`, with the given functions.
pub open spec fn needs_model(metadata: CapabilityMetadata, functions: Seq<ModelFunction>) -> bool {
    &&& metadata.dependencies@.len() == 1
    &&& metadata.dependencies@[0] matches Dependency::Model {
        config_key,
        requirement,
        resolved_id,
        required,
    }
    &&& config_key@ == "model_id"@
    &&& requirement.supported_functions@ == functions
    &&& resolved_id is None
    &&& required
}

/// What is known of a capability that needs a model.
fn model_backed(
    name: &str,
    description: &str,
    functions: Vec<ModelFunction>,
    binding: BindingType,
) -> (r: CapabilityMetadata)
    ensures
        needs_model(r, functions@),
        r.name@ == name@,
        r.description@ == description@,
        r.tags@.len() == 0,
        r.supported_binding_types@ == seq![binding],
{
    let mut dependencies: Vec<Dependency> = Vec::new();
    dependencies.push(
        Dependency::Model {
            config_key: "model_id".to_owned(),
            requirement: ModelRequirement { supported_functions: functions },
            resolved_id: None,
            required: true,
        },
    );
    let mut types: Vec<BindingType> = Vec::new();
    types.push(binding);
    proof {
        assert(types@ =~= seq![binding]);
    }
    CapabilityMetadata {
        name: name.to_owned(),
        description: description.to_owned(),
        dependencies,
        tags: Vec::new(),
        supported_binding_types: types,
    }
}

/// A list of one function.
fn one_function(function: ModelFunction) -> (r: Vec<ModelFunction>)
    ensures
        r@ == seq![function],
{
    let mut functions: Vec<ModelFunction> = Vec::new();
    functions.push(function);
    proof {
        assert(functions@ =~= seq![function]);
    }
    functions
}

/// A list of two functions.
fn two_functions(first: ModelFunction, second: ModelFunction) -> (r: Vec<ModelFunction>)
    ensures
        r@ == seq![first, second],
{
    let mut functions: Vec<ModelFunction> = Vec::new();
    functions.push(first);
    functions.push(second);
    proof {
        assert(functions@ =~= seq![first, second]);
    }
    functions
}

/// Registers a capability type.
fn register_capability(
    factory: &mut CapabilityFactory,
    name: &str,
    kind: CapabilityKind,
    metadata: CapabilityMetadata,
    shapes: &NameMap<SettingsShape>,
)
    ensures
        final(factory).types().dom() == old(factory).types().dom().insert(name@),
        final(factory).types()[name@].metadata == metadata,
        final(factory).types()[name@].constructor == kind,
        has_settings(final(factory).types()[name@], shapes@, name@),
        forall|other: Seq<char>|
            other != name@ ==> #[trigger] final(factory).types()[other] == old(
                factory,
            ).types()[other],
{
    let (config_schema, default_config) = settings_of(shapes, name);
    factory.register(
        name,
        Registration { metadata, config_schema, default_config, constructor: kind },
    );
    proof {
        assert(factory.types().dom() =~= old(factory).types().dom().insert(name@));
    }
}

/// The names of the capability types.
pub open spec fn capability_names() -> Set<Seq<char>> {
    set![
        "agent-model"@,
        "vision-mcp"@,
        "sub-agent"@,
        "sub-agent-code"@,
        "sub-agent-explore"@,
        "sub-agent-plan"@,
    ]
}

proof fn lemma_capability_names()
    ensures
        "agent-model"@.len() == 11,
        "vision-mcp"@.len() == 10,
        "sub-agent"@.len() == 9,
        "sub-agent-code"@.len() == 14,
        "sub-agent-explore"@.len() == 17,
        "sub-agent-plan"@.len() == 14,
        "sub-agent-code"@ != "sub-agent-plan"@,
{
    reveal_strlit("agent-model");
    reveal_strlit("vision-mcp");
    reveal_strlit("sub-agent");
    reveal_strlit("sub-agent-code");
    reveal_strlit("sub-agent-explore");
    reveal_strlit("sub-agent-plan");
    assert("sub-agent-code"@[10] != "sub-agent-plan"@[10]);
}

/// Tells whether a registration is that of a capability of the given kind, name and
/// description, which needs a model with the given functions, attaches in the given
/// way, and has the given tags.
pub open spec fn is_capability(
    registration: Registration<CapabilityMetadata, CapabilityKind>,
    kind: CapabilityKind,
    name: Seq<char>,
    description: Seq<char>,
    functions: Seq<ModelFunction>,
    binding: BindingType,
    tags: Seq<Seq<char>>,
) -> bool {
    &&& registration.constructor == kind
    &&& registration.metadata.name@ == name
    &&& registration.metadata.description@ == description
    &&& needs_model(registration.metadata, functions)
    &&& registration.metadata.supported_binding_types@ == seq![binding]
    &&& registration.metadata.tags@.map_values(|tag: String| tag@) =~= tags
}

/// Tells whether these are the capability types that come with the program, each with
/// the settings that the program knows of.
pub open spec fn are_program_capabilities(
    types: Map<Seq<char>, Registration<CapabilityMetadata, CapabilityKind>>,
    shapes: Map<Seq<char>, SettingsShape>,
) -> bool {
    &&& types.dom() == capability_names()
    &&& is_capability(
        types["agent-model"@],
        CapabilityKind::AgentModel,
        "Agent Model"@,
        "Gives a launched coding agent a configured model."@,
        seq![ModelFunction::Chat],
        BindingType::AgentModel,
        Seq::empty(),
    )
    &&& is_capability(
        types["vision-mcp"@],
        CapabilityKind::VisionMcp,
        "Vision MCP"@,
        "Gives a launched coding agent image understanding through an MCP server."@,
        seq![ModelFunction::ImageUnderstanding],
        BindingType::Mcp,
        Seq::empty(),
    )
    &&& is_capability(
        types["sub-agent"@],
        CapabilityKind::SubAgent,
        "Sub-Agent"@,
        "Defines a named sub-agent that a launched coding agent can delegate to."@,
        seq![ModelFunction::Chat, ModelFunction::ToolCalling],
        BindingType::SubAgent,
        Seq::empty(),
    )
    &&& is_capability(
        types["sub-agent-code"@],
        CapabilityKind::SubAgentCode,
        "Code Sub-Agent"@,
        "Defines a coding sub-agent that a launched coding agent can delegate to."@,
        seq![ModelFunction::Chat, ModelFunction::ToolCalling],
        BindingType::SubAgent,
        Seq::empty(),
    )
    &&& is_capability(
        types["sub-agent-explore"@],
        CapabilityKind::SubAgentExplore,
        "Explore Sub-Agent"@,
        "Defines a named exploration sub-agent (static prompt, fixed tools, and model) that a launched coding agent can delegate to."@,
        seq![ModelFunction::Chat, ModelFunction::ToolCalling],
        BindingType::SubAgent,
        seq!["agent"@, "explore"@],
    )
    &&& is_capability(
        types["sub-agent-plan"@],
        CapabilityKind::SubAgentPlan,
        "Plan Sub-Agent"@,
        "Defines a planning sub-agent that a launched coding agent can delegate to."@,
        seq![ModelFunction::Chat, ModelFunction::ToolCalling],
        BindingType::SubAgent,
        Seq::empty(),
    )
    &&& forall|name: Seq<char>| #[trigger]
        types.contains_key(name) ==> has_settings(types[name], shapes, name)
}

/// The capability types that come with the program.
pub fn capability_registry(shapes: &NameMap<SettingsShape>) -> (r: CapabilityFactory)
    ensures
        are_program_capabilities(r.types(), shapes@),
{
    let mut factory: CapabilityFactory = Factory::new();
    proof {
        lemma_capability_names();
    }
    let agent_model = model_backed(
        "Agent Model",
        "Gives a launched coding agent a configured model.",
        one_function(ModelFunction::Chat),
        BindingType::AgentModel,
    );
    register_capability(&mut factory, "agent-model", CapabilityKind::AgentModel, agent_model, shapes);
    let vision = model_backed(
        "Vision MCP",
        "Gives a launched coding agent image understanding through an MCP server.",
        one_function(ModelFunction::ImageUnderstanding),
        BindingType::Mcp,
    );
    register_capability(&mut factory, "vision-mcp", CapabilityKind::VisionMcp, vision, shapes);
    let sub_agent = model_backed(
        "Sub-Agent",
        "Defines a named sub-agent that a launched coding agent can delegate to.",
        two_functions(ModelFunction::Chat, ModelFunction::ToolCalling),
        BindingType::SubAgent,
    );
    register_capability(&mut factory, "sub-agent", CapabilityKind::SubAgent, sub_agent, shapes);
    let code = model_backed(
        "Code Sub-Agent",
        "Defines a coding sub-agent that a launched coding agent can delegate to.",
        two_functions(ModelFunction::Chat, ModelFunction::ToolCalling),
        BindingType::SubAgent,
    );
    register_capability(&mut factory, "sub-agent-code", CapabilityKind::SubAgentCode, code, shapes);
    let explore = ExploreSubAgentCapability::metadata();
    proof {
        assert(needs_model(explore, seq![ModelFunction::Chat, ModelFunction::ToolCalling]));
    }
    register_capability(
        &mut factory,
        "sub-agent-explore",
        CapabilityKind::SubAgentExplore,
        explore,
        shapes,
    );
    let plan = model_backed(
        "Plan Sub-Agent",
        "Defines a planning sub-agent that a launched coding agent can delegate to.",
        two_functions(ModelFunction::Chat, ModelFunction::ToolCalling),
        BindingType::SubAgent,
    );
    register_capability(&mut factory, "sub-agent-plan", CapabilityKind::SubAgentPlan, plan, shapes);
    proof {
        assert(factory.types().dom() =~= capability_names());
    }
    factory
}

/// A model of the catalog, under its type name.
pub struct CatalogModel {
    pub name: String,
    pub metadata: ModelMetadata,
}

/// The type names of the models of a catalog.
pub open spec fn catalog_names(catalog: Seq<CatalogModel>) -> Set<Seq<char>>
    decreases catalog.len(),
{
    if catalog.len() == 0 {
        Set::empty()
    } else {
        catalog_names(catalog.drop_last()).insert(catalog.last().name@)
    }
}

/// What a catalog says of a type name; where it occurs twice the later entry counts.
pub open spec fn catalog_entry(catalog: Seq<CatalogModel>, name: Seq<char>) -> ModelMetadata
    decreases catalog.len(),
{
    if catalog.len() == 0 {
        arbitrary()
    } else if catalog.last().name@ == name {
        catalog.last().metadata
    } else {
        catalog_entry(catalog.drop_last(), name)
    }
}

/// Registers a model type.
fn register_model(
    factory: &mut ModelFactory,
    name: &str,
    kind: ModelKind,
    metadata: ModelMetadata,
    shapes: &NameMap<SettingsShape>,
)
    ensures
        final(factory).types().dom() == old(factory).types().dom().insert(name@),
        final(factory).types()[name@].metadata == metadata,
        final(factory).types()[name@].constructor == kind,
        has_settings(final(factory).types()[name@], shapes@, name@),
        forall|other: Seq<char>|
            other != name@ ==> #[trigger] final(factory).types()[other] == old(
                factory,
            ).types()[other],
{
    let (config_schema, default_config) = settings_of(shapes, name);
    factory.register(
        name,
        Registration { metadata, config_schema, default_config, constructor: kind },
    );
    proof {
        assert(factory.types().dom() =~= old(factory).types().dom().insert(name@));
    }
}

/// The model types: every model of the catalog, and the one that the user describes.
pub fn model_registry(
    catalog: Vec<CatalogModel>,
    custom: ModelMetadata,
    shapes: &NameMap<SettingsShape>,
) -> (r: ModelFactory)
    ensures
        r.types().dom() == catalog_names(catalog@).insert("custom"@),
        r.types()["custom"@].constructor == ModelKind::Custom,
        r.types()["custom"@].metadata == custom,
        forall|name: Seq<char>| #[trigger]
            r.types().contains_key(name) && name != "custom"@ ==> r.types()[name].constructor
                == ModelKind::Catalog && r.types()[name].metadata == catalog_entry(catalog@, name),
        forall|name: Seq<char>| #[trigger]
            r.types().contains_key(name) ==> has_settings(r.types()[name], shapes@, name),
{
    let mut factory: ModelFactory = Factory::new();
    let mut catalog = catalog;
    let ghost all = catalog@;
    let ghost mut done: int = 0;
    proof {
        assert(all.take(0) =~= Seq::<CatalogModel>::empty());
        assert(factory.types().dom() =~= Set::<Seq<char>>::empty());
    }
    while catalog.len() > 0
        invariant
            0 <= done <= all.len(),
            catalog@ == all.skip(done),
            catalog@.len() == all.len() - done,
            factory.types().dom() == catalog_names(all.take(done)),
            forall|name: Seq<char>| #[trigger]
                factory.types().contains_key(name) ==> factory.types()[name].constructor
                    == ModelKind::Catalog && factory.types()[name].metadata == catalog_entry(
                    all.take(done),
                    name,
                ),
            forall|name: Seq<char>| #[trigger]
                factory.types().contains_key(name) ==> has_settings(
                    factory.types()[name],
                    shapes@,
                    name,
                ),
        decreases catalog@.len(),
    {
        let ghost before = catalog@;
        let model = catalog.remove(0);
        proof {
            assert(before[0] == model);
            assert(all.skip(done)[0] == all[done]);
            assert(catalog@ =~= all.skip(done + 1));
            assert(all.take(done + 1).drop_last() =~= all.take(done));
            assert(all.take(done + 1).last() == model);
        }
        register_model(
            &mut factory,
            model.name.as_str(),
            ModelKind::Catalog,
            model.metadata,
            shapes,
        );
        proof {
            done = done + 1;
        }
    }
    proof {
        assert(all.take(done) =~= all);
    }
    register_model(&mut factory, "custom", ModelKind::Custom, custom, shapes);
    factory
}

/// A model of the Granite family.
fn granite(
    name: &str,
    family: &str,
    version: &str,
    model_type: ModelType,
    variants: Vec<ModelVariant>,
    supported_functions: Vec<ModelFunction>,
) -> (r: CatalogModel)
    ensures
        r.name@ == name@,
        r.metadata.family@ == family@,
        r.metadata.version@ == version@,
        r.metadata.context_length == 131072,
        r.metadata.model_type == model_type,
        r.metadata.variants == variants,
        r.metadata.supported_functions == supported_functions,
{
    CatalogModel {
        name: name.to_owned(),
        metadata: ModelMetadata {
            family: family.to_owned(),
            version: version.to_owned(),
            context_length: 131072,
            model_type,
            variants,
            supported_functions,
        },
    }
}

/// Tells whether a model is one of the Granite family with the given family, version,
/// type and functions.
pub open spec fn is_granite(
    metadata: ModelMetadata,
    family: Seq<char>,
    version: Seq<char>,
    model_type: ModelType,
    functions: Seq<ModelFunction>,
) -> bool {
    &&& metadata.family@ == family
    &&& metadata.version@ == version
    &&& metadata.context_length == 131072
    &&& metadata.model_type == model_type
    &&& metadata.supported_functions@ == functions
}

/// Tells whether a model can be had in one form, of five gigabytes.
pub open spec fn has_one_variant(metadata: ModelMetadata) -> bool {
    &&& metadata.variants@.len() == 1
    &&& metadata.variants@[0].format@ == "Ollama"@
    &&& metadata.variants@[0].precision@ == "Q4_K_M"@
    &&& metadata.variants@[0].size_centi_gb == Some(500u64)
}

/// Tells whether this is what is known of a model that the user describes.
pub open spec fn is_custom(metadata: ModelMetadata) -> bool {
    &&& metadata.family@ == "Custom"@
    &&& metadata.version@ == Seq::<char>::empty()
    &&& metadata.context_length == 0
    &&& metadata.model_type == ModelType::Text
    &&& metadata.variants@.len() == 0
    &&& metadata.supported_functions@ == seq![ModelFunction::Chat]
}

/// Tells whether this is the catalog that comes with the program.
pub open spec fn is_program_catalog(catalog: Seq<CatalogModel>) -> bool {
    &&& catalog.len() == 5
    &&& catalog[0].name@ == "granite-3.1-8b-instruct"@
    &&& is_granite(
        catalog[0].metadata,
        "Granite Language"@,
        "3.1"@,
        ModelType::Text,
        seq![ModelFunction::Chat],
    )
    &&& has_one_variant(catalog[0].metadata)
    &&& catalog[1].name@ == "granite-3.1-2b-instruct"@
    &&& is_granite(
        catalog[1].metadata,
        "Granite Language"@,
        "3.1"@,
        ModelType::Text,
        seq![ModelFunction::Chat],
    )
    &&& catalog[1].metadata.variants@.len() == 0
    &&& catalog[2].name@ == "granite-guardian-3.1-8b"@
    &&& is_granite(
        catalog[2].metadata,
        "Granite Guardian"@,
        "3.1"@,
        ModelType::Text,
        seq![ModelFunction::Chat],
    )
    &&& catalog[2].metadata.variants@.len() == 0
    &&& catalog[3].name@ == "granite-vision-3.3-2b"@
    &&& is_granite(
        catalog[3].metadata,
        "Granite Vision"@,
        "3.3"@,
        ModelType::Vision,
        seq![ModelFunction::Chat, ModelFunction::ImageUnderstanding],
    )
    &&& catalog[3].metadata.variants@.len() == 0
    &&& catalog[4].name@ == "granite-speech-4.1-2b"@
    &&& is_granite(
        catalog[4].metadata,
        "Granite Speech"@,
        "4.1"@,
        ModelType::Speech,
        seq![ModelFunction::Chat, ModelFunction::Transcription],
    )
    &&& catalog[4].metadata.variants@.len() == 0
}

/// Tells whether these are the model types that come with the program, each with the
/// settings that the program knows of.
pub open spec fn are_program_models(
    types: Map<Seq<char>, Registration<ModelMetadata, ModelKind>>,
    shapes: Map<Seq<char>, SettingsShape>,
) -> bool {
    &&& types.dom() == model_names()
    &&& types["granite-3.1-8b-instruct"@].constructor == ModelKind::Catalog
    &&& is_granite(
        types["granite-3.1-8b-instruct"@].metadata,
        "Granite Language"@,
        "3.1"@,
        ModelType::Text,
        seq![ModelFunction::Chat],
    )
    &&& has_one_variant(types["granite-3.1-8b-instruct"@].metadata)
    &&& types["granite-3.1-2b-instruct"@].constructor == ModelKind::Catalog
    &&& is_granite(
        types["granite-3.1-2b-instruct"@].metadata,
        "Granite Language"@,
        "3.1"@,
        ModelType::Text,
        seq![ModelFunction::Chat],
    )
    &&& types["granite-3.1-2b-instruct"@].metadata.variants@.len() == 0
    &&& types["granite-guardian-3.1-8b"@].constructor == ModelKind::Catalog
    &&& is_granite(
        types["granite-guardian-3.1-8b"@].metadata,
        "Granite Guardian"@,
        "3.1"@,
        ModelType::Text,
        seq![ModelFunction::Chat],
    )
    &&& types["granite-guardian-3.1-8b"@].metadata.variants@.len() == 0
    &&& types["granite-vision-3.3-2b"@].constructor == ModelKind::Catalog
    &&& is_granite(
        types["granite-vision-3.3-2b"@].metadata,
        "Granite Vision"@,
        "3.3"@,
        ModelType::Vision,
        seq![ModelFunction::Chat, ModelFunction::ImageUnderstanding],
    )
    &&& types["granite-vision-3.3-2b"@].metadata.variants@.len() == 0
    &&& types["granite-speech-4.1-2b"@].constructor == ModelKind::Catalog
    &&& is_granite(
        types["granite-speech-4.1-2b"@].metadata,
        "Granite Speech"@,
        "4.1"@,
        ModelType::Speech,
        seq![ModelFunction::Chat, ModelFunction::Transcription],
    )
    &&& types["granite-speech-4.1-2b"@].metadata.variants@.len() == 0
    &&& types["custom"@].constructor == ModelKind::Custom
    &&& is_custom(types["custom"@].metadata)
    &&& forall|name: Seq<char>| #[trigger]
        types.contains_key(name) ==> has_settings(types[name], shapes, name)
}

/// The models of the catalog that come with the program.
pub fn builtin_catalog() -> (r: Vec<CatalogModel>)
    ensures
        is_program_catalog(r@),
{
    let mut variants: Vec<ModelVariant> = Vec::new();
    variants.push(
        ModelVariant {
            format: "Ollama".to_owned(),
            precision: "Q4_K_M".to_owned(),
            size_centi_gb: Some(500),
        },
    );
    let mut catalog: Vec<CatalogModel> = Vec::new();
    catalog.push(
        granite(
            "granite-3.1-8b-instruct",
            "Granite Language",
            "3.1",
            ModelType::Text,
            variants,
            one_function(ModelFunction::Chat),
        ),
    );
    catalog.push(
        granite(
            "granite-3.1-2b-instruct",
            "Granite Language",
            "3.1",
            ModelType::Text,
            Vec::new(),
            one_function(ModelFunction::Chat),
        ),
    );
    catalog.push(
        granite(
            "granite-guardian-3.1-8b",
            "Granite Guardian",
            "3.1",
            ModelType::Text,
            Vec::new(),
            one_function(ModelFunction::Chat),
        ),
    );
    catalog.push(
        granite(
            "granite-vision-3.3-2b",
            "Granite Vision",
            "3.3",
            ModelType::Vision,
            Vec::new(),
            two_functions(ModelFunction::Chat, ModelFunction::ImageUnderstanding),
        ),
    );
    catalog.push(
        granite(
            "granite-speech-4.1-2b",
            "Granite Speech",
            "4.1",
            ModelType::Speech,
            Vec::new(),
            two_functions(ModelFunction::Chat, ModelFunction::Transcription),
        ),
    );
    catalog
}

/// What is known of a model that the user describes.
pub fn custom_model() -> (r: ModelMetadata)
    ensures
        is_custom(r),
{
    ModelMetadata {
        family: "Custom".to_owned(),
        version: String::new(),
        context_length: 0,
        model_type: ModelType::Text,
        variants: Vec::new(),
        supported_functions: one_function(ModelFunction::Chat),
    }
}

/// The registries of the program: the capabilities and models that come with it, the
/// given launchers with Bob among them, and the given providers.
pub fn builtin_registries(
    launchers: NameMap<LauncherMetadata>,
    providers: NameMap<ProviderMetadata>,
    shapes: &NameMap<SettingsShape>,
) -> (r: Registries)
    ensures
        are_program_capabilities(r.capabilities.types(), shapes@),
        are_program_models(r.models.types(), shapes@),
        r.launchers@.dom() == launchers@.dom().insert("bob"@),
        is_bob(r.launchers@["bob"@]),
        forall|name: Seq<char>|
            name != "bob"@ ==> #[trigger] r.launchers@[name] == launchers@[name],
        r.providers@ == providers@,
{
    let mut launchers = launchers;
    launchers.insert("bob".to_owned(), BobLauncher::metadata());
    let catalog = builtin_catalog();
    let ghost all = catalog@;
    proof {
        lemma_five_names(all);
        lemma_model_names();
        reveal_with_fuel(catalog_entry, 6);
    }
    let models = model_registry(catalog, custom_model(), shapes);
    proof {
        assert(models.types().dom() =~= model_names());
        assert(models.types().contains_key("granite-3.1-8b-instruct"@));
        assert(models.types().contains_key("granite-3.1-2b-instruct"@));
        assert(models.types().contains_key("granite-guardian-3.1-8b"@));
        assert(models.types().contains_key("granite-vision-3.3-2b"@));
        assert(models.types().contains_key("granite-speech-4.1-2b"@));
        assert(catalog_entry(all, "granite-3.1-8b-instruct"@) == all[0].metadata);
        assert(catalog_entry(all, "granite-3.1-2b-instruct"@) == all[1].metadata);
        assert(catalog_entry(all, "granite-guardian-3.1-8b"@) == all[2].metadata);
        assert(catalog_entry(all, "granite-vision-3.3-2b"@) == all[3].metadata);
        assert(catalog_entry(all, "granite-speech-4.1-2b"@) == all[4].metadata);
    }
    Registries { launchers, capabilities: capability_registry(shapes), models, providers }
}

proof fn lemma_model_names()
    ensures
        "granite-3.1-8b-instruct"@ != "granite-3.1-2b-instruct"@,
        "granite-3.1-8b-instruct"@ != "granite-guardian-3.1-8b"@,
        "granite-3.1-2b-instruct"@ != "granite-guardian-3.1-8b"@,
        "granite-vision-3.3-2b"@ != "granite-speech-4.1-2b"@,
        "granite-3.1-8b-instruct"@.len() == 23,
        "granite-3.1-2b-instruct"@.len() == 23,
        "granite-guardian-3.1-8b"@.len() == 23,
        "granite-vision-3.3-2b"@.len() == 21,
        "granite-speech-4.1-2b"@.len() == 21,
        "custom"@.len() == 6,
{
    reveal_strlit("granite-3.1-8b-instruct");
    reveal_strlit("granite-3.1-2b-instruct");
    reveal_strlit("granite-guardian-3.1-8b");
    reveal_strlit("granite-vision-3.3-2b");
    reveal_strlit("granite-speech-4.1-2b");
    reveal_strlit("custom");
    assert("granite-3.1-8b-instruct"@[12] != "granite-3.1-2b-instruct"@[12]);
    assert("granite-3.1-8b-instruct"@[8] != "granite-guardian-3.1-8b"@[8]);
    assert("granite-3.1-2b-instruct"@[8] != "granite-guardian-3.1-8b"@[8]);
    assert("granite-vision-3.3-2b"@[8] != "granite-speech-4.1-2b"@[8]);
}

/// The names of the model types.
pub open spec fn model_names() -> Set<Seq<char>> {
    set![
        "granite-3.1-8b-instruct"@,
        "granite-3.1-2b-instruct"@,
        "granite-guardian-3.1-8b"@,
        "granite-vision-3.3-2b"@,
        "granite-speech-4.1-2b"@,
        "custom"@,
    ]
}

proof fn lemma_five_names(catalog: Seq<CatalogModel>)
    requires
        catalog.len() == 5,
    ensures
        catalog_names(catalog) == set![
            catalog[0].name@,
            catalog[1].name@,
            catalog[2].name@,
            catalog[3].name@,
            catalog[4].name@,
        ],
{
    reveal_with_fuel(catalog_names, 6);
    assert(catalog_names(catalog) =~= set![
        catalog[0].name@,
        catalog[1].name@,
        catalog[2].name@,
        catalog[3].name@,
        catalog[4].name@,
    ]);
}

} // verus!
