use granite_cli::capabilities::sub_agent_explore::{ExploreSubAgentCapability, ResolvedEndpoint, EXPLORE_PROMPT};
use granite_cli::capabilities::{
    Binding, BindingRequest, BindingType, CapabilityFactory, Dependency, KnownSubAgent,
    ModelRequirement, ToolName,
};
use granite_cli::catalog::{
    builtin_catalog, builtin_registries, capability_registry, custom_model, model_registry,
    SettingsShape,
};
use granite_cli::config::{CapabilityConfig, Config, ModelConfig};
use granite_cli::json::Json;
use granite_cli::models::{ModelFactory, ModelFunction, ModelKind, ModelType};
use granite_cli::name_map::NameMap;
use granite_cli::providers::ApiType;
use granite_cli::registry::{ConfigConstructable, Factory, Named, Registration};
use granite_cli::utils::capabilities::capability_model_ids;

fn json(text: &str) -> Json {
    Json::parse(text).unwrap()
}

fn capabilities() -> CapabilityFactory {
    capability_registry(&NameMap::new())
}

fn models() -> ModelFactory {
    model_registry(builtin_catalog(), custom_model(), &NameMap::new())
}

#[test]
fn capability_registry_has_agent_model() {
    assert!(capabilities().get("agent-model").is_some());
}

#[test]
fn capability_registry_has_sub_agent() {
    assert!(capabilities().get("sub-agent").is_some());
}

#[test]
fn capability_registry_has_sub_agent_plan() {
    assert!(capabilities().get("sub-agent-plan").is_some());
}

#[test]
fn capability_registry_has_six_types() {
    let factory = capabilities();
    let mut names: Vec<&str> = factory.entries().into_iter().map(|(name, _)| name).collect();
    names.sort();
    assert_eq!(
        names,
        [
            "agent-model",
            "sub-agent",
            "sub-agent-code",
            "sub-agent-explore",
            "sub-agent-plan",
            "vision-mcp",
        ]
    );
    assert!(factory.get("not-a-capability").is_none());
}

#[test]
fn registries_carry_the_settings_that_are_known() {
    let mut shapes = NameMap::new();
    shapes.insert(
        "sub-agent-explore".to_string(),
        SettingsShape {
            schema: json(r#"{"title":"x"}"#),
            default_config: json(r#"{"description":"","model_id":""}"#),
        },
    );
    let factory = capability_registry(&shapes);
    assert_eq!(
        factory.config_schema("sub-agent-explore").unwrap().text_field("title"),
        Some("x")
    );
    assert!(matches!(factory.default_config("agent-model"), Some(Json::Null)));
}

#[test]
fn test_all_models_registered() {
    assert!(!models().entries().is_empty(), "Expected models to be registered");
}

#[test]
fn test_get_specific_model() {
    let factory = models();
    let model = factory.get("granite-3.1-8b-instruct");
    assert!(model.is_some(), "granite-3.1-8b-instruct should be registered");
    let metadata = model.unwrap();
    assert_eq!(metadata.family, "Granite Language");
    assert_eq!(metadata.version, "3.1");
    assert_eq!(metadata.context_length, 131072);
    assert_eq!(metadata.model_type, ModelType::Text);
}

#[test]
fn test_model_variants() {
    let factory = models();
    let model = factory.get("granite-3.1-8b-instruct").unwrap();
    assert!(
        !model.variants.is_empty(),
        "granite-3.1-8b-instruct should have variants"
    );
    let variant = &model.variants[0];
    assert!(!variant.format.is_empty());
    assert!(!variant.precision.is_empty());
    assert!(variant.size_centi_gb.unwrap_or(0) > 0);
}

#[test]
fn test_all_model_ids() {
    let factory = models();
    let entries = factory.entries();
    let ids: Vec<&str> = entries.iter().map(|(name, _)| *name).collect();
    assert!(ids.contains(&"granite-3.1-8b-instruct"));
    assert!(ids.contains(&"granite-guardian-3.1-8b"));
    assert!(ids.contains(&"custom"));
}

#[test]
fn test_model_types() {
    let factory = models();
    let text_model = factory.get("granite-3.1-8b-instruct").unwrap();
    assert_eq!(text_model.model_type, ModelType::Text);
    let vision_model = factory.get("granite-vision-3.3-2b").unwrap();
    assert_eq!(vision_model.model_type, ModelType::Vision);
    let speech_model = factory.get("granite-speech-4.1-2b").unwrap();
    assert_eq!(speech_model.model_type, ModelType::Speech);
}

#[test]
fn test_model_supported_functions() {
    let factory = models();
    let text_model = factory.get("granite-3.1-8b-instruct").unwrap();
    assert!(text_model.supported_functions.contains(&ModelFunction::Chat));
    let vision_model = factory.get("granite-vision-3.3-2b").unwrap();
    assert!(vision_model.supported_functions.contains(&ModelFunction::Chat));
    assert!(vision_model.supported_functions.contains(&ModelFunction::ImageUnderstanding));
    let speech_model = factory.get("granite-speech-4.1-2b").unwrap();
    assert!(speech_model.supported_functions.contains(&ModelFunction::Chat));
    assert!(speech_model.supported_functions.contains(&ModelFunction::Transcription));
}

#[test]
fn bob_is_among_the_launchers() {
    let registries = builtin_registries(NameMap::new(), NameMap::new(), &NameMap::new());
    assert_eq!(registries.launchers.get("bob").unwrap().name, "Bob CLI");
}

struct TestMade {
    instance_id: String,
    value: u64,
}

/// Two implementations: one takes the value as it is, one doubles it.
enum TestImpl {
    One,
    Two,
}

impl ConfigConstructable for TestImpl {
    type Built = TestMade;

    fn construct(&self, instance_id: &str, cfg: &Json, _global_config: &Config) -> TestMade {
        let value = cfg.get("value").and_then(|v| v.as_u64()).unwrap_or(0);
        TestMade {
            instance_id: instance_id.to_string(),
            value: match self {
                TestImpl::One => value,
                TestImpl::Two => value * 2,
            },
        }
    }
}

fn one() -> Registration<String, TestImpl> {
    Registration {
        metadata: "TestImpl1: A test implementation".to_string(),
        config_schema: json(r#"{"type":"object","title":"NoConfig"}"#),
        default_config: json("{}"),
        constructor: TestImpl::One,
    }
}

fn two() -> Registration<String, TestImpl> {
    Registration {
        metadata: "TestImpl2: Another test implementation".to_string(),
        config_schema: json(r#"{"type":"object","properties":{"value":{"type":"integer"}}}"#),
        default_config: json(r#"{"value":0}"#),
        constructor: TestImpl::Two,
    }
}

fn both() -> Factory<String, TestImpl> {
    let mut factory = Factory::new();
    factory.register("impl1", one());
    factory.register("impl2", two());
    factory
}

#[test]
fn test_factory_registration() {
    let factory = both();
    assert!(factory.get("impl1").is_some());
    assert!(factory.get("impl2").is_some());
    assert!(factory.get("impl3").is_none());
}

#[test]
fn test_factory_metadata() {
    let factory = both();
    assert!(factory.get("impl1").unwrap().contains("TestImpl1"));
    assert!(factory.get("impl2").unwrap().contains("TestImpl2"));
}

#[test]
fn test_factory_construction() {
    let factory = both();
    let cfg = json(r#"{"value":42}"#);
    let config = Config::new();
    let inst1 = factory.construct("impl1", "my-impl1", &cfg, &config).unwrap();
    assert_eq!(inst1.value, 42);
    assert_eq!(inst1.instance_id, "my-impl1");
    let inst2 = factory.construct("impl2", "my-impl2", &cfg, &config).unwrap();
    assert_eq!(inst2.value, 84);
}

#[test]
fn test_factory_construct_unknown() {
    let factory: Factory<String, TestImpl> = Factory::new();
    let result = factory.construct("unknown", "unknown", &json(r#"{"value":42}"#), &Config::new());
    assert!(result.is_err());
    let message = result.err().unwrap();
    assert!(message.contains("Unknown instance type"));
    assert_eq!(message, "Unknown instance type: unknown");
}

#[test]
fn test_factory_entries() {
    let factory = both();
    let entries = factory.entries();
    assert_eq!(entries.len(), 2);
    assert!(entries.iter().any(|(_, s)| s.contains("TestImpl1")));
    assert!(entries.iter().any(|(_, s)| s.contains("TestImpl2")));
}

#[test]
fn test_factory_default() {
    let factory: Factory<String, TestImpl> = Factory::new();
    assert_eq!(factory.entries().len(), 0);
}

#[test]
fn a_later_registration_replaces_an_earlier_one() {
    let mut factory = both();
    factory.register("impl1", two());
    assert!(factory.get("impl1").unwrap().contains("TestImpl2"));
    assert_eq!(factory.entries().len(), 2);
}

#[test]
fn test_config_schema_default_is_opaque() {
    let factory = both();
    let schema = factory.config_schema("impl1").unwrap();
    assert_eq!(schema.text_field("type"), Some("object"));
    assert_eq!(schema.text_field("title"), Some("NoConfig"));
}

#[test]
fn test_config_schema_uses_override() {
    let factory = both();
    let properties = factory.config_schema("impl2").unwrap().get("properties").unwrap();
    assert!(properties.get("value").is_some());
}

#[test]
fn test_config_schema_unknown() {
    assert!(both().config_schema("unknown").is_none());
}

#[test]
fn test_default_config_default_is_empty_object() {
    assert_eq!(both().default_config("impl1").unwrap().pretty(), "{}");
}

#[test]
fn test_default_config_uses_override() {
    let factory = both();
    let value = factory.default_config("impl2").unwrap();
    assert_eq!(value.pretty(), json(r#"{"value":0}"#).pretty());
}

#[test]
fn test_default_config_unknown() {
    assert!(both().default_config("unknown").is_none());
}

fn configured() -> Config {
    let mut config = Config::new();
    config.models.insert(
        "granite-3.1-8b-instruct".to_string(),
        ModelConfig {
            model_id: "granite-3.1-8b-instruct".to_string(),
            model_type: "granite-3.1-8b-instruct".to_string(),
            provider_id: None,
            variant: None,
            config: json("{}"),
        },
    );
    config
}

fn explorer(config: &Config) -> ExploreSubAgentCapability {
    ExploreSubAgentCapability::new(
        "explorer",
        &json(r#"{"description":"Explores code","model_id":"granite-3.1-8b-instruct"}"#),
        config,
    )
}

fn endpoint() -> ResolvedEndpoint {
    ResolvedEndpoint {
        provider_name: "my-ollama".to_string(),
        base_url: "http://localhost:11434".to_string(),
        model_name: "granite-3.1-8b-instruct".to_string(),
        endpoint_path: "/v1/messages".to_string(),
        api_key: None,
        verify_ssl: true,
        context_length: 4096,
    }
}

#[test]
fn bind_succeeds_and_carries_description_prompt_and_tools() {
    let cap = explorer(&configured());
    let request = BindingRequest::SubAgent { api_type: ApiType::Anthropic };
    let binding = match cap.bind(request, Ok(endpoint())).unwrap_or_else(|e| panic!("{e}")) {
        Binding::SubAgent(binding) => binding,
        _ => panic!("expected SubAgent binding"),
    };
    assert_eq!(binding.description, "Explores code");
    assert_eq!(binding.prompt, EXPLORE_PROMPT.to_string());
    assert_eq!(binding.tools, vec![ToolName::FileRead, ToolName::Search, ToolName::Shell]);
    assert_eq!(binding.model.base_url, "http://localhost:11434");
    assert_eq!(binding.model.model_name, "granite-3.1-8b-instruct");
    assert_eq!(binding.model.api_type, ApiType::Anthropic);
    assert_eq!(binding.model.context_length, Some(4096));
    assert_eq!(binding.known_type, Some(KnownSubAgent::Explore));
}

#[test]
fn an_endpoint_is_asked_for_the_configured_model_and_protocol() {
    let cap = explorer(&configured());
    for api_type in [ApiType::OpenAI, ApiType::Anthropic, ApiType::Ollama] {
        let query = cap.endpoint_query(BindingRequest::SubAgent { api_type }).unwrap();
        assert_eq!(query.model_id, "granite-3.1-8b-instruct");
        assert_eq!(query.api_type, api_type);
        assert_eq!(query.model_function, ModelFunction::Chat);
        assert_eq!(query.endpoint_function, ModelFunction::Chat);
    }
    assert_eq!(
        cap.endpoint_query(BindingRequest::Mcp).err().unwrap(),
        "ExploreSubAgentCapability does not handle Mcp binding requests"
    );
    let request = BindingRequest::SubAgent { api_type: ApiType::OpenAI };
    assert_eq!(
        explorer(&Config::new()).endpoint_query(request).err().unwrap(),
        "model 'granite-3.1-8b-instruct' is not configured"
    );
}

#[test]
fn the_program_comes_with_its_types() {
    let registries = builtin_registries(NameMap::new(), NameMap::new(), &NameMap::new());
    for name in ["custom", "granite-3.1-8b-instruct", "granite-3.1-2b-instruct", "granite-guardian-3.1-8b"] {
        assert!(registries.models.get(name).is_some(), "{name}");
    }
    let built = registries.models.construct("custom", "mine", &json("{}"), &Config::new()).ok().unwrap();
    assert_eq!(built.kind, ModelKind::Custom);
    assert_eq!(built.instance_id, "mine");
    assert_eq!(registries.capabilities.get("vision-mcp").unwrap().supported_binding_types, vec![BindingType::Mcp]);
    assert_eq!(
        registries.capabilities.get("sub-agent-explore").unwrap().supported_binding_types,
        vec![BindingType::SubAgent]
    );
}

#[test]
fn bind_refuses_other_requests() {
    let cap = explorer(&configured());
    assert_eq!(
        cap.bind(BindingRequest::Mcp, Ok(endpoint())).err().unwrap(),
        "ExploreSubAgentCapability does not handle Mcp binding requests"
    );
    assert_eq!(
        cap.bind(BindingRequest::AgentModel { api_type: ApiType::OpenAI }, Ok(endpoint()))
            .err()
            .unwrap(),
        "ExploreSubAgentCapability does not handle AgentModel binding requests"
    );
}

#[test]
fn bind_reports_a_model_that_is_gone() {
    let cap = explorer(&Config::new());
    let request = BindingRequest::SubAgent { api_type: ApiType::OpenAI };
    let message = "model 'granite-3.1-8b-instruct' is not configured".to_string();
    assert_eq!(cap.bind(request, Ok(endpoint())).err(), Some(message.clone()));
    assert_eq!(cap.is_healthy(), Err(message));
    assert!(explorer(&configured()).is_healthy().is_ok());
}

#[test]
fn bind_reports_an_endpoint_that_cannot_be_had() {
    let cap = explorer(&configured());
    let request = BindingRequest::SubAgent { api_type: ApiType::OpenAI };
    assert_eq!(cap.bind(request, Err("no provider".to_string())).err().unwrap(), "no provider");
}

#[test]
fn explore_settings_that_make_no_sense_count_as_empty() {
    for text in [
        "null",
        "{}",
        r#"{"description":"d"}"#,
        r#"{"description":"d","model_id":3}"#,
        r#"["d"]"#,
        r#"["d","m","x"]"#,
    ] {
        let cap = ExploreSubAgentCapability::new("e", &json(text), &Config::new());
        assert_eq!((cap.config.description.as_str(), cap.config.model_id.as_str()), ("", ""), "{text}");
    }
    let cap = ExploreSubAgentCapability::new("e", &json(r#"["d","m"]"#), &Config::new());
    assert_eq!((cap.config.description.as_str(), cap.config.model_id.as_str()), ("d", "m"));
    assert_eq!(cap.instance_id(), "e");
    assert!(cap.config.is_valid());
    assert!(!ExploreSubAgentCapability::new("e", &json(r#"["d",""]"#), &Config::new()).config.is_valid());
}

#[test]
fn binding_types_reports_sub_agent() {
    assert_eq!(explorer(&configured()).binding_types(), vec![BindingType::SubAgent]);
}

#[test]
fn dependencies_carry_resolved_model_id() {
    let deps = explorer(&configured()).dependencies();
    assert_eq!(deps.len(), 1);
    assert!(deps.iter().any(|d| matches!(
        d,
        Dependency::Model { resolved_id: Some(id), .. } if id == "granite-3.1-8b-instruct"
    )));
}

#[test]
fn metadata_reports_supported_binding_types_and_wildcard_dependency() {
    let meta = ExploreSubAgentCapability::metadata();
    assert_eq!(meta.supported_binding_types, vec![BindingType::SubAgent]);
    assert!(meta
        .dependencies
        .iter()
        .any(|d| matches!(d, Dependency::Model { resolved_id: None, .. })));
    assert_eq!(meta.tags, vec!["agent", "explore"]);
}

#[test]
fn capability_model_ids_reads_the_model_slots() {
    let capability = CapabilityConfig {
        capability_id: "c".to_string(),
        capability_type: "t".to_string(),
        config: json(r#"{"a":"m1","b":5,"c":""}"#),
    };
    let slot = |key: &str| Dependency::Model {
        config_key: key.to_string(),
        requirement: ModelRequirement { supported_functions: vec![] },
        resolved_id: None,
        required: true,
    };
    let ids = capability_model_ids(&capability, &vec![slot("a"), slot("b"), slot("c"), slot("d")]);
    assert_eq!(ids.len(), 2);
    assert_eq!(ids.get("a").unwrap(), "m1");
    assert_eq!(ids.get("c").unwrap(), "");
    assert_eq!(capability_model_ids(&capability, &vec![]).len(), 0);
}
