use std::sync::Arc;

use granite_cli::capabilities::source::CapabilitySource;
use granite_cli::capabilities::BuiltCapability;
use granite_cli::catalog::builtin_registries;
use granite_cli::config::{CapabilityConfig, Config, ModelConfig, ProviderConfig, ProxyHandle};
use granite_cli::json::Json;
use granite_cli::models::source::{accepts_provider, ModelSource};
use granite_cli::models::{BuiltModel, ModelKind};
use granite_cli::name_map::NameMap;
use granite_cli::providers::{
    ApiType, HandedOut, ModelAlias, ProviderInstance, ProviderMetadata, ProviderSource, Secret,
};
use granite_cli::proxy::model_wrapper::ProxiedProvider;
use granite_cli::proxy::routes::{
    launch_routes, model_ids_named_by, route_failure_text, route_to, route_warnings, Route,
    UpstreamAuth,
};
use granite_cli::registry::{ConstructError, Named, Registries};
use granite_cli::sources::{SourceError, Sources};

fn json(text: &str) -> Json {
    Json::parse(text).unwrap()
}

fn registries() -> Arc<Registries> {
    let mut providers = NameMap::new();
    providers.insert(
        "ollama".to_string(),
        ProviderMetadata { name: "Ollama".to_string(), description: String::new() },
    );
    Arc::new(builtin_registries(NameMap::new(), providers, &NameMap::new()))
}

fn add_provider(config: &mut Config) {
    config.providers.insert(
        "ollama".to_string(),
        ProviderConfig {
            provider_id: "ollama".to_string(),
            provider_type: "ollama".to_string(),
            config: json(r#"{"base_url":"http://localhost:11434"}"#),
        },
    );
}

fn add_model(config: &mut Config, id: &str, model_type: &str, provider: &str) {
    config.models.insert(
        id.to_string(),
        ModelConfig {
            model_id: id.to_string(),
            model_type: model_type.to_string(),
            provider_id: Some(provider.to_string()),
            variant: None,
            config: json("{}"),
        },
    );
}

fn add_capability(config: &mut Config, id: &str, capability_type: &str, settings: &str) {
    config.capabilities.insert(
        id.to_string(),
        CapabilityConfig {
            capability_id: id.to_string(),
            capability_type: capability_type.to_string(),
            config: json(settings),
        },
    );
}

const GRANITE: &str = "granite-3.1-8b-instruct";

fn with_one_model() -> Config {
    let mut config = Config::new();
    add_provider(&mut config);
    add_model(&mut config, GRANITE, GRANITE, "ollama");
    config
}

fn upstream() -> ProviderInstance {
    ProviderInstance {
        instance_id: "ollama".to_string(),
        name: "Ollama".to_string(),
        base_url: "http://localhost:11434".to_string(),
        api_key: Some(Secret("real-secret".to_string())),
        verify_ssl: false,
        api_types: vec![ApiType::OpenAI],
        formats: vec!["GGUF".to_string()],
        runnable: vec![("GGUF".to_string(), "Q4_K_M".to_string())],
        aliases: vec![],
        endpoints: vec![],
        custom_headers: None,
    }
}

fn upstreams() -> NameMap<ProviderInstance> {
    let mut map = NameMap::new();
    map.insert("ollama".to_string(), upstream());
    map
}

fn model_source(config: Config) -> ModelSource {
    ModelSource::from_config(&Arc::new(config), &registries())
}

fn cached_ids(built: &NameMap<Arc<BuiltModel>>) -> Vec<String> {
    let mut ids: Vec<String> = (0..built.len()).map(|i| built.at(i).0.clone()).collect();
    ids.sort();
    ids
}

fn instance_ids(source: &ModelSource) -> Vec<String> {
    let mut built = NameMap::new();
    let mut ids: Vec<String> =
        source.instances(&mut built, &NameMap::new()).into_iter().map(|(id, _)| id).collect();
    ids.sort();
    ids
}

#[test]
fn model_source_constructs_one_instance_per_configured_model() {
    let mut config = Config::new();
    add_model(&mut config, GRANITE, GRANITE, "ollama");
    add_model(&mut config, "granite-guardian-3.1-8b", "granite-guardian-3.1-8b", "ollama");
    assert_eq!(
        instance_ids(&model_source(config)),
        vec![GRANITE.to_string(), "granite-guardian-3.1-8b".to_string()]
    );
}

#[test]
fn model_source_resolves_provider_from_provider_id() {
    let source = model_source(with_one_model());
    let mut built = NameMap::new();
    let instances = source.instances(&mut built, &NameMap::new());
    let (_, fetched) = instances.into_iter().find(|(id, _)| id == GRANITE).unwrap();
    let provider = fetched.model.config.get("provider_config").unwrap();
    assert_eq!(provider.text_field("provider_id"), Some("ollama"));
    assert_eq!(provider.text_field("type"), Some("ollama"));
    assert_eq!(
        provider.get("config").unwrap().text_field("base_url"),
        Some("http://localhost:11434")
    );
    let map = upstreams();
    assert_eq!(source.provider_for(&map, GRANITE).unwrap().base_url(), "http://localhost:11434");
}

#[test]
fn model_source_provider_errs_when_provider_id_unresolvable() {
    let mut config = Config::new();
    add_model(&mut config, GRANITE, GRANITE, "does-not-exist");
    let source = model_source(config);
    let mut built = NameMap::new();
    let fetched = source.get(&mut built, &NameMap::new(), GRANITE).unwrap_or_else(|e| panic!("{e}"));
    assert!(fetched.model.config.get("provider_config").is_none());
    assert!(source.provider_for(&upstreams(), GRANITE).is_none());
    assert!(source.provider_for(&upstreams(), "not-configured").is_none());
}

#[test]
fn a_model_finds_its_provider_and_the_proxy_in_front_of_it() {
    let map = upstreams();
    let plain = model_source(with_one_model());
    match plain.provider_for(&map, GRANITE) {
        Some(HandedOut::Upstream(provider)) => assert_eq!(provider.instance_id, "ollama"),
        _ => panic!("expected the provider itself"),
    }
    assert!(plain.provider_for(&NameMap::new(), GRANITE).is_none());

    let mut config = with_one_model();
    config.model_proxy = Some(ProxyHandle { local_base_url: "http://127.0.0.1:9999".to_string() });
    let proxied = model_source(config).provider_for(&map, GRANITE).unwrap();
    assert_eq!(proxied.base_url(), "http://127.0.0.1:9999");
}

#[test]
fn a_built_model_tells_its_type_its_implementation_and_its_variant() {
    let mut config = with_one_model();
    config.models.insert(
        "mine".to_string(),
        ModelConfig {
            model_id: "mine".to_string(),
            model_type: "custom".to_string(),
            provider_id: None,
            variant: Some("GGUF-Q8".to_string()),
            config: json("{}"),
        },
    );
    let source = model_source(config);
    let mut built = NameMap::new();
    let custom = source.get(&mut built, &NameMap::new(), "mine").unwrap_or_else(|e| panic!("{e}"));
    assert_eq!(custom.model.model_type, "custom");
    assert_eq!(custom.model.kind, ModelKind::Custom);
    assert_eq!(custom.model.variant.as_deref(), Some("GGUF-Q8"));
    let granite = source.get(&mut built, &NameMap::new(), GRANITE).unwrap_or_else(|e| panic!("{e}"));
    assert_eq!(granite.model.model_type, GRANITE);
    assert_ne!(granite.model.kind, ModelKind::Custom);
    assert_eq!(granite.model.variant, None);
    for (id, fetched) in source.instances(&mut NameMap::new(), &NameMap::new()) {
        assert_eq!(fetched.model.model_type == "custom", id == "mine");
        assert_eq!(fetched.model.instance_id(), id);
    }
}

#[test]
fn model_source_skips_unknown_model_ids() {
    let mut config = Config::new();
    add_model(&mut config, "not-a-real-model", "not-a-real-model", "ollama");
    assert!(instance_ids(&model_source(config)).is_empty());
}

#[test]
fn get_returns_the_same_instance_for_every_call() {
    let mut config = Config::new();
    add_model(&mut config, GRANITE, GRANITE, "ollama");
    let source = model_source(config);
    let mut built = NameMap::new();
    let first = source.get(&mut built, &NameMap::new(), GRANITE).unwrap_or_else(|e| panic!("{e}"));
    let second = source.get(&mut built, &NameMap::new(), GRANITE).unwrap_or_else(|e| panic!("{e}"));
    assert!(
        Arc::ptr_eq(&first.model, &second.model),
        "a second get must return the same object, not a rebuilt one"
    );
    assert_eq!(first.model.instance_id(), GRANITE);
}

#[test]
fn instances_hands_out_the_same_object_get_does() {
    let source = model_source(with_one_model());
    let mut built = NameMap::new();
    let from_instances = source
        .instances(&mut built, &NameMap::new())
        .into_iter()
        .find(|(id, _)| id == GRANITE)
        .map(|(_, fetched)| fetched.model)
        .unwrap();
    let from_get = source.get(&mut built, &NameMap::new(), GRANITE).unwrap_or_else(|e| panic!("{e}"));
    assert!(Arc::ptr_eq(&from_instances, &from_get.model));
}

#[test]
fn get_errs_naming_an_id_that_is_not_configured() {
    let source = model_source(Config::new());
    let mut built = NameMap::new();
    let err = source
        .get(&mut built, &NameMap::new(), "not-configured")
        .err()
        .expect("an unconfigured id must not resolve");
    assert!(err.contains("not-configured"));
    assert_eq!(err, "model 'not-configured' is not configured");
    assert_eq!(built.len(), 0);
}

#[test]
fn get_errs_for_a_configured_id_whose_type_is_unknown() {
    let mut config = Config::new();
    add_model(&mut config, "mystery", "not-a-catalog-id", "ollama");
    let mut built = NameMap::new();
    let err = model_source(config)
        .get(&mut built, &NameMap::new(), "mystery")
        .err()
        .expect("an unknown model type must not construct");
    assert!(err.contains("mystery"), "got: {err}");
    assert_eq!(
        err,
        "could not construct model 'mystery': Unknown instance type: not-a-catalog-id"
    );
    assert_eq!(built.len(), 0);
}

#[test]
fn get_builds_only_the_model_it_was_asked_for() {
    let mut config = Config::new();
    for id in [GRANITE, "granite-3.1-2b-instruct"] {
        add_model(&mut config, id, id, "ollama");
    }
    let source = model_source(config);
    let mut built = NameMap::new();
    assert!(cached_ids(&built).is_empty(), "nothing is built up front");
    assert!(source.get(&mut built, &NameMap::new(), GRANITE).is_ok());
    assert_eq!(
        cached_ids(&built),
        vec![GRANITE.to_string()],
        "asking for one model must not drag in the other"
    );
}

#[test]
fn instances_omits_a_model_that_cannot_be_built_and_keeps_the_rest() {
    let mut config = Config::new();
    add_model(&mut config, GRANITE, GRANITE, "ollama");
    add_model(&mut config, "broken", "not-a-catalog-id", "ollama");
    let source = model_source(config);
    let mut built = NameMap::new();
    assert!(source.get(&mut built, &NameMap::new(), GRANITE).is_ok());
    assert_eq!(cached_ids(&built), vec![GRANITE]);
    let ids: Vec<String> =
        source.instances(&mut built, &NameMap::new()).into_iter().map(|(id, _)| id).collect();
    assert_eq!(ids, vec![GRANITE.to_string()]);
    assert_eq!(cached_ids(&built), vec![GRANITE]);
}

#[test]
fn take_routes_through_proxy_and_registers_a_route_when_a_handle_is_active() {
    let mut config = with_one_model();
    config.model_proxy = Some(ProxyHandle { local_base_url: "http://127.0.0.1:9999".to_string() });
    let source = model_source(config);
    let mut built = NameMap::new();
    let fetched = source.get(&mut built, &upstreams(), GRANITE).unwrap_or_else(|e| panic!("{e}"));
    assert_eq!(fetched.model.proxied_at.as_deref(), Some("http://127.0.0.1:9999"));
    let route = fetched.route.unwrap();
    assert_eq!(route.key, GRANITE);
    assert_eq!(route.label, GRANITE);
    assert_eq!(route.target.base_url, "http://localhost:11434");
    assert!(!route.target.verify_ssl);
    let UpstreamAuth::Inject(key) = route.target.auth;
    assert_eq!(key.unwrap().0, "real-secret");

    let again = source.get(&mut built, &upstreams(), GRANITE).unwrap_or_else(|e| panic!("{e}"));
    assert!(again.route.is_none(), "the route is there already");
}

#[test]
fn a_model_without_a_usable_provider_is_proxied_without_a_route() {
    let mut config = with_one_model();
    config.model_proxy = Some(ProxyHandle { local_base_url: "http://127.0.0.1:9999".to_string() });
    let mut built = NameMap::new();
    let fetched = model_source(config)
        .get(&mut built, &NameMap::new(), GRANITE)
        .unwrap_or_else(|e| panic!("{e}"));
    assert!(fetched.route.is_none());
    assert!(fetched.model.proxied_at.is_some());
}

#[test]
fn model_sources_list_their_types() {
    let source = model_source(Config::new());
    assert!(source.catalog().iter().any(|(name, _)| *name == "custom"));
    assert!(source.config_schema("custom").is_some());
    assert!(source.config_schema("nothing").is_none());
}

fn capability_source(config: Config) -> CapabilitySource {
    CapabilitySource::from_config(&Arc::new(config), &registries())
}

#[test]
fn capability_source_constructs_one_instance_per_named_capability() {
    let mut config = with_one_model();
    add_capability(&mut config, "chat", "agent-model", r#"{"model_id":"granite-3.1-8b-instruct"}"#);
    let mut built = NameMap::new();
    let ids: Vec<String> = capability_source(config)
        .instances(&mut built)
        .into_iter()
        .map(|(id, _)| id)
        .collect();
    assert_eq!(ids, vec!["chat".to_string()]);
}

#[test]
fn capability_source_skips_unknown_capability_types() {
    let mut config = Config::new();
    add_capability(&mut config, "bogus", "not-a-real-capability", "{}");
    let source = capability_source(config);
    let mut built = NameMap::new();
    assert!(source.instances(&mut built).is_empty());
    assert_eq!(
        source.get(&mut built, "bogus").err().unwrap(),
        "Skipping capability 'bogus': capability 'bogus' has an unknown capability type 'not-a-real-capability'"
    );
}

#[test]
fn capability_source_skips_a_capability_whose_model_is_gone() {
    let mut config = Config::new();
    add_capability(&mut config, "chat", "agent-model", r#"{"model_id":"granite-3.1-8b-instruct"}"#);
    let source = capability_source(config);
    let mut built = NameMap::new();
    assert!(source.instances(&mut built).is_empty());
    assert_eq!(built.len(), 0);
    assert_eq!(
        source.get(&mut built, "nobody").err().unwrap(),
        "capability 'nobody' is not configured"
    );
}

#[test]
fn capability_source_returns_the_same_instance() {
    let mut config = with_one_model();
    add_capability(
        &mut config,
        "explore",
        "sub-agent-explore",
        r#"{"description":"d","model_id":"granite-3.1-8b-instruct"}"#,
    );
    let source = capability_source(config);
    let mut built = NameMap::new();
    let first = source.get(&mut built, "explore").unwrap_or_else(|e| panic!("{e}"));
    let second = source.get(&mut built, "explore").unwrap_or_else(|e| panic!("{e}"));
    assert!(Arc::ptr_eq(&first, &second));
    assert_eq!(first.instance_id(), "explore");
    match &*first {
        BuiltCapability::Explore(capability) => assert!(capability.is_healthy().is_ok()),
        _ => panic!("expected the exploring sub-agent"),
    }
}

#[test]
fn a_capability_that_carries_another_id_may_fail_to_construct() {
    let mut config = with_one_model();
    add_capability(&mut config, "chat", "agent-model", r#"{"model_id":"granite-3.1-8b-instruct"}"#);
    config.capabilities.insert(
        "alias".to_string(),
        CapabilityConfig {
            capability_id: "chat".to_string(),
            capability_type: "nothing".to_string(),
            config: json("{}"),
        },
    );
    let mut built = NameMap::new();
    assert_eq!(
        capability_source(config).get(&mut built, "alias").err().unwrap(),
        "could not construct capability 'alias': Unknown instance type: nothing"
    );
}

#[test]
fn two_asks_share_one_set_and_one_instance_per_id() {
    let sources = Sources::build(&Arc::new(with_one_model()), &registries(), None);
    let second = sources.share();
    assert!(Arc::ptr_eq(&sources.models(), &second.models()));
    assert!(Arc::ptr_eq(&sources.providers(), &second.providers()));
    assert!(Arc::ptr_eq(&sources.launchers(), &second.launchers()));

    let mut built = NameMap::new();
    let model = sources.models().get(&mut built, &NameMap::new(), GRANITE).unwrap_or_else(|e| panic!("{e}"));
    let again = second.models().get(&mut built, &NameMap::new(), GRANITE).unwrap_or_else(|e| panic!("{e}"));
    assert!(Arc::ptr_eq(&model.model, &again.model));
}

#[test]
fn a_capability_and_a_command_resolve_the_same_provider() {
    let sources = Sources::build(&Arc::new(with_one_model()), &registries(), None);
    assert!(Arc::ptr_eq(&sources.models().providers, &sources.providers()));
    assert!(Arc::ptr_eq(&sources.capabilities().models, &sources.models()));
    let map = upstreams();
    let direct = sources.providers().get(&map, "ollama").unwrap();
    let through_the_model = sources.capabilities().models.provider_for(&map, GRANITE).unwrap();
    match (direct, through_the_model) {
        (HandedOut::Upstream(a), HandedOut::Upstream(b)) => assert!(std::ptr::eq(a, b)),
        _ => panic!("no proxy was set up"),
    }
}

#[test]
fn a_write_ends_the_snapshot() {
    let before = Sources::build(&Arc::new(with_one_model()), &registries(), None);
    let mut built = NameMap::new();
    let model_before =
        before.models().get(&mut built, &NameMap::new(), GRANITE).unwrap_or_else(|e| panic!("{e}"));

    let mut config = with_one_model();
    config.models.remove(GRANITE).unwrap();
    let after = Sources::build(&Arc::new(config), &registries(), None);
    assert!(!Arc::ptr_eq(&before.models(), &after.models()));
    assert!(after.models().get(&mut NameMap::new(), &NameMap::new(), GRANITE).is_err());

    assert_eq!(model_before.model.instance_id(), GRANITE);
    assert!(before.models().get(&mut built, &NameMap::new(), GRANITE).is_ok());
}

#[test]
fn a_session_proxy_ends_the_snapshot_too() {
    let config = Arc::new(with_one_model());
    let real = upstream();
    let plain = ProviderSource::with_proxy(&config, None);
    assert_eq!(plain.hand_out(&real).base_url(), "http://localhost:11434");

    let handle = ProxyHandle { local_base_url: "http://127.0.0.1:9999".to_string() };
    let sources = Sources::build(&config, &registries(), Some(handle));
    assert_eq!(sources.providers().hand_out(&real).base_url(), "http://127.0.0.1:9999");
    assert_eq!(real.base_url, "http://localhost:11434");
}

#[test]
fn failures_read_the_same_for_all_kinds() {
    assert_eq!(
        SourceError::NotConfigured.about("model", "m"),
        "model 'm' is not configured"
    );
    let unknown = ConstructError::UnknownType { type_key: "x".to_string() };
    assert_eq!(
        SourceError::from(unknown).about("launcher", "l"),
        "launcher 'l' has an unknown launcher type 'x'"
    );
    let settings = ConstructError::Settings { detail: "bad".to_string() };
    assert_eq!(
        SourceError::Construct(settings).about("provider", "p"),
        "the settings for provider 'p' are not valid: bad"
    );
}

#[test]
fn wrap_points_connection_details_at_local_proxy_and_clears_api_key() {
    let mut real = upstream();
    real.base_url = "https://api.example.com".to_string();
    let wrapped = ProxiedProvider::wrap(&real, "http://127.0.0.1:9999".to_string());
    assert_eq!(wrapped.base_url(), "http://127.0.0.1:9999");
    assert!(
        wrapped.api_key().is_none(),
        "the launched process talks to the proxy and never sees the real credential"
    );
    assert!(wrapped.verify_ssl());
    assert_eq!(real.base_url, "https://api.example.com");
}

#[test]
fn everything_but_connection_details_delegates_to_inner() {
    let mut real = upstream();
    real.name = "fake".to_string();
    real.instance_id = "so fake!".to_string();
    let wrapped = ProxiedProvider::wrap(&real, "http://127.0.0.1:9999".to_string());
    assert_eq!(wrapped.name(), "fake");
    assert_eq!(wrapped.instance_id(), "so fake!");
    assert_eq!(wrapped.model_alias("granite", None), None);
    assert!(wrapped.can_run_model("GGUF", "Q4_K_M"));
    assert!(!wrapped.can_run_model("GGUF", "F16"));
    assert!(!wrapped.can_run_model("Safetensors", "Q4_K_M"));
    assert_eq!(wrapped.supported_api_types(), &vec![ApiType::OpenAI]);
    assert_eq!(wrapped.supported_formats(), &vec!["GGUF".to_string()]);
    assert!(wrapped.function_endpoints().is_empty());
    assert!(wrapped.custom_headers().is_none());
}

fn with_alias(mut provider: ProviderInstance, model: &str, variant: Option<&str>, name: &str) -> ProviderInstance {
    provider.aliases.push(ModelAlias {
        model_id: model.to_string(),
        variant: variant.map(str::to_string),
        name: name.to_string(),
    });
    provider
}

#[test]
fn routes_lead_from_the_alias_to_the_real_provider() {
    let real = with_alias(upstream(), "m", None, "granite3:8b");
    let route = route_to("m", None, &real);
    assert_eq!(route.key, "granite3:8b");
    assert_eq!(route.label, "m");
    assert_eq!(route_to("other", None, &real).key, "other");
    assert_eq!(
        ProxiedProvider::wrap(&real, "u".to_string()).model_alias("m", None),
        Some("granite3:8b")
    );
    assert_eq!(
        route_failure_text("m", "busy"),
        "failed to register proxy route for model 'm': busy"
    );
}

#[test]
fn two_variants_of_a_model_get_routes_of_their_own() {
    let real = with_alias(upstream(), "m", Some("Q4"), "m:q4");
    let real = with_alias(real, "m", Some("Q8"), "m:q8");
    let real = with_alias(real, "m", Some("Q8"), "never");
    assert_eq!(route_to("m", Some("Q4"), &real).key, "m:q4");
    assert_eq!(route_to("m", Some("Q8"), &real).key, "m:q8");
    assert_eq!(route_to("m", Some("F16"), &real).key, "m");
    assert_eq!(route_to("m", None, &real).key, "m");

    let mut config = with_one_model();
    config.model_proxy = Some(ProxyHandle { local_base_url: "http://127.0.0.1:9999".to_string() });
    config.models.insert(
        "m".to_string(),
        ModelConfig {
            model_id: "m".to_string(),
            model_type: GRANITE.to_string(),
            provider_id: Some("ollama".to_string()),
            variant: Some("Q8".to_string()),
            config: json("{}"),
        },
    );
    let mut map = NameMap::new();
    map.insert("ollama".to_string(), real);
    let fetched = model_source(config)
        .get(&mut NameMap::new(), &map, "m")
        .unwrap_or_else(|e| panic!("{e}"));
    assert_eq!(fetched.route.unwrap().key, "m:q8");
}

fn keys(routes: &[Route]) -> Vec<(&str, &str)> {
    routes.iter().map(|route| (route.key.as_str(), route.label.as_str())).collect()
}

#[test]
fn a_launch_routes_the_models_that_can_be_had() {
    let mut config = with_one_model();
    add_model(&mut config, "second", GRANITE, "ollama");
    add_model(&mut config, "typeless", "not-a-catalog-id", "ollama");
    add_model(&mut config, "homeless", GRANITE, "does-not-exist");
    for (id, model) in
        [("a", "second"), ("b", "typeless"), ("c", "homeless"), ("d", "gone"), ("e", GRANITE), ("f", "second")]
    {
        add_capability(&mut config, id, "agent-model", &format!(r#"{{"model_id":"{model}"}}"#));
    }
    let mut map = NameMap::new();
    map.insert("ollama".to_string(), with_alias(upstream(), "second", None, "second:latest"));
    let enabled: Vec<String> = ["a", "b", "c", "d", "e", "f"].iter().map(|s| s.to_string()).collect();
    let routes = launch_routes(&config, &registries(), &map, &enabled);
    assert_eq!(keys(&routes), vec![("second:latest", "second"), (GRANITE, GRANITE)]);
    assert!(launch_routes(&config, &registries(), &NameMap::new(), &enabled).is_empty());
    assert!(launch_routes(&config, &registries(), &map, &vec![]).is_empty());
}

#[test]
fn each_route_that_fails_is_told_once() {
    let outcomes = vec![
        ("a".to_string(), None),
        ("b".to_string(), Some("busy".to_string())),
        ("c".to_string(), None),
        ("d".to_string(), Some("gone".to_string())),
    ];
    assert_eq!(
        route_warnings(&outcomes),
        vec![
            "failed to register proxy route for model 'b': busy",
            "failed to register proxy route for model 'd': gone",
        ]
    );
    assert!(route_warnings(&vec![]).is_empty());
}

#[test]
fn each_named_model_is_routed_once() {
    let mut config = with_one_model();
    add_capability(&mut config, "a", "agent-model", r#"{"model_id":"x"}"#);
    add_capability(&mut config, "b", "vision-mcp", r#"{"model_id":"y"}"#);
    add_capability(&mut config, "c", "agent-model", r#"{"model_id":"x"}"#);
    add_capability(&mut config, "empty", "agent-model", r#"{"model_id":""}"#);
    add_capability(&mut config, "odd", "nothing", r#"{"model_id":"z"}"#);
    let names: Vec<String> =
        ["b", "gone", "a", "empty", "odd", "c"].iter().map(|s| s.to_string()).collect();
    assert_eq!(model_ids_named_by(&config, &registries(), &names), vec!["y", "x"]);
}

#[test]
fn settings_that_cannot_take_a_provider_are_recognised() {
    let mut config = with_one_model();
    assert!(accepts_provider(&config, GRANITE));
    assert!(accepts_provider(&config, "nobody"));
    config.models.insert(
        "odd".to_string(),
        ModelConfig {
            model_id: "odd".to_string(),
            model_type: "custom".to_string(),
            provider_id: Some("ollama".to_string()),
            variant: None,
            config: json("[]"),
        },
    );
    assert!(!accepts_provider(&config, "odd"));
    config.providers.remove("ollama");
    assert!(accepts_provider(&config, "odd"));
}
