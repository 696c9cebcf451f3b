use granite_cli::capabilities::{Dependency, ModelRequirement, ProviderRequirement, ShellCommandRequirement};
use granite_cli::catalog::builtin_registries;
use granite_cli::config::validation::{
    dependency_refs, find_dangling, validate_ref, Problem, RefKind, ValidationError,
};
use granite_cli::config::{CapabilityConfig, Config, LauncherConfig, ModelConfig, ProviderConfig};
use granite_cli::json::Json;
use granite_cli::launchers::LauncherMetadata;
use granite_cli::name_map::NameMap;
use granite_cli::providers::ProviderMetadata;
use granite_cli::registry::Registries;

fn json(text: &str) -> Json {
    Json::parse(text).unwrap()
}

fn registries() -> Registries {
    let mut launchers = NameMap::new();
    launchers.insert(
        "goose".to_string(),
        LauncherMetadata {
            name: "Goose".to_string(),
            description: String::new(),
            default_command: "goose".to_string(),
            supported_capabilities: vec![],
            tags: vec![],
        },
    );
    let mut providers = NameMap::new();
    providers.insert(
        "ollama".to_string(),
        ProviderMetadata { name: "Ollama".to_string(), description: String::new() },
    );
    builtin_registries(launchers, providers, &NameMap::new())
}

fn provider(id: &str, provider_type: &str) -> ProviderConfig {
    ProviderConfig {
        provider_id: id.to_string(),
        provider_type: provider_type.to_string(),
        config: json("{}"),
    }
}

fn model(id: &str, model_type: &str, provider_id: Option<&str>) -> ModelConfig {
    ModelConfig {
        model_id: id.to_string(),
        model_type: model_type.to_string(),
        provider_id: provider_id.map(str::to_string),
        variant: None,
        config: json("{}"),
    }
}

fn capability(id: &str, capability_type: &str, model_id: &str) -> CapabilityConfig {
    CapabilityConfig {
        capability_id: id.to_string(),
        capability_type: capability_type.to_string(),
        config: json(&format!("{{\"model_id\":\"{model_id}\"}}")),
    }
}

fn launcher(id: &str, launcher_type: &str, enabled: &[&str]) -> LauncherConfig {
    LauncherConfig {
        launcher_id: id.to_string(),
        launcher_type: launcher_type.to_string(),
        enabled_capabilities: enabled.iter().map(|s| s.to_string()).collect(),
        config: json("{}"),
    }
}

/// Launcher `goose` enables capability `chat`, which uses model `m1`, which uses
/// provider `p1`.
fn healthy() -> Config {
    let mut config = Config::new();
    config.providers.insert("p1".into(), provider("p1", "ollama"));
    config.models.insert("m1".into(), model("m1", "custom", Some("p1")));
    config.capabilities.insert("chat".into(), capability("chat", "agent-model", "m1"));
    config.launchers.insert("goose".into(), launcher("goose", "goose", &["chat"]));
    config
}

fn failure(kind: RefKind, id: &str, config: &Config) -> ValidationError {
    validate_ref(kind, id, config, &registries()).expect_err("should fail")
}

fn passes(kind: RefKind, id: &str, config: &Config) -> bool {
    validate_ref(kind, id, config, &registries()).is_ok()
}

fn broken_ids(kind: RefKind, config: &Config) -> Vec<String> {
    let mut ids: Vec<String> = find_dangling(kind, config, &registries())
        .into_iter()
        .map(|d| d.instance_id)
        .collect();
    ids.sort();
    ids
}

#[test]
fn healthy_instance_of_each_kind_passes() {
    let config = healthy();
    for (kind, id) in [
        (RefKind::Provider, "p1"),
        (RefKind::Model, "m1"),
        (RefKind::Capability, "chat"),
        (RefKind::Launcher, "goose"),
    ] {
        assert!(passes(kind, id, &config), "{} '{id}' should validate", kind.name());
    }
}

#[test]
fn unconfigured_instance_of_each_kind_fails() {
    let config = healthy();
    for kind in [RefKind::Provider, RefKind::Model, RefKind::Capability, RefKind::Launcher] {
        let err = failure(kind, "nope", &config);
        assert_eq!(err.problem, Problem::NotConfigured);
        assert_eq!(err.target, (kind, "nope".to_string()));
        assert_eq!(err.referrer, None);
    }
}

#[test]
fn dangling_instance_of_each_kind_fails_while_the_healthy_one_passes() {
    let mut config = healthy();
    config.models.insert("m-broken".into(), model("m-broken", "custom", Some("gone")));
    config
        .capabilities
        .insert("cap-broken".into(), capability("cap-broken", "agent-model", "gone"));
    config
        .launchers
        .insert("launcher-broken".into(), launcher("launcher-broken", "goose", &["gone"]));

    assert!(passes(RefKind::Model, "m1", &config));
    assert!(!passes(RefKind::Model, "m-broken", &config));
    assert!(passes(RefKind::Capability, "chat", &config));
    assert!(!passes(RefKind::Capability, "cap-broken", &config));
    assert!(passes(RefKind::Launcher, "goose", &config));
    assert!(!passes(RefKind::Launcher, "launcher-broken", &config));
}

#[test]
fn walk_recurses_from_launcher_to_the_missing_provider() {
    let mut config = healthy();
    config.providers.remove("p1");
    let err = failure(RefKind::Launcher, "goose", &config);
    assert_eq!(err.target, (RefKind::Provider, "p1".to_string()));
    assert_eq!(err.problem, Problem::NotConfigured);
    assert_eq!(err.referrer, Some((RefKind::Model, "m1".to_string())));
}

#[test]
fn error_names_the_capability_holding_a_missing_model() {
    let mut config = healthy();
    config.models.remove("m1");
    let err = failure(RefKind::Launcher, "goose", &config);
    assert_eq!(err.target, (RefKind::Model, "m1".to_string()));
    assert_eq!(err.referrer, Some((RefKind::Capability, "chat".to_string())));
    assert_eq!(
        err.text(),
        "capability 'chat' depends on model 'm1', which is not configured"
    );
}

#[test]
fn a_model_with_no_provider_differs_from_one_with_a_dangling_provider() {
    let mut config = healthy();
    config.models.insert("m-none".into(), model("m-none", "custom", None));
    config.models.insert("m-gone".into(), model("m-gone", "custom", Some("gone")));

    let none = failure(RefKind::Model, "m-none", &config);
    let gone = failure(RefKind::Model, "m-gone", &config);

    assert_eq!(none.problem, Problem::NoProviderConfigured);
    assert_eq!(none.text(), "model 'm-none' has no provider configured");
    assert_eq!(gone.problem, Problem::NotConfigured);
    assert_eq!(gone.target, (RefKind::Provider, "gone".to_string()));
    assert_eq!(
        gone.text(),
        "model 'm-gone' depends on provider 'gone', which is not configured"
    );
    assert_ne!(none.problem, gone.problem);
}

#[test]
fn an_unknown_type_name_fails_for_each_kind() {
    let mut config = healthy();
    config.providers.insert("p-bad".into(), provider("p-bad", "not-a-provider"));
    config.models.insert("m-bad".into(), model("m-bad", "not-a-model", Some("p1")));
    config
        .capabilities
        .insert("cap-bad".into(), capability("cap-bad", "not-a-capability", "m1"));
    config
        .launchers
        .insert("launcher-bad".into(), launcher("launcher-bad", "not-a-launcher", &[]));

    for (kind, id, type_key) in [
        (RefKind::Provider, "p-bad", "not-a-provider"),
        (RefKind::Model, "m-bad", "not-a-model"),
        (RefKind::Capability, "cap-bad", "not-a-capability"),
        (RefKind::Launcher, "launcher-bad", "not-a-launcher"),
    ] {
        let err = failure(kind, id, &config);
        assert_eq!(
            err.problem,
            Problem::UnknownType { type_key: type_key.to_string() },
            "{} '{id}'",
            kind.name()
        );
    }
    assert_eq!(
        failure(RefKind::Model, "m-bad", &config).text(),
        "model 'm-bad' has an unknown model type 'not-a-model'"
    );
}

fn on_model(key: &str, required: bool) -> Vec<Dependency> {
    vec![Dependency::Model {
        config_key: key.to_string(),
        requirement: ModelRequirement { supported_functions: vec![] },
        resolved_id: None,
        required,
    }]
}

#[test]
fn an_optional_dependency_contributes_a_ref_only_when_it_holds_an_id() {
    let optional = on_model("model_id", false);
    assert_eq!(dependency_refs(&json("{}"), &optional), Ok(vec![]));
    assert_eq!(dependency_refs(&json(r#"{"model_id":""}"#), &optional), Ok(vec![]));
    assert_eq!(dependency_refs(&json(r#"{"model_id":7}"#), &optional), Ok(vec![]));
    assert_eq!(
        dependency_refs(&json(r#"{"model_id":"m1"}"#), &optional),
        Ok(vec![(RefKind::Model, "m1")])
    );
    assert_eq!(
        dependency_refs(&json(r#"{"model_id":"gone"}"#), &optional),
        Ok(vec![(RefKind::Model, "gone")])
    );
}

#[test]
fn an_absent_required_dependency_is_a_missing_dependency() {
    assert_eq!(
        dependency_refs(&json("{}"), &on_model("model_id", true)),
        Err(Problem::MissingDependency { config_key: "model_id".to_string() })
    );
    let rendered = ValidationError {
        target: (RefKind::Capability, "cap".to_string()),
        problem: Problem::MissingDependency { config_key: "model_id".to_string() },
        referrer: None,
    };
    assert_eq!(
        rendered.text(),
        "capability 'cap' is missing required dependency 'model_id'"
    );
}

#[test]
fn dependencies_are_named_in_their_order() {
    let dependencies = vec![
        Dependency::Provider {
            config_key: "p".to_string(),
            requirement: ProviderRequirement { provider_types: vec![] },
            resolved_id: None,
            required: true,
        },
        Dependency::Model {
            config_key: "m".to_string(),
            requirement: ModelRequirement { supported_functions: vec![] },
            resolved_id: None,
            required: true,
        },
    ];
    assert_eq!(
        dependency_refs(&json(r#"{"m":"m1","p":"p1"}"#), &dependencies),
        Ok(vec![(RefKind::Provider, "p1"), (RefKind::Model, "m1")])
    );
    assert_eq!(
        dependency_refs(&json("{}"), &dependencies),
        Err(Problem::MissingDependency { config_key: "p".to_string() })
    );
}

#[test]
fn a_capabilitys_own_problem_names_the_instance_that_reached_it() {
    let mut config = healthy();
    config.capabilities.insert("chat".into(), capability("chat", "agent-model", ""));
    let err = failure(RefKind::Launcher, "goose", &config);
    assert_eq!(err.target, (RefKind::Capability, "chat".to_string()));
    assert_eq!(
        err.problem,
        Problem::MissingDependency { config_key: "model_id".to_string() }
    );
    assert_eq!(err.referrer, Some((RefKind::Launcher, "goose".to_string())));
    assert_eq!(
        err.text(),
        "launcher 'goose' depends on capability 'chat', \
         which is missing required dependency 'model_id'"
    );
}

#[test]
fn an_external_tool_dependency_is_not_a_config_reference() {
    let deps = vec![Dependency::ExternalTool {
        requirement: ShellCommandRequirement { command: "ffmpeg".to_string() },
        required: true,
    }];
    assert_eq!(dependency_refs(&json("{}"), &deps), Ok(vec![]));
}

#[test]
fn find_dangling_returns_exactly_the_broken_instances_of_a_kind() {
    let mut config = healthy();
    config
        .models
        .insert("m-no-provider".into(), model("m-no-provider", "custom", None));
    config.models.insert("m-gone".into(), model("m-gone", "custom", Some("gone")));
    config.models.insert("m-bad-type".into(), model("m-bad-type", "nope", Some("p1")));
    assert_eq!(
        broken_ids(RefKind::Model, &config),
        ["m-bad-type", "m-gone", "m-no-provider"]
    );
    assert!(find_dangling(RefKind::Provider, &config, &registries()).is_empty());
    assert_eq!(find_dangling(RefKind::Capability, &config, &registries()).len(), 0);
}

#[test]
fn find_dangling_returns_nothing_for_a_healthy_config() {
    let config = healthy();
    for kind in [RefKind::Launcher, RefKind::Capability, RefKind::Model, RefKind::Provider] {
        assert!(broken_ids(kind, &config).is_empty());
    }
}

#[test]
fn find_dangling_only_reports_the_kind_it_was_asked_about() {
    let mut config = healthy();
    config.providers.remove("p1");
    for (kind, expected) in [
        (RefKind::Provider, Vec::<&str>::new()),
        (RefKind::Model, vec!["m1"]),
        (RefKind::Capability, vec!["chat"]),
        (RefKind::Launcher, vec!["goose"]),
    ] {
        assert_eq!(broken_ids(kind, &config), expected, "{}", kind.name());
        assert!(find_dangling(kind, &config, &registries()).iter().all(|d| d.kind == kind));
    }
}

#[test]
fn find_dangling_reports_the_rendered_reason() {
    let mut config = healthy();
    config.providers.remove("p1");
    let dangling = find_dangling(RefKind::Model, &config, &registries());
    assert_eq!(dangling.len(), 1);
    assert_eq!(dangling[0].kind, RefKind::Model);
    assert_eq!(dangling[0].instance_id, "m1");
    assert_eq!(
        dangling[0].reason,
        "model 'm1' depends on provider 'p1', which is not configured"
    );
}

#[test]
fn the_first_broken_reference_is_reported() {
    let mut config = healthy();
    config.capabilities.insert("one".into(), capability("one", "agent-model", "x"));
    config.capabilities.insert("two".into(), capability("two", "agent-model", "y"));
    config
        .launchers
        .insert("both".into(), launcher("both", "goose", &["chat", "two", "one"]));
    let err = failure(RefKind::Launcher, "both", &config);
    assert_eq!(err.target, (RefKind::Model, "y".to_string()));
    assert_eq!(err.referrer, Some((RefKind::Capability, "two".to_string())));
}

#[test]
fn the_walk_does_not_read_what_it_was_not_asked_about() {
    let mut config = healthy();
    config.models.insert("stray".into(), model("stray", "nothing", None));
    assert!(passes(RefKind::Launcher, "goose", &config));
}
