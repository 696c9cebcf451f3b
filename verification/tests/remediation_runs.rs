use granite_cli::catalog::builtin_registries;
use granite_cli::commands::remediation::{
    dangling_notes, disable, Choice, Fix, OnDecline, Outcome, Prompt, Remediation, RemedyAction,
    RemedyStep,
};
use granite_cli::config::validation::RefKind;
use granite_cli::config::{CapabilityConfig, Config, LauncherConfig, ModelConfig, ProviderConfig};
use granite_cli::json::Json;
use granite_cli::launchers::LauncherMetadata;
use granite_cli::name_map::NameMap;
use granite_cli::providers::ProviderMetadata;
use granite_cli::registry::Registries;

fn json(text: &str) -> Json {
    Json::parse(text).unwrap()
}

fn registries() -> Registries {
    let mut launchers = NameMap::new();
    launchers.insert(
        "goose".to_string(),
        LauncherMetadata {
            name: "Goose".to_string(),
            description: String::new(),
            default_command: "goose".to_string(),
            supported_capabilities: vec![],
            tags: vec![],
        },
    );
    let mut providers = NameMap::new();
    providers.insert(
        "ollama".to_string(),
        ProviderMetadata { name: "Ollama".to_string(), description: String::new() },
    );
    builtin_registries(launchers, providers, &NameMap::new())
}

fn model(model_type: &str, provider_id: &str) -> ModelConfig {
    ModelConfig {
        model_id: "granite-3.1-8b-instruct".to_string(),
        model_type: model_type.to_string(),
        provider_id: Some(provider_id.to_string()),
        variant: None,
        config: json("{}"),
    }
}

fn capability(id: &str, model_id: &str) -> CapabilityConfig {
    CapabilityConfig {
        capability_id: id.to_string(),
        capability_type: "agent-model".to_string(),
        config: json(&format!("{{\"model_id\":\"{model_id}\"}}")),
    }
}

fn launcher(enabled: &[&str]) -> LauncherConfig {
    LauncherConfig {
        launcher_id: "goose".to_string(),
        launcher_type: "goose".to_string(),
        enabled_capabilities: enabled.iter().map(|s| s.to_string()).collect(),
        config: json("{}"),
    }
}

/// Launcher `goose` enables capability `chat`, whose model is not configured.
fn dangling_model_ref() -> Config {
    let mut config = Config::new();
    config.providers.insert(
        "ollama".to_string(),
        ProviderConfig {
            provider_id: "ollama".to_string(),
            provider_type: "ollama".to_string(),
            config: json("{}"),
        },
    );
    config.models.insert(
        "granite-3.1-8b-instruct".to_string(),
        model("granite-3.1-8b-instruct", "ollama"),
    );
    config.capabilities.insert("chat".to_string(), capability("chat", "gone"));
    config.launchers.insert("goose".to_string(), launcher(&["chat"]));
    config
}

/// What a run showed and how it ended.
struct Log {
    outcome: Outcome,
    prompts: Vec<Vec<String>>,
    warnings: Vec<String>,
    infos: Vec<String>,
}

/// Runs to the end, with canned answers; declines when they run out.
fn remediate(
    config: &mut Config,
    kind: RefKind,
    id: &str,
    on_decline: OnDecline,
    prompting: bool,
    answers: &[usize],
    reconfigure: &dyn Fn(&mut Config, &Fix),
) -> Log {
    let registries = registries();
    let mut run = Remediation::start(kind, id, on_decline, prompting, true);
    let mut log = Log { outcome: Outcome::Clean, prompts: vec![], warnings: vec![], infos: vec![] };
    let mut answers = answers.iter();
    loop {
        let prompt: Prompt = match run.next(config, &registries) {
            RemedyStep::Done { outcome, warning } => {
                log.warnings.extend(warning);
                log.outcome = outcome;
                return log;
            }
            RemedyStep::Ask(prompt) => prompt,
        };
        assert_eq!(prompt.question, "What would you like to do?");
        assert_eq!(prompt.preselected, prompt.items.len() - 1);
        assert_eq!(prompt.choices.last(), Some(&Choice::Decline));
        log.prompts.push(prompt.items.clone());
        log.warnings.push(prompt.warning.clone());
        let picked = answers.next().copied().unwrap_or(prompt.preselected);
        match run.answer(prompt, picked) {
            (RemedyAction::Reconfigure, fix) => reconfigure(config, &fix),
            (RemedyAction::Remove, fix) => match fix.kind {
                RefKind::Capability => {
                    config.capabilities.remove(&fix.id);
                }
                RefKind::Model => {
                    config.models.remove(&fix.id);
                }
                _ => panic!("unexpected removal"),
            },
            (RemedyAction::Disable, fix) => {
                let (launcher, capability) = fix.disable.unwrap();
                log.infos.push(disable(config, &launcher, &capability));
            }
            (RemedyAction::Stop(outcome), _) => {
                log.outcome = outcome;
                return log;
            }
        }
    }
}

fn nothing(_: &mut Config, _: &Fix) {}

fn choose_the_healthy_model(config: &mut Config, fix: &Fix) {
    assert_eq!((fix.kind, fix.id.as_str()), (RefKind::Capability, "chat"));
    assert_eq!(fix.type_key, "agent-model");
    config
        .capabilities
        .insert("chat".to_string(), capability("chat", "granite-3.1-8b-instruct"));
}

fn chat_model(config: &Config) -> Option<&str> {
    config.capabilities.get("chat").and_then(|c| c.config.text_field("model_id"))
}

fn enabled(config: &Config) -> &Vec<String> {
    &config.launchers.get("goose").unwrap().enabled_capabilities
}

#[test]
fn a_healthy_instance_is_clean_without_prompting() {
    let mut config = dangling_model_ref();
    let log = remediate(
        &mut config,
        RefKind::Model,
        "granite-3.1-8b-instruct",
        OnDecline::Skip,
        true,
        &[],
        &nothing,
    );
    assert_eq!(log.outcome, Outcome::Clean);
    assert!(log.prompts.is_empty());
    assert!(log.warnings.is_empty());
}

#[test]
fn reconfigure_runs_setup_against_the_instance_holding_the_reference() {
    let mut config = dangling_model_ref();
    let log = remediate(
        &mut config,
        RefKind::Capability,
        "chat",
        OnDecline::Skip,
        true,
        &[0],
        &choose_the_healthy_model,
    );
    assert_eq!(chat_model(&config), Some("granite-3.1-8b-instruct"));
    assert_eq!(log.outcome, Outcome::Clean);
    assert!(log.prompts[0][0].contains("Reconfigure capability 'chat'"));
    assert_eq!(
        log.warnings[0],
        "Configuration issue: capability 'chat' depends on model 'gone', which is not configured"
    );
}

#[test]
fn remove_deletes_the_instance_holding_the_reference() {
    let mut config = dangling_model_ref();
    let log = remediate(
        &mut config,
        RefKind::Capability,
        "chat",
        OnDecline::Skip,
        true,
        &[1],
        &nothing,
    );
    assert!(config.capabilities.get("chat").is_none());
    assert_eq!(log.outcome, Outcome::Unresolved);
    assert_eq!(log.warnings[1], "capability 'chat' is not configured");
}

#[test]
fn a_fix_that_exposes_a_second_problem_is_offered_in_turn() {
    let mut config = dangling_model_ref();
    config.capabilities.insert("vision".to_string(), capability("vision", "also-gone"));
    config.launchers.insert("goose".to_string(), launcher(&["chat", "vision"]));
    let log = remediate(
        &mut config,
        RefKind::Launcher,
        "goose",
        OnDecline::Skip,
        true,
        &[1, 2],
        &nothing,
    );
    assert_eq!(log.prompts.len(), 2);
    assert!(log.prompts[0][0].contains("capability 'chat'"));
    assert!(log.prompts[1][0].contains("capability 'vision'"));
    assert_eq!(log.outcome, Outcome::Unresolved);
}

#[test]
fn a_launch_un_enables_a_capability_instead_of_deleting_it() {
    let mut config = dangling_model_ref();
    let log = remediate(
        &mut config,
        RefKind::Launcher,
        "goose",
        OnDecline::Abort,
        true,
        &[1],
        &nothing,
    );
    assert_eq!(log.prompts[0][1], "Remove capability 'chat' from launcher 'goose'");
    assert_eq!(log.outcome, Outcome::Clean);
    assert!(enabled(&config).is_empty());
    assert!(config.capabilities.get("chat").is_some());
    assert_eq!(log.infos, vec!["Launcher 'goose' no longer enables capability 'chat'."]);
}

#[test]
fn a_launch_un_enables_a_capability_that_is_not_configured() {
    let mut config = dangling_model_ref();
    config.capabilities.remove("chat");
    let log = remediate(
        &mut config,
        RefKind::Launcher,
        "goose",
        OnDecline::Abort,
        true,
        &[1],
        &nothing,
    );
    assert_eq!(log.prompts[0][1], "Remove capability 'chat' from launcher 'goose'");
    assert_eq!(log.outcome, Outcome::Clean);
    assert!(enabled(&config).is_empty());
}

#[test]
fn a_launch_un_enables_a_capability_whose_model_is_broken() {
    let mut config = dangling_model_ref();
    config
        .capabilities
        .insert("chat".to_string(), capability("chat", "granite-3.1-8b-instruct"));
    config.providers.remove("ollama");
    let log = remediate(
        &mut config,
        RefKind::Launcher,
        "goose",
        OnDecline::Abort,
        true,
        &[1],
        &nothing,
    );
    assert_eq!(
        log.prompts[0],
        vec![
            "Reconfigure model 'granite-3.1-8b-instruct' now",
            "Remove capability 'chat' from launcher 'goose'",
            "Cancel",
        ]
    );
    assert_eq!(log.outcome, Outcome::Clean);
    assert!(config.models.get("granite-3.1-8b-instruct").is_some());
}

#[test]
fn a_caller_is_not_offered_to_delete_what_it_did_not_name() {
    let mut config = dangling_model_ref();
    config
        .capabilities
        .insert("chat".to_string(), capability("chat", "granite-3.1-8b-instruct"));
    config.providers.remove("ollama");
    let log = remediate(
        &mut config,
        RefKind::Capability,
        "chat",
        OnDecline::Skip,
        true,
        &[],
        &nothing,
    );
    assert_eq!(
        log.prompts[0],
        vec![
            "Reconfigure model 'granite-3.1-8b-instruct' now",
            "Skip for now, 'granite-3.1-8b-instruct' stays broken until fixed",
        ]
    );
}

#[test]
fn a_caller_naming_the_capability_is_still_offered_deletion() {
    let mut config = dangling_model_ref();
    let log = remediate(
        &mut config,
        RefKind::Capability,
        "chat",
        OnDecline::Skip,
        true,
        &[2],
        &nothing,
    );
    assert_eq!(log.prompts[0][1], "Remove capability 'chat'");
    assert_eq!(log.prompts[0][2], "Skip for now, 'chat' stays broken until fixed");
}

#[test]
fn a_fix_that_changes_nothing_is_not_offered_again() {
    let mut config = dangling_model_ref();
    let log = remediate(
        &mut config,
        RefKind::Capability,
        "chat",
        OnDecline::Skip,
        true,
        &[0],
        &nothing,
    );
    assert_eq!(log.prompts.len(), 2);
    assert!(log.prompts[0][0].starts_with("Reconfigure"));
    assert!(!log.prompts[1].iter().any(|i| i.starts_with("Reconfigure")));
    assert!(log.prompts[1][0].starts_with("Remove"));
    assert_eq!(log.outcome, Outcome::Unresolved);
    assert_eq!(chat_model(&config), Some("gone"));
}

#[test]
fn a_run_ends_when_every_repair_was_tried() {
    let registries = registries();
    let config = dangling_model_ref();
    let mut run = Remediation::start(RefKind::Capability, "chat", OnDecline::Skip, true, true);
    for _ in 0..2 {
        match run.next(&config, &registries) {
            RemedyStep::Ask(prompt) => {
                run.answer(prompt, 0);
            }
            other => panic!("{other:?}"),
        }
    }
    match run.next(&config, &registries) {
        RemedyStep::Done { outcome, warning } => {
            assert_eq!(outcome, Outcome::Unresolved);
            assert_eq!(
                warning.as_deref(),
                Some("Still unresolved: capability 'chat' depends on model 'gone', which is not configured")
            );
        }
        other => panic!("{other:?}"),
    }
}

#[test]
fn a_launch_can_still_un_enable_after_a_reconfiguration_changed_nothing() {
    let mut config = dangling_model_ref();
    let log = remediate(
        &mut config,
        RefKind::Launcher,
        "goose",
        OnDecline::Abort,
        true,
        &[0, 0],
        &nothing,
    );
    assert_eq!(log.prompts.len(), 2);
    assert_eq!(log.prompts[1][0], "Remove capability 'chat' from launcher 'goose'");
    assert_eq!(log.outcome, Outcome::Clean);
    assert!(enabled(&config).is_empty());
}

#[test]
fn declining_stops_instead_of_asking_again() {
    let mut config = dangling_model_ref();
    let log = remediate(
        &mut config,
        RefKind::Capability,
        "chat",
        OnDecline::Skip,
        true,
        &[2],
        &nothing,
    );
    assert_eq!(log.outcome, Outcome::Unresolved);
    assert_eq!(log.prompts.len(), 1);
    assert_eq!(chat_model(&config), Some("gone"));
}

#[test]
fn a_non_prompting_caller_never_reaches_a_prompt() {
    let mut config = dangling_model_ref();
    let log = remediate(
        &mut config,
        RefKind::Capability,
        "chat",
        OnDecline::Skip,
        false,
        &[],
        &nothing,
    );
    assert_eq!(log.outcome, Outcome::Unresolved);
    assert!(log.prompts.is_empty());
    assert!(!log.warnings.is_empty(), "still reported");
}

#[test]
fn a_non_interactive_session_never_reaches_a_prompt() {
    let config = dangling_model_ref();
    let mut run = Remediation::start(RefKind::Capability, "chat", OnDecline::Skip, true, false);
    assert!(matches!(
        run.next(&config, &registries()),
        RemedyStep::Done { outcome: Outcome::Unresolved, .. }
    ));
}

#[test]
fn an_unknown_type_offers_removal_but_not_reconfiguration() {
    let mut config = dangling_model_ref();
    config
        .models
        .insert("granite-3.1-8b-instruct".to_string(), model("not-a-model", "ollama"));
    let log = remediate(
        &mut config,
        RefKind::Model,
        "granite-3.1-8b-instruct",
        OnDecline::Skip,
        true,
        &[1],
        &nothing,
    );
    assert_eq!(log.prompts[0].len(), 2);
    assert!(log.prompts[0][0].starts_with("Remove model"));
    assert_eq!(log.outcome, Outcome::Unresolved);
}

#[test]
fn aborting_callers_are_offered_cancel_rather_than_skip() {
    let mut config = dangling_model_ref();
    let log = remediate(
        &mut config,
        RefKind::Launcher,
        "goose",
        OnDecline::Abort,
        true,
        &[2],
        &nothing,
    );
    assert_eq!(log.prompts[0][2], "Cancel");
}

#[test]
fn disabling_takes_out_every_occurrence_and_nothing_else() {
    let mut config = dangling_model_ref();
    config.launchers.insert("goose".to_string(), launcher(&["a", "chat", "b", "chat"]));
    disable(&mut config, "goose", "chat");
    assert_eq!(enabled(&config), &vec!["a".to_string(), "b".to_string()]);
    disable(&mut config, "nobody", "a");
    assert_eq!(enabled(&config).len(), 2);
}

#[test]
fn a_list_notes_what_is_broken() {
    let config = dangling_model_ref();
    let notes = dangling_notes(RefKind::Capability, &config, &registries());
    assert_eq!(notes.len(), 1);
    assert_eq!(
        notes.get("chat").unwrap(),
        "⚠ capability 'chat' depends on model 'gone', which is not configured"
    );
    assert_eq!(dangling_notes(RefKind::Provider, &config, &registries()).len(), 0);
}
