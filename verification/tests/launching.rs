use granite_cli::capabilities::{
    AgentModelBinding, Binding, BindingRequest, BindingType, McpBinding, SubAgentBinding,
};
use granite_cli::commands::hardware::{HardwareCommands, HardwareProfile};
use granite_cli::config::Config;
use granite_cli::json::Json;
use granite_cli::launchers::bob::{BobLauncher, LaunchRun, LaunchStep, WORKSPACE_CONFIG_DIR};
use granite_cli::providers::{ApiType, ProviderInstance, Secret};
use granite_cli::registry::Named;

fn bob(settings: &str) -> BobLauncher {
    BobLauncher::new("my-bob", &Json::parse(settings).unwrap(), &Config::new())
}

fn server(url: &str) -> McpBinding {
    McpBinding::Http { url: url.to_string(), headers: vec![], timeout: None }
}

fn sub_agent() -> SubAgentBinding {
    SubAgentBinding {
        description: "explores the repo".to_string(),
        prompt: "You explore things.".to_string(),
        tools: vec![],
        model: AgentModelBinding {
            api_type: ApiType::OpenAI,
            provider_name: "my-ollama".to_string(),
            base_url: "http://localhost:11434".to_string(),
            model_name: "granite4.1:8b".to_string(),
            endpoint_path: "/v1/chat/completions".to_string(),
            api_key: None,
            verify_ssl: true,
            context_length: Some(131072),
        },
        known_type: None,
    }
}

#[test]
fn bob_command_defaults_to_bob() {
    assert_eq!(bob("{}").command(), "bob");
}

#[test]
fn mod_command_defaults_to_bob() {
    assert_eq!(bob("{}").command(), "bob");
    assert_eq!(bob("null").command(), "bob");
}

#[test]
fn bob_command_uses_explicit_path_when_set() {
    assert_eq!(bob(r#"{"command_path":"/opt/bin/bob"}"#).command(), "/opt/bin/bob");
}

#[test]
fn mod_command_uses_explicit_path_when_set() {
    assert_eq!(bob(r#"{"command_path":"/opt/bin/bob"}"#).command(), "/opt/bin/bob");
    assert_eq!(bob(r#"["/opt/bin/bob"]"#).command(), "/opt/bin/bob");
}

#[test]
fn settings_that_make_no_sense_count_as_empty() {
    assert_eq!(bob(r#"{"command_path":5}"#).command(), "bob");
    assert_eq!(bob(r#"{"command_path":"x","pi_command_path":[]}"#).command(), "bob");
    assert_eq!(bob(r#"{"command_path":null}"#).command(), "bob");
    assert_eq!(bob(r#"["x",null,1]"#).command(), "bob");
    assert_eq!(bob(r#"{"command_path":"x","other":1}"#).command(), "x");
}

#[test]
fn bob_metadata_name_is_bob_cli() {
    let meta = BobLauncher::metadata();
    assert_eq!(meta.name, "Bob CLI");
    assert_eq!(meta.default_command, "bob");
}

#[test]
fn mod_metadata_name_is_bob_cli() {
    let meta = BobLauncher::metadata();
    assert_eq!(meta.name, "Bob CLI");
    assert_eq!(meta.default_command, "bob");
    assert_eq!(bob("{}").name(), meta.name);
    assert_eq!(bob("{}").instance_id(), "my-bob");
}

#[test]
fn pi_command_path_is_independent_of_bobs_own_command_path() {
    let l = bob(r#"{"command_path":"/opt/bin/bob"}"#);
    assert_eq!(l.config.command_path, Some("/opt/bin/bob".to_string()));
    assert_eq!(l.config.pi_command_path, None);
}

#[test]
fn metadata_supported_capabilities_contains_mcp_and_sub_agent() {
    let meta = BobLauncher::metadata();
    assert!(meta.supported_capabilities.contains(&BindingType::Mcp));
    assert!(meta.supported_capabilities.contains(&BindingType::SubAgent));
}

#[test]
fn bind_capability_with_sub_agent_only_capability_routes_into_pending_sub_agents() {
    let mut l = bob("{}");
    let request = l.bind_request(&vec![BindingType::SubAgent]).unwrap();
    assert_eq!(request, BindingRequest::SubAgent { api_type: ApiType::OpenAI });
    let types = vec![BindingType::SubAgent];
    l.bind_capability("fake-sub-agent", &types, Ok(Binding::SubAgent(sub_agent()))).unwrap();
    assert!(l.bound_mcp_bindings.is_empty());
    assert_eq!(l.pending_sub_agents.len(), 1);
    assert_eq!(l.pending_sub_agents[0].0, "fake-sub-agent");
    assert_eq!(l.pending_sub_agents[0].1.description, "explores the repo");
}

#[test]
fn bind_capability_with_mcp_only_capability_still_populates_bound_mcp_bindings() {
    let mut l = bob("{}");
    let request = l.bind_request(&vec![BindingType::Mcp]).unwrap();
    assert_eq!(request, BindingRequest::Mcp);
    let types = vec![BindingType::Mcp];
    l.bind_capability("fake-mcp", &types, Ok(Binding::Mcp(server("http://127.0.0.1:1/mcp"))))
        .unwrap();
    assert_eq!(l.bound_mcp_bindings.len(), 1);
    assert_eq!(l.bound_mcp_bindings[0].0, "fake-mcp");
    assert!(l.pending_sub_agents.is_empty());
}

#[test]
fn a_capability_that_can_be_both_is_asked_for_a_sub_agent() {
    let request = bob("{}").bind_request(&vec![BindingType::Mcp, BindingType::SubAgent]).unwrap();
    assert_eq!(request.binding_type(), BindingType::SubAgent);
}

#[test]
fn a_capability_that_attaches_otherwise_is_refused() {
    let types = vec![BindingType::AgentModel, BindingType::Mcp];
    let message = "capability supports [AgentModel] which this launcher does not support";
    assert_eq!(bob("{}").bind_request(&types).unwrap_err(), message);
    let mut l = bob("{}");
    assert_eq!(
        l.bind_capability("x", &types, Ok(Binding::Mcp(server("u")))),
        Err(message.to_string())
    );
    assert!(l.bound_mcp_bindings.is_empty());
    let twice = vec![BindingType::AgentModel, BindingType::AgentModel];
    assert_eq!(
        l.bind_request(&twice).unwrap_err(),
        "capability supports [AgentModel, AgentModel] which this launcher does not support"
    );
}

#[test]
fn a_capability_that_hands_over_something_else_is_refused() {
    let mut l = bob("{}");
    assert_eq!(
        l.bind_capability("x", &vec![BindingType::Mcp], Ok(Binding::SubAgent(sub_agent()))),
        Err("expected an Mcp binding, got SubAgent".to_string())
    );
    assert_eq!(
        l.bind_capability("x", &vec![BindingType::SubAgent], Ok(Binding::Mcp(server("u")))),
        Err("expected a SubAgent binding, got Mcp".to_string())
    );
    assert_eq!(
        l.bind_capability("x", &vec![BindingType::Mcp], Err("no model".to_string())),
        Err("no model".to_string())
    );
    assert!(l.bound_mcp_bindings.is_empty() && l.pending_sub_agents.is_empty());
}

#[test]
fn sub_agents_reach_bob_through_one_more_server() {
    let mut l = bob("{}");
    let args = vec!["chat".to_string()];
    assert_eq!(l.launch_args(args.clone()), args);
    l.bind_capability("one", &vec![BindingType::Mcp], Ok(Binding::Mcp(server("a")))).unwrap();
    assert!(!l.needs_delegate());
    assert_eq!(l.launch_servers(None).len(), 1);

    l.bind_capability("agent", &vec![BindingType::SubAgent], Ok(Binding::SubAgent(sub_agent())))
        .unwrap();
    assert!(l.needs_delegate());
    assert_eq!(l.launch_args(args), vec!["chat", "--disable-subagents"]);
    let delegate = server("d");
    let servers = l.launch_servers(Some(&delegate));
    let names: Vec<&str> = servers.iter().map(|(name, _)| *name).collect();
    assert_eq!(names, vec!["one", "bob-sub-agents"]);
    assert!(matches!(servers[1].1, McpBinding::Http { url, .. } if url == "d"));
}

fn steps(servers: usize, delegate: bool, dry_run: bool, fail_at: Option<LaunchStep>) -> Vec<LaunchStep> {
    let mut run = LaunchRun::start(servers, delegate, dry_run);
    let mut seen = vec![run.step];
    while run.step != LaunchStep::Finished {
        run.advance(fail_at != Some(run.step));
        seen.push(run.step);
    }
    seen
}

#[test]
fn ensure_workspace_config_dir_creates_missing_bob_dir() {
    assert_eq!(steps(1, false, false, None)[0], LaunchStep::CreateConfigDir);
    assert_eq!(WORKSPACE_CONFIG_DIR, ".bob");
    assert_eq!(steps(0, false, false, None)[0], LaunchStep::Run);
}

#[test]
fn ensure_workspace_config_dir_dry_run_creates_nothing() {
    assert!(!steps(1, false, true, None).contains(&LaunchStep::CreateConfigDir));
}

#[test]
fn a_launch_removes_what_it_registered() {
    assert_eq!(
        steps(2, true, false, Some(LaunchStep::Run)),
        vec![
            LaunchStep::CreateConfigDir,
            LaunchStep::Register(0),
            LaunchStep::Register(1),
            LaunchStep::Run,
            LaunchStep::Remove(0),
            LaunchStep::Remove(1),
            LaunchStep::ShutDownDelegate,
            LaunchStep::Finished,
        ]
    );
    assert_eq!(
        steps(2, false, true, Some(LaunchStep::Remove(0))),
        steps(2, false, true, None)
    );
}

#[test]
fn a_launch_ends_where_a_server_cannot_be_registered() {
    assert_eq!(
        steps(2, false, true, Some(LaunchStep::Register(1))),
        vec![LaunchStep::Register(0), LaunchStep::Register(1), LaunchStep::Finished]
    );
    assert_eq!(
        steps(2, false, false, Some(LaunchStep::CreateConfigDir)),
        vec![LaunchStep::CreateConfigDir, LaunchStep::Finished]
    );
}

fn profile() -> HardwareProfile {
    HardwareProfile {
        cpu_cores: 16,
        cpu_arch: "x86_64".to_string(),
        ram_gb: "31.25".to_string(),
        gpu_vendor: None,
        vram_gb: Some("8.00".to_string()),
    }
}

#[test]
fn hardware_show_renders_detail() {
    let panel = HardwareCommands::show(&profile());
    assert_eq!(panel.title, "Hardware Profile");
    assert_eq!(panel.fields, HardwareCommands::hardware_fields(&profile()));
}

#[test]
fn hardware_detail_has_cpu_and_ram_fields() {
    let fields = HardwareCommands::hardware_fields(&profile());
    assert!(fields.iter().any(|(k, _)| *k == "CPU Cores"));
    assert!(fields.iter().any(|(k, _)| *k == "RAM"));
}

#[test]
fn hardware_fields_are_in_words() {
    let fields = HardwareCommands::hardware_fields(&profile());
    let pairs: Vec<(&str, &str)> = fields.iter().map(|(k, v)| (k.as_str(), v.as_str())).collect();
    assert_eq!(
        pairs,
        vec![
            ("CPU Cores", "16"),
            ("CPU Architecture", "x86_64"),
            ("RAM", "31.25 GB"),
            ("GPU Vendor", "None"),
            ("VRAM", "8.00 GB"),
        ]
    );
}

#[test]
fn an_instance_knows_its_name() {
    let provider = ProviderInstance {
        instance_id: "p".to_string(),
        name: "n".to_string(),
        base_url: "u".to_string(),
        api_key: Some(Secret("k".to_string())),
        verify_ssl: false,
        api_types: vec![],
        formats: vec![],
        runnable: vec![],
        aliases: vec![],
        endpoints: vec![],
        custom_headers: None,
    };
    assert_eq!(provider.instance_id(), "p");
}
