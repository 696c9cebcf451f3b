use granite_cli::config::{CapabilityConfig, Config, LauncherConfig, ModelConfig, ProviderConfig};
use granite_cli::json::Json;
use granite_cli::name_map::NameMap;
use granite_cli::proxy::usage::UsageStats;
use granite_cli::session::calendar::{days_to_ymd, format_moment, format_utc_timestamp};
use granite_cli::session::{
    build_capability_meta, create_session_meta, finish_session, generate_session_id,
    session_file_name, update_session_usage, SessionMeta,
};
use granite_cli::session::suffix::{short_suffix, Suffixes};

fn json(text: &str) -> Json {
    Json::parse(text).unwrap()
}

fn capability(id: &str, settings: &str) -> CapabilityConfig {
    CapabilityConfig {
        capability_id: id.to_string(),
        capability_type: "agent-model".to_string(),
        config: json(settings),
    }
}

fn launcher(id: &str, launcher_type: &str) -> LauncherConfig {
    LauncherConfig {
        launcher_id: id.to_string(),
        launcher_type: launcher_type.to_string(),
        enabled_capabilities: vec![],
        config: json("{}"),
    }
}

fn make_meta(session_id: &str, launcher_id: &str) -> SessionMeta {
    SessionMeta {
        session_id: session_id.to_string(),
        launched_at: "20250101T120000".to_string(),
        finished_at: None,
        updated_at: "20250101T120000".to_string(),
        working_dir: "/test".to_string(),
        full_command: vec!["granite-cli".to_string(), "launch".to_string()],
        launcher_id: launcher_id.to_string(),
        launcher_type: launcher_id.to_string(),
        capabilities: vec![],
        usage: NameMap::new(),
    }
}

#[test]
fn generate_session_id_contains_at_separator_and_hex_suffix() {
    let mut suffixes = Suffixes::new();
    let id = generate_session_id(
        &mut suffixes,
        Some("/home/me"),
        1_735_689_600,
        1_735_689_600_123_456_789,
        4711,
    );
    assert!(id.contains('@'), "session id must contain '@': {id}");
    let suffix = id.split('_').next_back().unwrap_or("");
    assert_eq!(suffix.len(), 8, "suffix must be 8 chars: {id}");
    assert!(
        suffix.chars().all(|c| c.is_ascii_hexdigit()),
        "suffix must be hex: {id}"
    );
    assert!(id.starts_with("---home---me@20250101T000000_"), "{id}");
}

#[test]
fn a_session_id_without_a_directory_says_so() {
    let mut suffixes = Suffixes { counter: 0x2a, used: vec![] };
    let id = generate_session_id(&mut suffixes, None, 0, 0, 0);
    assert_eq!(id, "unknown@19700101T000000_0000002a");
    assert_eq!(suffixes.counter, 0x2b);
    assert_eq!(suffixes.used, vec![0x2a]);
}

#[test]
fn consecutive_session_ids_are_distinct() {
    let mut suffixes = Suffixes::new();
    let a = generate_session_id(&mut suffixes, Some("/a"), 10, 10_000_000_000, 7);
    let b = generate_session_id(&mut suffixes, Some("/a"), 10, 10_000_000_000, 7);
    assert_ne!(a, b, "consecutive session IDs must differ");
    let c = generate_session_id(&mut suffixes, Some("/a"), 10, 10_000_000_001, 7);
    assert!(c != a && c != b, "consecutive session IDs must differ at any two moments");
}

#[test]
fn suffixes_differ_whatever_the_clock_says() {
    for n in [0u64, 2, 1_735_689_600_123_456_788, u64::MAX - 1] {
        for other in [n, n ^ 1, n ^ 3, n ^ 0xff] {
            let mut suffixes = Suffixes::new();
            let first = short_suffix(&mut suffixes, n, 4711);
            let second = short_suffix(&mut suffixes, other, 4711);
            assert_ne!(first, second);
        }
    }
    // The clock undoes the counter every time.
    let mut suffixes = Suffixes::new();
    let made: std::collections::HashSet<String> =
        (0..100).map(|n| short_suffix(&mut suffixes, 0xabcd_0000 ^ n, 4711)).collect();
    assert_eq!(made.len(), 100);
}

fn first_suffix(nanos: u64, pid: u32, counter: u64) -> String {
    short_suffix(&mut Suffixes { counter, used: vec![] }, nanos, pid)
}

#[test]
fn the_suffix_mixes_clock_process_and_counter() {
    assert_eq!(first_suffix(0, 1, 0), "9e3779b9");
    assert_eq!(first_suffix(0x1234_5600, 0, 0), "12345600");
    assert_eq!(first_suffix(0, 0, 0), "00000000");
    assert_eq!(first_suffix(0xffff_ffff_0000_0001, 0, 0), "00000001");
    assert_eq!(first_suffix(0xdead_beef, 0, 0x0f), "deadbee0");
    assert_eq!(first_suffix(0, 0, 0x1_0000_0005), "00000005");
    let pid: u64 = 12345;
    let mixed = (0x1234_5678_9abc_def0u64 ^ pid.wrapping_mul(0x9e37_79b9) ^ 99) & 0xffff_ffff;
    assert_eq!(first_suffix(0x1234_5678_9abc_def0, 12345, 99), format!("{mixed:08x}"));
}

#[test]
fn a_suffix_that_is_used_gives_way_to_the_next() {
    let mut suffixes = Suffixes { counter: u64::MAX, used: vec![7, 0xffff_ffff, 0, 2] };
    assert_eq!(short_suffix(&mut suffixes, 0, 0), "00000001");
    assert_eq!(suffixes.used, vec![7, 0xffff_ffff, 0, 2, 1]);
    assert_eq!(suffixes.counter, 0);
    assert_eq!(short_suffix(&mut suffixes, 7, 0), "00000008");
    assert_eq!(short_suffix(&mut suffixes, 8, 0), "00000009");
}

#[test]
fn format_utc_timestamp_epoch_zero() {
    assert_eq!(format_utc_timestamp(0), "19700101T000000");
}

#[test]
fn format_utc_timestamp_known_date() {
    assert_eq!(format_utc_timestamp(1_735_689_600), "20250101T000000");
}

#[test]
fn format_utc_timestamp_has_the_time_of_day() {
    assert_eq!(format_utc_timestamp(1_735_689_599), "20241231T235959");
    assert_eq!(format_utc_timestamp(253_402_300_799), "99991231T235959");
    assert_eq!(format_utc_timestamp(253_402_300_800), "100000101T000000");
}

#[test]
fn an_unknown_moment_says_so() {
    assert_eq!(format_moment(None), "unknown");
    assert_eq!(format_moment(Some(0)), "19700101T000000");
}

#[test]
fn days_to_ymd_epoch() {
    assert_eq!(days_to_ymd(0), (1970, 1, 1));
}

#[test]
fn days_to_ymd_non_leap_year_boundary() {
    assert_eq!(days_to_ymd(364), (1970, 12, 31));
    assert_eq!(days_to_ymd(365), (1971, 1, 1));
}

#[test]
fn days_to_ymd_leap_year_2000() {
    let (y, m, d) = days_to_ymd(11_016);
    assert_eq!((y, m, d), (2000, 2, 29));
}

#[test]
fn days_to_ymd_century_that_is_no_leap_year() {
    assert_eq!(days_to_ymd(47_540), (2100, 2, 28));
    assert_eq!(days_to_ymd(47_541), (2100, 3, 1));
}

#[test]
fn days_to_ymd_agrees_with_counting() {
    let (mut y, mut m, mut d) = (1970u64, 1u64, 1u64);
    for day in 0..200_000u64 {
        assert_eq!(days_to_ymd(day), (y, m, d));
        let leap = y % 4 == 0 && (y % 100 != 0 || y % 400 == 0);
        let len = match m {
            2 => 28 + leap as u64,
            4 | 6 | 9 | 11 => 30,
            _ => 31,
        };
        d += 1;
        if d > len {
            d = 1;
            m += 1;
        }
        if m > 12 {
            m = 1;
            y += 1;
        }
    }
}

#[test]
fn days_to_ymd_largest_day() {
    let (year, month, day) = days_to_ymd(u64::MAX);
    assert!(year > 50_000_000_000_000_000);
    assert!((1..=12).contains(&month) && (1..=31).contains(&day));
}

#[test]
fn build_capability_meta_full_resolution() {
    let mut config = Config::new();
    config.models.insert(
        "my-model".to_string(),
        ModelConfig {
            model_id: "my-model".to_string(),
            model_type: "granite-3.1-8b-instruct".to_string(),
            provider_id: Some("my-ollama".to_string()),
            variant: None,
            config: json("{}"),
        },
    );
    config.providers.insert(
        "my-ollama".to_string(),
        ProviderConfig {
            provider_id: "my-ollama".to_string(),
            provider_type: "ollama".to_string(),
            config: json("{}"),
        },
    );
    let meta = build_capability_meta(&capability("chat", r#"{"model_id":"my-model"}"#), &config);
    assert_eq!(meta.capability_id, "chat");
    assert_eq!(meta.capability_type, "agent-model");
    assert_eq!(meta.model_id.as_deref(), Some("my-model"));
    assert_eq!(meta.model_type.as_deref(), Some("granite-3.1-8b-instruct"));
    assert_eq!(meta.provider_id.as_deref(), Some("my-ollama"));
    assert_eq!(meta.provider_type.as_deref(), Some("ollama"));
}

#[test]
fn build_capability_meta_missing_model_id_yields_nones() {
    let meta = build_capability_meta(&capability("chat", "{}"), &Config::new());
    assert!(meta.model_id.is_none());
    assert!(meta.model_type.is_none());
    assert!(meta.provider_id.is_none());
    assert!(meta.provider_type.is_none());
}

#[test]
fn build_capability_meta_unknown_model_id_yields_nones_for_type_and_provider() {
    let meta = build_capability_meta(
        &capability("chat", r#"{"model_id":"nonexistent"}"#),
        &Config::new(),
    );
    assert_eq!(meta.model_id.as_deref(), Some("nonexistent"));
    assert!(meta.model_type.is_none());
    assert!(meta.provider_id.is_none());
    assert!(meta.provider_type.is_none());
}

#[test]
fn a_new_record_holds_the_launch() {
    let config = Config::new();
    let chat = capability("chat", r#"{"model_id":"m"}"#);
    let tool = capability("tool", "{}");
    let meta = create_session_meta(
        "s",
        &config,
        &launcher("my-goose", "goose"),
        &vec![&chat, &tool],
        Some(1_735_689_600),
        Some("/w"),
        vec!["granite-cli".to_string(), "launch".to_string()],
    );
    assert_eq!(meta.session_id, "s");
    assert_eq!(meta.launched_at, "20250101T000000");
    assert_eq!(meta.updated_at, "20250101T000000");
    assert!(meta.finished_at.is_none());
    assert_eq!(meta.working_dir, "/w");
    assert_eq!(meta.full_command, vec!["granite-cli", "launch"]);
    assert_eq!(meta.launcher_id, "my-goose");
    assert_eq!(meta.launcher_type, "goose");
    assert_eq!(meta.capabilities.len(), 2);
    assert_eq!(meta.capabilities[0].capability_id, "chat");
    assert_eq!(meta.capabilities[1].capability_id, "tool");
    assert_eq!(meta.usage.len(), 0);
}

#[test]
fn update_session_usage_writes_new_usage_and_preserves_other_fields() {
    let mut meta = make_meta("test---home@20250101T130000_cafebabe", "opencode");
    let mut usage = NameMap::new();
    usage.insert(
        "agent".to_string(),
        UsageStats {
            requests: 3,
            input_tokens: 100,
            output_tokens: 50,
            cache_creation_tokens: 0,
            cache_read_tokens: 10,
        },
    );
    update_session_usage(&mut meta, &usage, Some(1_735_693_200));
    assert_eq!(meta.launcher_id, "opencode");
    assert!(meta.finished_at.is_none());
    let agent_usage = meta.usage.get("agent").unwrap();
    assert_eq!(agent_usage.requests, 3);
    assert_eq!(agent_usage.input_tokens, 100);
    assert_eq!(meta.updated_at, "20250101T010000");
    assert_eq!(meta.launched_at, "20250101T120000");
}

#[test]
fn finish_session_sets_finished_at_and_final_usage() {
    let mut meta = make_meta("test---home@20250101T140000_f1n15hed", "goose");
    let mut usage = NameMap::new();
    usage.insert(
        "main".to_string(),
        UsageStats {
            requests: 7,
            input_tokens: 200,
            output_tokens: 80,
            cache_creation_tokens: 5,
            cache_read_tokens: 15,
        },
    );
    finish_session(&mut meta, &usage, Some(1_735_693_200), Some(1_735_693_201));
    let ts = meta.finished_at.unwrap();
    assert_eq!(ts.len(), 15, "timestamp must be YYYYMMDDTHHMMSS: {ts}");
    assert!(ts.contains('T'), "timestamp must contain 'T': {ts}");
    assert_eq!(meta.usage.get("main").unwrap().requests, 7);
    assert_eq!(meta.launched_at, "20250101T120000");
    assert_eq!(meta.updated_at, "20250101T010001");
}

#[test]
fn update_session_file_stamps_updated_at() {
    let mut meta = make_meta("test---home@20250101T150000_updcheck", "goose");
    update_session_usage(&mut meta, &NameMap::new(), Some(1_735_693_200));
    assert!(!meta.updated_at.is_empty());
    assert_eq!(meta.updated_at.len(), 15);
    assert!(meta.updated_at.contains('T'));
    update_session_usage(&mut meta, &NameMap::new(), None);
    assert_eq!(meta.updated_at, "unknown");
}

#[test]
fn later_moments_have_larger_timestamps() {
    let moments: [u64; 9] = [
        0,
        59,
        60,
        3_599,
        86_399,
        951_782_400,
        951_868_800,
        1_735_689_600,
        253_402_300_799,
    ];
    for pair in moments.windows(2) {
        assert!(format_utc_timestamp(pair[0]) < format_utc_timestamp(pair[1]));
    }
    assert_eq!(format_utc_timestamp(253_402_300_799), "99991231T235959");
    assert!(format_utc_timestamp(253_402_300_799) > format_utc_timestamp(253_402_300_800));
}

#[test]
fn a_record_is_kept_under_its_id() {
    assert_eq!(session_file_name("---w@20250101T120000_abcd1234"), "---w@20250101T120000_abcd1234.yaml");
}
