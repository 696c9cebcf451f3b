use granite_cli::json::Json;
use granite_cli::launchers::hook::settings::{
    accepts_marker, add_marker, hooks_session_start_contains, read_settings, remove_marker,
    write_settings,
};

fn json(text: &str) -> Json {
    Json::parse(text).unwrap()
}

fn same(a: &Json, b: &Json) -> bool {
    a.pretty() == b.pretty()
}

fn items(v: &Json) -> &Vec<Json> {
    match v {
        Json::Array(items) => items,
        _ => panic!("expected a list"),
    }
}

fn session_start(settings: &Json) -> Option<&Vec<Json>> {
    settings.get("hooks").and_then(|h| h.get("SessionStart")).map(items)
}

fn hook<'a>(groups: &'a Vec<Json>, group: usize, index: usize) -> &'a Json {
    &items(groups[group].get("hooks").unwrap())[index]
}

fn is_empty_object(v: &Json) -> bool {
    same(v, &Json::empty_object())
}

#[test]
fn read_settings_empty_file_returns_empty_object() {
    let value = read_settings(Some(""));
    assert!(value.is_object());
    assert!(is_empty_object(&value));
}

#[test]
fn read_settings_missing_file_returns_empty_object() {
    let value = read_settings(None);
    assert!(value.is_object());
    assert!(is_empty_object(&value));
}

#[test]
fn read_settings_blank_file_returns_empty_object() {
    assert!(is_empty_object(&read_settings(Some(" \n\t\u{2003}\n"))));
}

#[test]
fn read_settings_invalid_json_returns_empty_object() {
    let value = read_settings(Some("not json {{{"));
    assert!(value.is_object());
    assert!(is_empty_object(&value));
}

#[test]
fn read_settings_valid_json_returns_parsed_value() {
    let value = read_settings(Some(
        r#"{"existingKey":"existingValue","hooks":{"SessionStart":[]}}"#,
    ));
    assert_eq!(value.text_field("existingKey"), Some("existingValue"));
    assert!(matches!(
        value.get("hooks").unwrap().get("SessionStart"),
        Some(Json::Array(_))
    ));
}

#[test]
fn read_settings_keeps_json_that_is_no_object() {
    assert_eq!(items(&read_settings(Some("[1,2,3]"))).len(), 3);
}

#[test]
fn write_settings_writes_file_when_dir_exists() {
    let content = write_settings(&json(r#"{"key":"value"}"#));
    assert!(content.contains('\n'));
    assert!(content.contains("\"key\""));
    assert_eq!(content, "{\n  \"key\": \"value\"\n}\n");
}

#[test]
fn written_settings_read_back() {
    let settings = json(r#"{"b":[1,-2,{"c":null}],"a":true,"text":"q\"\n\u0001é"}"#);
    let back = read_settings(Some(&write_settings(&settings)));
    assert!(same(&settings, &back));
    assert_eq!(back.text_field("text"), Some("q\"\n\u{1}é"));
}

#[test]
fn fields_are_written_in_the_order_of_their_names() {
    let settings = json(r#"{"b":1,"a":2,"b":3}"#);
    assert_eq!(settings.pretty(), "{\n  \"a\": 2,\n  \"b\": 3\n}");
}

#[test]
fn doubles_are_carried_through() {
    let mut settings = json(r#"{"ratio":0.25,"hooks":{}}"#);
    add_marker(&mut settings, "m");
    assert!(write_settings(&settings).contains("\"ratio\": 0.25"));
    assert_eq!(settings.get("ratio").unwrap().as_u64(), None);
}

#[test]
fn session_start_contains_empty_hooks_array() {
    let settings = json(r#"{"hooks":{"SessionStart":[]}}"#);
    assert!(!hooks_session_start_contains(&settings, "anything"));
}

#[test]
fn session_start_contains_matching_command() {
    let settings =
        json(r#"{"hooks":{"SessionStart":[{"hooks":[{"type":"command","command":"my-marker"}]}]}}"#);
    assert!(hooks_session_start_contains(&settings, "my-marker"));
}

#[test]
fn session_start_contains_non_matching_command() {
    let settings = json(
        r#"{"hooks":{"SessionStart":[{"hooks":[{"type":"command","command":"other-marker"}]}]}}"#,
    );
    assert!(!hooks_session_start_contains(&settings, "my-marker"));
}

#[test]
fn session_start_contains_missing_hooks_key_returns_false() {
    assert!(!hooks_session_start_contains(&json("{}"), "anything"));
}

#[test]
fn session_start_contains_missing_session_start_returns_false() {
    assert!(!hooks_session_start_contains(&json(r#"{"hooks":{}}"#), "anything"));
}

#[test]
fn session_start_contains_other_shapes_returns_false() {
    for text in [
        "null",
        "[]",
        r#"{"hooks":[]}"#,
        r#"{"hooks":{"SessionStart":{}}}"#,
        r#"{"hooks":{"SessionStart":[1,{"hooks":2},{"hooks":["x"]}]}}"#,
    ] {
        assert!(!hooks_session_start_contains(&json(text), "anything"), "{text}");
    }
}

#[test]
fn session_start_contains_multiple_groups_finds_first() {
    let settings = json(
        r#"{"hooks":{"SessionStart":[
            {"hooks":[{"type":"command","command":"first"}]},
            {"hooks":[{"type":"command","command":"second"}]}]}}"#,
    );
    assert!(hooks_session_start_contains(&settings, "second"));
}

#[test]
fn session_start_contains_deeply_nested_missing_command_field() {
    let settings =
        json(r#"{"hooks":{"SessionStart":[{"hooks":[{"type":"script","script":"echo hi"}]}]}}"#);
    assert!(!hooks_session_start_contains(&settings, "anything"));
}

#[test]
fn add_marker_to_empty_object_creces_hooks_and_session_start() {
    let mut settings = json("{}");
    add_marker(&mut settings, "my-marker");
    let groups = session_start(&settings).unwrap();
    assert_eq!(groups.len(), 1);
    let hook = hook(groups, 0, 0);
    assert_eq!(hook.text_field("type"), Some("command"));
    assert_eq!(hook.text_field("command"), Some("my-marker"));
    assert_eq!(hook.get("timeout").unwrap().as_u64(), Some(5));
}

#[test]
fn add_marker_counts_settings_that_are_no_object_as_empty() {
    let mut settings = json("[1,2,3]");
    assert!(accepts_marker(&settings));
    add_marker(&mut settings, "m");
    assert!(same(
        &settings,
        &json(r#"{"hooks":{"SessionStart":[{"hooks":[{"type":"command","command":"m","timeout":5}]}]}}"#)
    ));
}

#[test]
fn settings_without_room_for_the_marker_are_recognised() {
    assert!(!accepts_marker(&json(r#"{"hooks":3}"#)));
    assert!(!accepts_marker(&json(r#"{"hooks":{"SessionStart":{}}}"#)));
    assert!(accepts_marker(&json(r#"{"hooks":{"SessionStart":[]}}"#)));
    assert!(accepts_marker(&json("null")));
}

#[test]
fn add_marker_preserves_unrelated_keys() {
    let mut settings = json(
        r#"{"otherKey":"otherValue",
            "hooks":{"PreToolUse":[{"hooks":[{"type":"command","command":"user-hook"}]}]}}"#,
    );
    add_marker(&mut settings, "my-marker");
    assert_eq!(settings.text_field("otherKey"), Some("otherValue"));
    let pre = items(settings.get("hooks").unwrap().get("PreToolUse").unwrap());
    assert_eq!(hook(pre, 0, 0).text_field("command"), Some("user-hook"));
    let groups = session_start(&settings).unwrap();
    assert_eq!(groups.len(), 1);
    assert_eq!(hook(groups, 0, 0).text_field("command"), Some("my-marker"));
}

#[test]
fn add_marker_appends_to_existing_session_start() {
    let mut settings = json(
        r#"{"hooks":{"SessionStart":[{"hooks":[{"type":"command","command":"existing-marker"}]}]}}"#,
    );
    add_marker(&mut settings, "my-marker");
    let groups = session_start(&settings).unwrap();
    assert_eq!(groups.len(), 2);
    assert_eq!(hook(groups, 0, 0).text_field("command"), Some("existing-marker"));
    assert_eq!(hook(groups, 1, 0).text_field("command"), Some("my-marker"));
}

#[test]
fn remove_marker_removes_matching_group() {
    let mut settings =
        json(r#"{"hooks":{"SessionStart":[{"hooks":[{"type":"command","command":"my-marker"}]}]}}"#);
    remove_marker(&mut settings, "my-marker");
    assert!(session_start(&settings).map_or(true, |groups| groups.is_empty()));
    assert!(same(&settings, &json(r#"{"hooks":{}}"#)));
}

#[test]
fn remove_marker_preserves_non_matching_groups() {
    let mut settings = json(
        r#"{"hooks":{"SessionStart":[
            {"hooks":[{"type":"command","command":"my-marker"}]},
            {"hooks":[{"type":"command","command":"keep-me"}]}]}}"#,
    );
    remove_marker(&mut settings, "my-marker");
    let groups = session_start(&settings).unwrap();
    assert_eq!(groups.len(), 1);
    assert_eq!(hook(groups, 0, 0).text_field("command"), Some("keep-me"));
}

#[test]
fn remove_marker_preserves_unrelated_keys() {
    let mut settings = json(
        r#"{"otherKey":"otherValue",
            "hooks":{"PreToolUse":[{"hooks":[{"type":"command","command":"user-hook"}]}],
                     "SessionStart":[{"hooks":[{"type":"command","command":"my-marker"}]}]}}"#,
    );
    remove_marker(&mut settings, "my-marker");
    assert_eq!(settings.text_field("otherKey"), Some("otherValue"));
    assert!(matches!(
        settings.get("hooks").unwrap().get("PreToolUse"),
        Some(Json::Array(_))
    ));
    assert!(session_start(&settings).map_or(true, |groups| groups.is_empty()));
}

#[test]
fn remove_marker_removes_only_matching_hook_within_group() {
    let mut settings = json(
        r#"{"hooks":{"SessionStart":[{"hooks":[
            {"type":"command","command":"my-marker"},
            {"type":"command","command":"keep-me"}]}]}}"#,
    );
    remove_marker(&mut settings, "my-marker");
    let groups = session_start(&settings).unwrap();
    assert_eq!(groups.len(), 1);
    assert_eq!(items(groups[0].get("hooks").unwrap()).len(), 1);
    assert_eq!(hook(groups, 0, 0).text_field("command"), Some("keep-me"));
}

#[test]
fn remove_marker_keeps_the_other_fields_of_a_group() {
    let mut settings = json(
        r#"{"hooks":{"SessionStart":[{"matcher":"x","hooks":[{"command":"m"},{"command":"n"}]}]}}"#,
    );
    remove_marker(&mut settings, "m");
    assert!(same(
        &settings,
        &json(r#"{"hooks":{"SessionStart":[{"matcher":"x","hooks":[{"command":"n"}]}]}}"#)
    ));
}

#[test]
fn remove_marker_leaves_groups_without_it_untouched() {
    let text = r#"{"hooks":{"SessionStart":[{"note":1},{"hooks":[]},7,{"hooks":[{"command":"n"}]}]}}"#;
    let mut settings = json(text);
    remove_marker(&mut settings, "m");
    assert!(same(&settings, &json(text)));

    let mut settings = json(
        r#"{"hooks":{"SessionStart":[{"note":1},{"hooks":[]},{"hooks":[{"command":"m"}]}]}}"#,
    );
    remove_marker(&mut settings, "m");
    assert!(same(
        &settings,
        &json(r#"{"hooks":{"SessionStart":[{"note":1},{"hooks":[]}]}}"#)
    ));

    let mut settings = json(r#"{"hooks":{"SessionStart":[]}}"#);
    remove_marker(&mut settings, "m");
    assert!(same(&settings, &json(r#"{"hooks":{"SessionStart":[]}}"#)));
}

#[test]
fn remove_marker_on_empty_hooks_is_noop() {
    let mut settings = json("{}");
    remove_marker(&mut settings, "anything");
    assert!(same(&settings, &json("{}")));
}

#[test]
fn full_roundtrip_empty_settings() {
    let mut settings = json("{}");
    add_marker(&mut settings, "my-marker");
    assert!(hooks_session_start_contains(&settings, "my-marker"));
    remove_marker(&mut settings, "my-marker");
    assert!(!hooks_session_start_contains(&settings, "my-marker"));
}

#[test]
fn full_roundtrip_preserves_unrelated_content() {
    let mut settings = json(
        r#"{"otherKey":"otherValue",
            "hooks":{"PreToolUse":[{"hooks":[{"type":"command","command":"user-hook"}]}]}}"#,
    );
    let before = settings.copy();
    add_marker(&mut settings, "my-marker");
    assert_eq!(settings.text_field("otherKey"), Some("otherValue"));
    let pre = items(settings.get("hooks").unwrap().get("PreToolUse").unwrap());
    assert_eq!(hook(pre, 0, 0).text_field("command"), Some("user-hook"));
    remove_marker(&mut settings, "my-marker");
    assert_eq!(settings.text_field("otherKey"), Some("otherValue"));
    assert!(!hooks_session_start_contains(&settings, "my-marker"));
    assert!(same(&settings, &before));
}

#[test]
fn a_marker_is_found_in_the_file_that_it_was_written_to() {
    let mut settings = json(r#"{"theme":"dark","hooks":{"PreToolUse":[]}}"#);
    add_marker(&mut settings, "it's a \"marker\"");
    let text = write_settings(&settings);
    let read = read_settings(Some(&text));
    assert!(hooks_session_start_contains(&read, "it's a \"marker\""));
    assert_eq!(read.text_field("theme"), Some("dark"));
}
