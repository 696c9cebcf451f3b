use granite_cli::json::Json;
use granite_cli::launchers::hook::settings::{
    hooks_session_start_contains, read_settings, remove_marker, write_settings,
};
use granite_cli::launchers::hook::{
    lock_pid, lock_text, parent_from_powershell, parent_from_ps, register_or_fail, start_walk,
    tasklist_has, try_read_capture, unregister, AncestryWalk, HookRegistration, RegisterRun,
    RegisterStep,
};

#[test]
fn try_read_capture_valid_session_start_returns_session_id() {
    assert_eq!(
        try_read_capture(r#"{"hook_event_name": "SessionStart", "session_id": "task-123"}"#),
        Some("task-123".to_string())
    );
}

#[test]
fn try_read_capture_wrong_event_returns_session_id() {
    assert_eq!(
        try_read_capture(r#"{"hook_event_name": "PostToolUse", "session_id": "task-123"}"#),
        Some("task-123".to_string())
    );
}

#[test]
fn try_read_capture_missing_session_id_returns_none() {
    assert!(try_read_capture(r#"{"hook_event_name": "SessionStart"}"#).is_none());
}

#[test]
fn try_read_capture_session_id_that_is_no_text_returns_none() {
    assert!(try_read_capture(r#"{"session_id": 5}"#).is_none());
}

#[test]
fn try_read_capture_invalid_json_returns_none() {
    assert!(try_read_capture("not json").is_none());
    assert!(try_read_capture("").is_none());
}

#[test]
fn try_read_capture_non_object_returns_none() {
    assert!(try_read_capture(r#"[1, 2, 3]"#).is_none());
}

#[test]
fn a_lock_names_the_process_that_wrote_it() {
    for pid in [1, 9, 10, 4711, u32::MAX] {
        assert_eq!(lock_pid(&lock_text(pid)), pid);
        assert_eq!(lock_pid(&format!(" \t{pid}\r\n")), pid);
        assert_eq!(lock_pid(&format!("+{pid}")), pid);
        assert_eq!(lock_text(pid), pid.to_string());
    }
}

#[test]
fn a_lock_that_makes_no_sense_names_nobody() {
    for content in ["", " ", "+", "-1", "abc", "12x", "1 2", "4294967296", "99999999999999999999"] {
        assert_eq!(lock_pid(content), 0, "{content:?}");
    }
    assert_eq!(lock_pid("0007"), 7);
}

#[test]
fn a_first_registration_writes_the_marker() {
    let mut settings = Json::empty_object();
    assert_eq!(register_or_fail(&mut settings, "m", "", false), Ok(()));
    assert!(hooks_session_start_contains(&settings, "m"));

    let mut settings = Json::empty_object();
    assert_eq!(register_or_fail(&mut settings, "m", "4711", true), Ok(()));
}

#[test]
fn a_second_registration_collides_with_a_live_one() {
    let mut settings = Json::empty_object();
    register_or_fail(&mut settings, "m", "", false).unwrap();
    let before = settings.pretty();
    assert_eq!(
        register_or_fail(&mut settings, "m", &lock_text(4711), true),
        Err("Another granite-cli-managed Bob session is already tracking usage in this workspace (pid 4711).".to_string())
    );
    assert_eq!(settings.pretty(), before);
    assert_eq!(register_or_fail(&mut settings, "other", &lock_text(4711), true), Ok(()));
}

#[test]
fn a_stale_registration_is_reclaimed() {
    let mut settings = Json::empty_object();
    register_or_fail(&mut settings, "m", "", false).unwrap();
    assert_eq!(register_or_fail(&mut settings, "m", &lock_text(4711), false), Ok(()));
    assert_eq!(register_or_fail(&mut settings, "m", "garbage", true), Ok(()));
    assert_eq!(register_or_fail(&mut settings, "m", "0", true), Ok(()));
    remove_marker(&mut settings, "m");
    assert!(!hooks_session_start_contains(&settings, "m"));
    assert_eq!(register_or_fail(&mut settings, "m", &lock_text(4711), true), Ok(()));
}

/// Writes a registration down in a file that some of the writes to may fail.
fn write_down(
    before: &str,
    torn: &str,
    settings_written: bool,
    lock_written: bool,
) -> (RegisterStep, String) {
    let mut value = read_settings(Some(before));
    register_or_fail(&mut value, "m", "", false).unwrap();
    let mut file = before.to_string();
    let mut run = RegisterRun::start();
    loop {
        let worked = match run.step {
            RegisterStep::WriteSettings => {
                file = if settings_written { write_settings(&value) } else { torn.to_string() };
                settings_written
            }
            RegisterStep::WriteLock => lock_written,
            RegisterStep::TakeMarkerOut => {
                file = unregister(Some(&file), "m");
                true
            }
            RegisterStep::Registered | RegisterStep::Failed => return (run.step, file),
        };
        run.advance(worked);
    }
}

#[test]
fn a_registration_that_fails_leaves_no_marker() {
    let before = r#"{"theme":"dark"}"#;
    let (step, file) = write_down(before, before, true, true);
    assert_eq!(step, RegisterStep::Registered);
    let marked = read_settings(Some(&file));
    assert!(hooks_session_start_contains(&marked, "m"));
    assert_eq!(marked.text_field("theme"), Some("dark"));

    for (torn, settings_written) in [(before, false), (file.as_str(), false), ("{\"the", false), (before, true)] {
        let (step, left) = write_down(before, torn, settings_written, false);
        assert_eq!(step, RegisterStep::Failed);
        assert!(!hooks_session_start_contains(&read_settings(Some(&left)), "m"), "{torn}");
    }
    let (_, left) = write_down(before, before, true, false);
    assert_eq!(read_settings(Some(&left)).text_field("theme"), Some("dark"));
}

#[test]
fn a_registration_goes_on_step_by_step() {
    let mut run = RegisterRun::start();
    assert_eq!(run.step, RegisterStep::WriteSettings);
    run.advance(true);
    assert_eq!(run.step, RegisterStep::WriteLock);
    run.advance(false);
    assert_eq!(run.step, RegisterStep::TakeMarkerOut);
    run.advance(false);
    assert_eq!(run.step, RegisterStep::Failed);
    run.advance(true);
    assert_eq!(run.step, RegisterStep::Failed);
}

#[test]
fn unregistering_takes_every_copy_of_the_marker_out() {
    let mut settings = read_settings(Some(r#"{"theme":"dark"}"#));
    for marker in ["m", "other", "m"] {
        register_or_fail(&mut settings, marker, "", false).unwrap();
    }
    let text = unregister(Some(&write_settings(&settings)), "m");
    assert!(text.ends_with("}\n"));
    let left = read_settings(Some(&text));
    assert!(!hooks_session_start_contains(&left, "m"));
    assert!(hooks_session_start_contains(&left, "other"));
    assert_eq!(left.text_field("theme"), Some("dark"));
    let mut odd = read_settings(Some(r#"{"ratio":0.1,"big":1.7976931348623157e308,"n":-3}"#));
    register_or_fail(&mut odd, "m", "", false).unwrap();
    let left = read_settings(Some(&unregister(Some(&write_settings(&odd)), "m")));
    assert!(!hooks_session_start_contains(&left, "m"));
    assert_eq!(unregister(None, "m"), "{}\n");
    assert_eq!(unregister(Some("not json"), "m"), "{}\n");
}

#[test]
fn a_registration_tells_where_its_files_are() {
    let registration = HookRegistration {
        capture_path: "/s/a.capture.json".to_string(),
        lock_path: "/s/a.lock".to_string(),
        marker_command: "m".to_string(),
    };
    assert_eq!(registration.lock_path, "/s/a.lock");
}

fn run(mut walk: AncestryWalk, parents: &[(u32, Result<Option<u32>, ()>)]) -> Option<bool> {
    while walk.outcome.is_none() && walk.depth_left > 0 {
        let (_, lookup) = parents.iter().find(|(pid, _)| *pid == walk.pid).unwrap();
        walk.advance(*lookup);
    }
    walk.outcome.unwrap()
}

#[test]
fn is_process_ancestor_owns_pid_at_depth_zero() {
    assert_eq!(start_walk(77, 77, 0).outcome, Some(Some(true)));
    assert_eq!(start_walk(77, 78, 0).outcome, Some(Some(false)));
}

#[test]
fn is_process_ancestor_finds_a_grandparent() {
    let parents = [(7, Ok(Some(5))), (5, Ok(Some(3))), (3, Ok(Some(1))), (1, Ok(Some(0)))];
    assert_eq!(run(start_walk(7, 3, 16), &parents), Some(true));
    assert_eq!(run(start_walk(7, 3, 2), &parents), Some(true));
    assert_eq!(run(start_walk(7, 3, 1), &parents), Some(false));
}

#[test]
fn is_process_ancestor_reaches_root_without_finding_unlikely_pid() {
    let parents = [(7, Ok(Some(1))), (1, Ok(Some(0)))];
    assert_eq!(run(start_walk(7, 999999999, 16), &parents), Some(false));
    assert_eq!(run(start_walk(7, 0, 16), &parents), Some(false));
    assert_eq!(run(start_walk(7, 9, 16), &[(7, Ok(None))]), Some(false));
}

#[test]
fn is_process_ancestor_cannot_tell_when_a_lookup_fails() {
    assert_eq!(run(start_walk(7, 9, 16), &[(7, Ok(Some(5))), (5, Err(()))]), None);
    assert_eq!(run(start_walk(7, 5, 16), &[(7, Ok(Some(5))), (5, Err(()))]), Some(true));
}

#[test]
fn the_answers_of_the_operating_system_are_read() {
    assert_eq!(parent_from_ps(true, "  812\n"), Ok(Some(812)));
    assert_eq!(parent_from_ps(true, "    0\n"), Ok(None));
    assert_eq!(parent_from_ps(true, "\n"), Err(()));
    assert_eq!(parent_from_ps(true, "x"), Err(()));
    assert_eq!(parent_from_ps(false, "812"), Err(()));
    assert_eq!(parent_from_powershell("812\r\n"), Ok(Some(812)));
    assert_eq!(parent_from_powershell("\r\n"), Ok(None));
    assert_eq!(parent_from_powershell("?"), Err(()));
    assert!(tasklist_has("bob.exe    4711 Console", 4711));
    assert!(!tasklist_has("INFO: No tasks are running", 4711));
    assert!(!tasklist_has("", 0));
    assert!(tasklist_has("471", 471));
}
