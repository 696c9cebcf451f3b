use granite_cli::launchers::hook::quoting::{
    build_marker_command_as, build_marker_command_with_exe, capture_file_name, escape_workspace,
    lock_file_name, native_style, shell_quote, shell_quote_as, style_for, ShellStyle,
};

#[test]
fn hook_shell_quote_simple_path_unquoted() {
    assert_eq!(
        shell_quote_as(ShellStyle::Posix, "/usr/local/bin/granite-cli"),
        "'/usr/local/bin/granite-cli'"
    );
    let native = shell_quote("/usr/local/bin/granite-cli");
    assert_eq!(native, shell_quote_as(native_style(), "/usr/local/bin/granite-cli"));
}

#[test]
fn shell_quote_simple_path_unquoted() {
    assert_eq!(
        shell_quote_as(ShellStyle::Cmd, r"C:\bin\granite-cli"),
        "\"C:\\bin\\granite-cli\""
    );
}

#[test]
fn hook_shell_quote_path_with_spaces() {
    assert_eq!(
        shell_quote_as(ShellStyle::Posix, "/path/with spaces/granite-cli"),
        "'/path/with spaces/granite-cli'"
    );
}

#[test]
fn shell_quote_path_with_spaces() {
    assert_eq!(
        shell_quote_as(ShellStyle::Cmd, r"C:\path\with spaces\granite-cli"),
        "\"C:\\path\\with spaces\\granite-cli\""
    );
}

#[test]
fn shell_quote_path_with_embedded_single_quote() {
    assert_eq!(
        shell_quote_as(ShellStyle::Posix, "/path/with'quote/granite-cli"),
        "'/path/with'\"'\"'quote/granite-cli'"
    );
}

#[test]
fn shell_quote_path_with_multiple_embedded_quotes() {
    assert_eq!(
        shell_quote_as(ShellStyle::Posix, "/a'b'c"),
        "'/a'\"'\"'b'\"'\"'c'"
    );
}

#[test]
fn shell_quote_path_with_embedded_double_quote() {
    assert_eq!(
        shell_quote_as(ShellStyle::Cmd, r#"C:\path\with"quote\granite-cli"#),
        "\"C:\\path\\with\"\"quote\\granite-cli\""
    );
}

#[test]
fn the_native_style_follows_the_path_separator() {
    let windows = std::path::MAIN_SEPARATOR == '\\';
    assert_eq!(native_style() == ShellStyle::Cmd, windows);
    assert_eq!(native_style(), style_for(std::path::is_separator('\\')));
    assert_eq!(style_for(true), ShellStyle::Cmd);
    assert_eq!(style_for(false), ShellStyle::Posix);
    assert!(shell_quote("x").starts_with(if windows { '"' } else { '\'' }));
}

#[test]
fn an_empty_text_is_quoted_too() {
    assert_eq!(shell_quote_as(ShellStyle::Posix, ""), "''");
    assert_eq!(shell_quote_as(ShellStyle::Cmd, ""), "\"\"");
}

#[test]
fn build_marker_command_with_exe_format() {
    let exe = "/usr/local/bin/granite-cli";
    let capture = "/tmp/ws/.bob/.granite-cli-usage-capture.json";
    let lock = "/tmp/ws/.bob/.granite-cli-usage.lock";
    let result = build_marker_command_with_exe(exe, capture, lock);
    let quote = if native_style() == ShellStyle::Cmd { "\"" } else { "'" };
    assert!(result.starts_with(quote));
    assert!(result.contains("internal bob-hook-capture"));
    assert!(result.contains(".granite-cli-usage-capture.json"));
    assert!(result.contains("--ancestor-lock"));
    assert!(result.contains(".granite-cli-usage.lock"));
    assert_eq!(
        build_marker_command_as(ShellStyle::Posix, exe, capture, lock),
        "'/usr/local/bin/granite-cli' internal bob-hook-capture \
         '/tmp/ws/.bob/.granite-cli-usage-capture.json' --ancestor-lock \
         '/tmp/ws/.bob/.granite-cli-usage.lock'"
    );
}

#[test]
fn hook_build_marker_command_with_exe_embedded_quote() {
    let capture = "/tmp/ws/.bob/.granite-cli-usage-capture.json";
    let lock = "/tmp/ws/.bob/.granite-cli-usage.lock";
    let result = build_marker_command_as(
        ShellStyle::Posix,
        "/path/with'quote/granite-cli",
        capture,
        lock,
    );
    assert!(result.contains("internal bob-hook-capture"));
    assert!(result.contains("\"'\"'"));
}

#[test]
fn build_marker_command_with_exe_embedded_quote() {
    let result = build_marker_command_as(
        ShellStyle::Cmd,
        r#"C:\path\with"quote\granite-cli"#,
        r"C:\ws\.bob\.granite-cli-usage-capture.json",
        r"C:\ws\.bob\.granite-cli-usage.lock",
    );
    assert!(result.contains("internal bob-hook-capture"));
    assert!(result.contains("with\"\"quote"));
}

#[test]
fn this_machine_quotes_in_its_own_style() {
    for path in [
        "/usr/local/bin/granite-cli",
        r"C:\bin\granite-cli",
        "/path/with spaces/granite-cli",
        r"C:\path\with spaces\granite-cli",
        "/path/with'quote/granite-cli",
        "/a'b'c",
        r#"C:\path\with"quote\granite-cli"#,
        "",
    ] {
        assert_eq!(shell_quote(path), shell_quote_as(native_style(), path));
    }
    for (exe, capture, lock) in [
        (
            "/usr/local/bin/granite-cli",
            "/tmp/ws/.bob/.granite-cli-usage-capture.json",
            "/tmp/ws/.bob/.granite-cli-usage.lock",
        ),
        (
            "/path/with'quote/granite-cli",
            "/tmp/ws/.bob/.granite-cli-usage-capture.json",
            "/tmp/ws/.bob/.granite-cli-usage.lock",
        ),
        (
            r#"C:\path\with"quote\granite-cli"#,
            r"C:\ws\.bob\.granite-cli-usage-capture.json",
            r"C:\ws\.bob\.granite-cli-usage.lock",
        ),
    ] {
        assert_eq!(
            build_marker_command_with_exe(exe, capture, lock),
            build_marker_command_as(native_style(), exe, capture, lock)
        );
    }
}

#[test]
fn escape_workspace_replaces_slashes_with_delim() {
    let escaped = escape_workspace("/home/user/projects/my-app");
    assert_eq!(
        escaped,
        format!("{}---{}---{}---{}---{}", "", "home", "user", "projects", "my-app")
    );
}

#[test]
fn escape_workspace_root_path() {
    assert_eq!(escape_workspace("/"), "---");
}

#[test]
fn escape_workspace_replaces_drive_letters_and_backslashes() {
    assert_eq!(escape_workspace(r"C:\Users\me"), "C------Users---me");
}

#[test]
fn capture_and_lock_files_are_named_after_the_workspace() {
    assert_eq!(capture_file_name("/a/b"), "---a---b.capture.json");
    assert_eq!(lock_file_name("/a/b"), "---a---b.lock");
}

#[test]
fn different_workspaces_get_different_files_and_markers() {
    let workspaces = ["/a", "/a/b", "/a-b", "/a/b-c", "/ab", "/a/b/", "a/b"];
    for (i, first) in workspaces.iter().enumerate() {
        for second in &workspaces[i + 1..] {
            assert_ne!(capture_file_name(first), capture_file_name(second));
            assert_ne!(
                build_marker_command_as(ShellStyle::Posix, "exe", first, "lock"),
                build_marker_command_as(ShellStyle::Posix, "exe", second, "lock")
            );
        }
        assert!(!escape_workspace(first).contains(['/', '\\', ':']));
    }
    assert_eq!(escape_workspace("/a"), escape_workspace("---a"));
}
