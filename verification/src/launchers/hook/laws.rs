//! What the hook promises as a whole: what is read from files and from the operating
//! system, and what is written into the settings of a workspace.

use vstd::prelude::*;
use crate::config::PATH_DELIM;
use crate::json::{parsed_tree, pretty_text, Json, JsonTree, NumberTree};
use crate::launchers::hook::quoting::{
    build_marker_command_as, build_marker_command_with_exe, capture_file_name, escape_workspace,
    escaped_workspace, law_marker_runs_the_capture, law_quoting_keeps_the_text, line_words,
    lock_file_name, native_style_for, shell_quote, shell_quote_as, style_for, ShellStyle,
};
use crate::launchers::hook::settings::{
    accepts_marker, add_marker, has_marker, hooks_session_start_contains, other_hooks,
    pruned_group, pruned_groups, read_settings, remove_marker, runs, session_groups,
    settings_tree, takes_marker, with_marker, without_marker, write_settings,
};
use crate::launchers::hook::{
    lock_pid, lock_text, parent_from_powershell, parent_from_ps, register_or_fail, start_walk,
    tasklist_has, try_read_capture, unregister, AncestryWalk, ParentLookup, RegisterRun,
    RegisterStep,
};
use crate::text::{
    decimal_text, has_part, law_replacing_goes_character_by_character, replaced, trimmed,
    u32_value,
};

verus! {

/// The session id of a capture is the text under `session_id` of the object that the file
/// holds, and nothing else that it holds.
pub proof fn law_capture_holds_the_session(content: &str, r: Option<String>)
    requires
        call_ensures(try_read_capture, (content,), r),
    ensures
        match parsed_tree(content@) {
            Some(JsonTree::Object(fields)) => if fields.contains_key("session_id"@)
                && fields["session_id"@] is Str {
                r matches Some(id) && JsonTree::Str(id@) == fields["session_id"@]
            } else {
                r is None
            },
            _ => r is None,
        },
{
}

/// A lock file names the process whose number it holds, with or without white space
/// around it, and nobody where it holds anything else.
pub proof fn law_lock_names_its_process(content: &str, pid: u32, r: u32)
    requires
        call_ensures(lock_pid, (content,), r),
    ensures
        trimmed(content@) == decimal_text(pid as nat) ==> r == pid,
        u32_value(trimmed(content@)) is None ==> r == 0,
        forall|text: String| #[trigger] call_ensures(lock_text, (pid,), text) ==> text@
            == decimal_text(pid as nat),
{
    crate::text::law_decimal_numbers_are_read(pid as nat, content@);
}

/// Tells whether the object at a place of a list of groups holds, at a place of its list
/// of hooks, an object with the given command.
pub open spec fn command_at(
    groups: Seq<JsonTree>,
    i: int,
    j: int,
    command: Seq<char>,
) -> bool {
    &&& 0 <= i < groups.len()
    &&& groups[i] matches JsonTree::Object(group)
    &&& group.contains_key("hooks"@)
    &&& group["hooks"@] matches JsonTree::Array(hooks)
    &&& 0 <= j < hooks.len()
    &&& hooks[j] matches JsonTree::Object(hook)
    &&& hook.contains_key("command"@)
    &&& hook["command"@] == JsonTree::Str(command)
}

/// The groups under `SessionStart` in the hooks of the settings, where all of that is
/// there.
pub open spec fn start_groups(settings: JsonTree) -> Option<Seq<JsonTree>> {
    match settings {
        JsonTree::Object(fields) => if fields.contains_key("hooks"@) {
            match fields["hooks"@] {
                JsonTree::Object(hooks) => if hooks.contains_key("SessionStart"@) {
                    match hooks["SessionStart"@] {
                        JsonTree::Array(groups) => Some(groups),
                        _ => None,
                    }
                } else {
                    None
                },
                _ => None,
            }
        } else {
            None
        },
        _ => None,
    }
}

/// The marker is in the settings exactly when some hook that runs at the start of a
/// session has it as its whole command.
pub proof fn law_marker_is_a_whole_command(settings: JsonTree, marker: Seq<char>)
    ensures
        has_marker(settings, marker) <==> (start_groups(settings) matches Some(groups) && exists|
            i: int,
            j: int,
        | #[trigger] command_at(groups, i, j, marker)),
        forall|value: &Json, text: &str, r: bool|
            value.tree() == settings && text@ == marker && #[trigger] call_ensures(
                hooks_session_start_contains,
                (value, text),
                r,
            ) ==> r == has_marker(settings, marker),
{
    assert(session_groups(settings) == start_groups(settings));
    if let Some(groups) = start_groups(settings) {
        if has_marker(settings, marker) {
            let i = choose|i: int|
                0 <= i < groups.len() && crate::launchers::hook::settings::group_has(
                    #[trigger] groups[i],
                    marker,
                );
            let hooks = crate::launchers::hook::settings::group_hooks(groups[i])->0;
            let j = choose|j: int| 0 <= j < hooks.len() && runs(#[trigger] hooks[j], marker);
            assert(command_at(groups, i, j, marker));
        }
        if exists|i: int, j: int| #[trigger] command_at(groups, i, j, marker) {
            let (i, j) = choose|i: int, j: int| #[trigger] command_at(groups, i, j, marker);
            let hooks = crate::launchers::hook::settings::group_hooks(groups[i])->0;
            assert(runs(hooks[j], marker));
            assert(crate::launchers::hook::settings::group_has(groups[i], marker));
        }
    }
}

/// Tells whether a value is a group with one hook, which runs a command and is given five
/// seconds for it.
pub open spec fn is_marker_group(group: JsonTree, command: Seq<char>) -> bool {
    &&& group matches JsonTree::Object(fields)
    &&& fields.dom() == set!["hooks"@]
    &&& fields["hooks"@] matches JsonTree::Array(hooks)
    &&& hooks.len() == 1
    &&& hooks[0] matches JsonTree::Object(hook)
    &&& hook.dom() == set!["type"@, "command"@, "timeout"@]
    &&& hook["type"@] == JsonTree::Str("command"@)
    &&& hook["command"@] == JsonTree::Str(command)
    &&& hook["timeout"@] == JsonTree::Number(NumberTree::Integer(5))
}

proof fn lemma_hook_names()
    ensures
        "type"@ != "command"@,
        "type"@ != "timeout"@,
        "command"@ != "timeout"@,
{
    reveal_strlit("type");
    reveal_strlit("command");
    reveal_strlit("timeout");
    assert("type"@.len() == 4);
    assert("command"@[0] == 'c');
    assert("timeout"@[0] == 't');
}

/// Adding the marker puts one group, with the marker as its only hook, behind those that
/// run at the start of a session. Every other field of the settings and of their hooks
/// stays as it was.
pub proof fn law_adding_appends_one_group(settings: JsonTree, marker: Seq<char>)
    requires
        takes_marker(settings),
    ensures
        ({
            let before = match start_groups(settings) {
                Some(groups) => groups,
                None => Seq::empty(),
            };
            &&& start_groups(with_marker(settings, marker)) matches Some(after)
            &&& after.len() == before.len() + 1
            &&& after.take(before.len() as int) == before
            &&& is_marker_group(after[before.len() as int], marker)
        }),
        ({
            let fields = match settings {
                JsonTree::Object(fields) => fields,
                _ => Map::empty(),
            };
            let hooks = if fields.contains_key("hooks"@) && fields["hooks"@] is Object {
                fields["hooks"@]->Object_0
            } else {
                Map::empty()
            };
            &&& with_marker(settings, marker) matches JsonTree::Object(after)
            &&& after.remove("hooks"@) == fields.remove("hooks"@)
            &&& after["hooks"@] matches JsonTree::Object(hooks_after)
            &&& hooks_after.remove("SessionStart"@) == hooks.remove("SessionStart"@)
        }),
        forall|value: &mut Json, text: &str|
            value.tree() == settings && text@ == marker && #[trigger] call_ensures(
                add_marker,
                (value, text),
                (),
            ) ==> final(value).tree() == with_marker(settings, marker),
{
    lemma_hook_names();
    let before = match start_groups(settings) {
        Some(groups) => groups,
        None => Seq::empty(),
    };
    assert(session_groups(settings) == start_groups(settings));
    let marked = with_marker(settings, marker);
    let after = before.push(crate::launchers::hook::settings::marker_group(marker));
    assert(start_groups(marked) == Some(after));
    assert(after.take(before.len() as int) =~= before);
    let group = after[before.len() as int];
    assert(group->Object_0.dom() =~= set!["hooks"@]);
    let hook = group->Object_0["hooks"@]->Array_0[0];
    assert(hook->Object_0.dom() =~= set!["type"@, "command"@, "timeout"@]);
    let fields = match settings {
        JsonTree::Object(fields) => fields,
        _ => Map::empty(),
    };
    let hooks = if fields.contains_key("hooks"@) && fields["hooks"@] is Object {
        fields["hooks"@]->Object_0
    } else {
        Map::empty()
    };
    assert(marked->Object_0.remove("hooks"@) =~= fields.remove("hooks"@));
    assert(marked->Object_0["hooks"@]->Object_0.remove("SessionStart"@) =~= hooks.remove(
        "SessionStart"@,
    ));
}

/// There is room for the marker exactly where the hooks of the settings are missing or an
/// object, and what runs at the start of a session is missing there or a list.
pub proof fn law_where_there_is_room_for_the_marker(settings: JsonTree)
    ensures
        takes_marker(settings) <==> (match settings {
            JsonTree::Object(fields) => fields.contains_key("hooks"@) ==> fields["hooks"@] is Object
                && (fields["hooks"@]->Object_0.contains_key("SessionStart"@)
                ==> fields["hooks"@]->Object_0["SessionStart"@] is Array),
            _ => true,
        }),
        forall|value: &Json, r: bool|
            value.tree() == settings && #[trigger] call_ensures(accepts_marker, (value,), r) ==> r
                == takes_marker(settings),
{
}

/// Tells whether a value is an object with the given command.
pub open spec fn is_command(hook: JsonTree, command: Seq<char>) -> bool {
    &&& hook matches JsonTree::Object(fields)
    &&& fields.contains_key("command"@)
    &&& fields["command"@] == JsonTree::Str(command)
}

/// Every hook but those that run a command.
pub open spec fn not_running(command: Seq<char>) -> spec_fn(JsonTree) -> bool {
    |hook: JsonTree| !is_command(hook, command)
}

proof fn lemma_other_hooks_filter(hooks: Seq<JsonTree>, command: Seq<char>)
    ensures
        other_hooks(hooks, command) == hooks.filter(not_running(command)),
    decreases hooks.len(),
{
    reveal(Seq::filter);
    if hooks.len() > 0 {
        lemma_other_hooks_filter(hooks.drop_last(), command);
        assert(runs(hooks.last(), command) == is_command(hooks.last(), command));
    } else {
        assert(other_hooks(hooks, command) =~= hooks.filter(not_running(command)));
    }
}

/// What is left of a group without the hooks that run a command: the group with the other
/// hooks in their order, itself where it has none of them, and nothing where it has no
/// others.
pub open spec fn left_of_group(group: JsonTree, command: Seq<char>) -> Option<JsonTree> {
    match group {
        JsonTree::Object(fields) => if fields.contains_key("hooks"@) && fields["hooks"@] is Array && (
        exists|j: int|
            0 <= j < fields["hooks"@]->Array_0.len() && is_command(
                #[trigger] fields["hooks"@]->Array_0[j],
                command,
            )) {
            let rest = fields["hooks"@]->Array_0.filter(not_running(command));
            if rest.len() == 0 {
                None
            } else {
                Some(JsonTree::Object(fields.insert("hooks"@, JsonTree::Array(rest))))
            }
        } else {
            Some(group)
        },
        _ => Some(group),
    }
}

/// What is left of each group.
pub open spec fn left_of(command: Seq<char>) -> spec_fn(JsonTree) -> Option<JsonTree> {
    |group: JsonTree| left_of_group(group, command)
}

proof fn lemma_left_of_group(group: JsonTree, command: Seq<char>)
    ensures
        pruned_group(group, command) == left_of_group(group, command),
{
    if let JsonTree::Object(fields) = group {
        if fields.contains_key("hooks"@) && fields["hooks"@] is Array {
            let hooks = fields["hooks"@]->Array_0;
            lemma_other_hooks_filter(hooks, command);
            assert forall|j: int| 0 <= j < hooks.len() implies runs(#[trigger] hooks[j], command)
                == is_command(hooks[j], command) by {}
            if crate::launchers::hook::settings::group_has(group, command) {
                let j = choose|j: int| 0 <= j < hooks.len() && runs(#[trigger] hooks[j], command);
                assert(is_command(hooks[j], command));
            }
        }
    }
}

proof fn lemma_left_of_groups(groups: Seq<JsonTree>, command: Seq<char>)
    ensures
        pruned_groups(groups, command) == groups.filter_map(left_of(command)),
    decreases groups.len(),
{
    let f = left_of(command);
    if groups.len() > 0 {
        let front = groups.drop_last();
        lemma_left_of_groups(front, command);
        lemma_left_of_group(groups.last(), command);
        match f(groups.last()) {
            Some(group) => {
                assert(groups.filter_map(f) =~= front.filter_map(f).push(group));
            },
            None => {
                assert(groups.filter_map(f) =~= front.filter_map(f));
            },
        }
    } else {
        assert(pruned_groups(groups, command) =~= groups.filter_map(f));
    }
}

/// Removing the marker takes the hooks that run it out of the groups at the start of a
/// session and leaves the other hooks and groups there in their order. A group that loses
/// all its hooks goes, and so does the list of groups when it loses all of them. Every
/// other field of the settings and of their hooks stays as it was, and settings without
/// the marker stay as they are.
pub proof fn law_removing_takes_only_the_marker(settings: JsonTree, marker: Seq<char>)
    ensures
        !has_marker(settings, marker) ==> without_marker(settings, marker) == settings,
        has_marker(settings, marker) ==> {
            let fields = settings->Object_0;
            let hooks = fields["hooks"@]->Object_0;
            let left = start_groups(settings)->0.filter_map(left_of(marker));
            &&& without_marker(settings, marker) matches JsonTree::Object(after)
            &&& after.contains_key("hooks"@)
            &&& after.remove("hooks"@) == fields.remove("hooks"@)
            &&& after["hooks"@] matches JsonTree::Object(hooks_after)
            &&& hooks_after.remove("SessionStart"@) == hooks.remove("SessionStart"@)
            &&& hooks_after.contains_key("SessionStart"@) <==> left.len() > 0
            &&& left.len() > 0 ==> hooks_after["SessionStart"@] == JsonTree::Array(left)
        },
        forall|value: &mut Json, text: &str|
            value.tree() == settings && text@ == marker && #[trigger] call_ensures(
                remove_marker,
                (value, text),
                (),
            ) ==> final(value).tree() == without_marker(settings, marker),
{
    if has_marker(settings, marker) {
        let fields = settings->Object_0;
        let hooks = fields["hooks"@]->Object_0;
        let groups = start_groups(settings)->0;
        assert(session_groups(settings) == start_groups(settings));
        lemma_left_of_groups(groups, marker);
        let after = without_marker(settings, marker)->Object_0;
        assert(after.remove("hooks"@) =~= fields.remove("hooks"@));
        let hooks_after = after["hooks"@]->Object_0;
        assert(hooks_after.remove("SessionStart"@) =~= hooks.remove("SessionStart"@));
    }
}

/// The settings that a file stands for are what it holds as JSON, and the empty object
/// where there is no file, it is blank, or it holds something else. They are written as
/// indented JSON with a line end.
pub proof fn law_settings_are_what_the_file_holds(content: Option<&str>, value: &Json)
    ensures
        settings_tree(None) == JsonTree::Object(Map::empty()),
        forall|text: Seq<char>|
            trimmed(text).len() > 0 && parsed_tree(text) is Some ==> #[trigger] settings_tree(
                Some(text),
            ) == parsed_tree(text)->0,
        forall|text: Seq<char>|
            trimmed(text).len() == 0 || parsed_tree(text) is None ==> #[trigger] settings_tree(
                Some(text),
            ) == JsonTree::Object(Map::empty()),
        forall|r: Json| #[trigger] call_ensures(read_settings, (content,), r) ==> r.tree() == (
        match content {
            Some(text) => settings_tree(Some(text@)),
            None => settings_tree(None),
        }),
        forall|r: String| #[trigger] call_ensures(write_settings, (value,), r) ==> r@
            == pretty_text(value.tree()) + "\n"@,
{
}

/// Taking a registration back writes the settings that the file held without the marker.
pub proof fn law_taking_back_writes_the_rest(content: Option<&str>, marker: &str, r: String)
    requires
        call_ensures(unregister, (content, marker), r),
    ensures
        ({
            let before = match content {
                Some(text) => settings_tree(Some(text@)),
                None => JsonTree::Object(Map::empty()),
            };
            r@ == pretty_text(without_marker(before, marker@)) + "\n"@
        }),
        !has_marker(settings_tree(Some(r@)), marker@),
{
}

/// A registration is refused exactly when the marker is there and the lock file names a
/// process that is alive; the settings are then left alone. Else the marker is added.
pub proof fn law_registration_is_refused_for_the_living(
    marker: &str,
    lock_content: &str,
    alive: bool,
)
    ensures
        forall|settings: &mut Json, r: Result<(), String>|
            takes_marker(settings.tree()) && #[trigger] call_ensures(
                register_or_fail,
                (settings, marker, lock_content, alive),
                r,
            ) ==> {
                let pid = u32_value(trimmed(lock_content@));
                let taken = has_marker(settings.tree(), marker@) && pid is Some && pid->0 != 0
                    && alive;
                &&& r is Err <==> taken
                &&& taken ==> *final(settings) == *settings
                &&& !taken ==> final(settings).tree() == with_marker(settings.tree(), marker@)
                &&& taken ==> r->Err_0@
                    == "Another granite-cli-managed Bob session is already tracking usage in this workspace (pid "@
                    + decimal_text(pid->0 as nat) + ")."@
            },
{
}

/// A registration writes the settings and then the lock file. Where either cannot be
/// written it takes the marker out again and has failed, whether that worked or not.
pub proof fn law_registration_goes_step_by_step(worked: bool)
    ensures
        forall|r: RegisterRun| #[trigger] call_ensures(RegisterRun::start, (), r) ==> r.step
            == RegisterStep::WriteSettings,
        forall|run: &mut RegisterRun| #[trigger]
            call_ensures(RegisterRun::advance, (run, worked), ()) ==> final(run).step == (
            match run.step {
                RegisterStep::WriteSettings => if worked {
                    RegisterStep::WriteLock
                } else {
                    RegisterStep::TakeMarkerOut
                },
                RegisterStep::WriteLock => if worked {
                    RegisterStep::Registered
                } else {
                    RegisterStep::TakeMarkerOut
                },
                RegisterStep::TakeMarkerOut => RegisterStep::Failed,
                RegisterStep::Registered => RegisterStep::Registered,
                RegisterStep::Failed => RegisterStep::Failed,
            }),
{
}

/// What an operating system answers names the parent that it holds the number of. `ps`
/// says 0 and PowerShell says nothing where there is none; anything else is no answer.
pub proof fn law_parents_are_read(success: bool, stdout: &str, pid: u32)
    ensures
        forall|r: ParentLookup| #[trigger] call_ensures(parent_from_ps, (success, stdout), r)
            ==> r == (if success && trimmed(stdout@) == decimal_text(pid as nat) {
            Ok::<Option<u32>, ()>(
                if pid == 0 {
                    None
                } else {
                    Some(pid)
                },
            )
        } else {
            r
        }) && (!success || u32_value(trimmed(stdout@)) is None ==> r is Err),
        forall|r: ParentLookup| #[trigger] call_ensures(parent_from_powershell, (stdout,), r) ==> (
        trimmed(stdout@).len() == 0 ==> r == Ok::<Option<u32>, ()>(None)) && (trimmed(stdout@)
            == decimal_text(pid as nat) ==> r == Ok::<Option<u32>, ()>(Some(pid))) && (trimmed(
            stdout@,
        ).len() > 0 && u32_value(trimmed(stdout@)) is None ==> r is Err),
        forall|r: bool| #[trigger] call_ensures(tasklist_has, (stdout, pid), r) ==> r == has_part(
            stdout@,
            decimal_text(pid as nat),
        ),
{
    crate::text::law_decimal_numbers_are_read(pid as nat, stdout@);
    crate::text::lemma_decimal_reads_back(pid as nat);
}

/// A walk is over at once where the process is the one that is searched for, or no lookup
/// is allowed. A lookup that names that process ends it with yes; one that names another
/// goes on there, unless it was the last; one that names none ends it with no; and one
/// that fails leaves it open.
pub proof fn law_walk_goes_up_one_by_one(own: u32, expected: u32, depth: usize, lookup: ParentLookup)
    ensures
        forall|walk: AncestryWalk| #[trigger]
            call_ensures(start_walk, (own, expected, depth), walk) ==> walk.pid == own
                && walk.expected_pid == expected && walk.depth_left == depth && walk.outcome == (
            if own == expected {
                Some(Some(true))
            } else if depth == 0 {
                Some(Some(false))
            } else {
                None
            }),
        forall|walk: &mut AncestryWalk|
            walk.outcome is None && walk.depth_left > 0 && #[trigger] call_ensures(
                AncestryWalk::advance,
                (walk, lookup),
                (),
            ) ==> {
                &&& final(walk).expected_pid == walk.expected_pid
                &&& final(walk).outcome == (match lookup {
                    Err(_) => Some(None),
                    Ok(None) => Some(Some(false)),
                    Ok(Some(parent)) => if parent == 0 {
                        Some(Some(false))
                    } else if parent == walk.expected_pid {
                        Some(Some(true))
                    } else if walk.depth_left == 1 {
                        Some(Some(false))
                    } else {
                        None
                    },
                })
                &&& lookup matches Ok(Some(parent)) ==> parent != 0 ==> final(walk).pid == parent
                    && final(walk).depth_left == walk.depth_left - 1
            },
{
}

/// A workspace path is escaped character by character: a slash, a backslash or a colon
/// becomes three dashes and everything else stays. The files for the workspace are named
/// after that.
pub proof fn law_workspace_is_escaped_character_by_character(
    workspace: &str,
    a: Seq<char>,
    b: Seq<char>,
    c: char,
)
    ensures
        escaped_workspace(a + b) == escaped_workspace(a) + escaped_workspace(b),
        escaped_workspace(seq![c]) == (if c == '/' || c == '\\' || c == ':' {
            seq!['-', '-', '-']
        } else {
            seq![c]
        }),
        forall|r: String| #[trigger] call_ensures(escape_workspace, (workspace,), r) ==> r@
            == escaped_workspace(workspace@),
        forall|r: String| #[trigger] call_ensures(capture_file_name, (workspace,), r) ==> r@
            == escaped_workspace(workspace@) + ".capture.json"@,
        forall|r: String| #[trigger] call_ensures(lock_file_name, (workspace,), r) ==> r@
            == escaped_workspace(workspace@) + ".lock"@,
{
    law_replacing_goes_character_by_character(a, b, c, "/\\:"@, PATH_DELIM@);
    reveal_strlit("/\\:");
    reveal_strlit("---");
    let from = "/\\:"@;
    assert(from =~= seq!['/', '\\', ':']);
    assert(PATH_DELIM@ =~= seq!['-', '-', '-']);
    assert(from[0] == '/' && from[1] == '\\' && from[2] == ':');
    assert(from.contains(c) == (c == '/' || c == '\\' || c == ':'));
}

/// Commands go to `cmd.exe` exactly on machines where a backslash separates the parts of
/// a path.
pub proof fn law_style_goes_by_the_separator(separates: bool, style: ShellStyle)
    requires
        call_ensures(style_for, (separates,), style),
    ensures
        style == native_style_for(separates),
        style == ShellStyle::Cmd <==> separates,
{
}

/// A quoted text stands between two quotes, and a shell of the style reads it as one word,
/// which is the text. A command line with the marker starts the program with the
/// subcommand, the capture file, the option and the lock file, and nothing else.
pub proof fn law_shell_gets_what_was_quoted(
    style: ShellStyle,
    text: &str,
    exe: &str,
    capture_path: &str,
    lock_path: &str,
)
    ensures
        forall|r: String| #[trigger] call_ensures(shell_quote_as, (style, text), r) ==> {
            &&& line_words(style, r@) == seq![text@]
            &&& style == ShellStyle::Posix ==> r@ == "'"@ + replaced(text@, "'"@, "'\"'\"'"@)
                + "'"@
            &&& style == ShellStyle::Cmd ==> r@ == "\""@ + replaced(text@, "\""@, "\"\""@)
                + "\""@
        },
        forall|r: String| #[trigger]
            call_ensures(build_marker_command_as, (style, exe, capture_path, lock_path), r)
                ==> line_words(style, r@) == seq![
                exe@,
                "internal"@,
                "bob-hook-capture"@,
                capture_path@,
                "--ancestor-lock"@,
                lock_path@,
            ],
{
    law_quoting_keeps_the_text(style, text@);
    law_marker_runs_the_capture(style, exe@, capture_path@, lock_path@);
}

/// On a machine, a text is quoted and the marker is built in the style that the machine's
/// separator calls for.
pub proof fn law_machine_quotes_in_its_style(
    text: &str,
    exe: &str,
    capture_path: &str,
    lock_path: &str,
)
    ensures
        forall|r: String| #[trigger]
            call_ensures(shell_quote, (text,), r) ==> exists|separates: bool| #[trigger]
                call_ensures(std::path::is_separator, ('\\',), separates) && line_words(
                    if separates {
                        ShellStyle::Cmd
                    } else {
                        ShellStyle::Posix
                    },
                    r@,
                ) == seq![text@],
        forall|r: String| #[trigger]
            call_ensures(build_marker_command_with_exe, (exe, capture_path, lock_path), r)
                ==> exists|separates: bool| #[trigger]
                call_ensures(std::path::is_separator, ('\\',), separates) && line_words(
                    if separates {
                        ShellStyle::Cmd
                    } else {
                        ShellStyle::Posix
                    },
                    r@,
                ) == seq![
                    exe@,
                    "internal"@,
                    "bob-hook-capture"@,
                    capture_path@,
                    "--ancestor-lock"@,
                    lock_path@,
                ],
{
    law_quoting_keeps_the_text(ShellStyle::Posix, text@);
    law_quoting_keeps_the_text(ShellStyle::Cmd, text@);
    law_marker_runs_the_capture(ShellStyle::Posix, exe@, capture_path@, lock_path@);
    law_marker_runs_the_capture(ShellStyle::Cmd, exe@, capture_path@, lock_path@);
}

} // verus!
