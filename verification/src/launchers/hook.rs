//! The lifecycle hook by which Bob reports the session it started.
//!
//! The hook stands in the workspace's settings file as a marker command. The
//! marker is the same for every process that works in the workspace, so a
//! second process finds the first one's marker there. A lock file names the
//! process that registered the hook.

pub mod laws;
pub mod quoting;
pub mod settings;

use vstd::prelude::*;
use vstd::string::*;
use crate::json::{alike, parsed_tree, pretty_text, reads_back, Json, JsonTree};
use crate::launchers::hook::settings::{
    add_marker, has_marker, hooks_session_start_contains, law_add_changes_only_the_marker,
    law_doubles_do_not_matter_to_the_marker, law_remove_changes_only_the_marker,
    law_unmarked_settings_read_back, read_settings, remove_marker, settings_tree, takes_marker,
    with_marker, without_marker, write_settings,
};
use crate::providers::str_view;
use crate::text::{
    contains_text, decimal, decimal_text, has_part, is_digit, lemma_decimal_reads_back,
    lemma_nothing_to_trim, parse_u32, trim_chars, trimmed, u32_value,
};

verus! {

/// What a successful registration leaves for the caller: where the capture will
/// appear, where the lock file is, and the marker to take out afterwards.
#[derive(Debug)]
pub struct HookRegistration {
    pub capture_path: String,
    pub lock_path: String,
    pub marker_command: String,
}

/// The session id in a captured hook payload: the `session_id` field of a JSON
/// object, where it is a string.
pub open spec fn captured_session(value: JsonTree) -> Option<Seq<char>> {
    value.text_field("session_id"@)
}

/// The session id in a captured hook payload.
pub fn capture_session_id(value: &Json) -> (r: Option<String>)
    ensures
        match r {
            Some(id) => captured_session(value.tree()) == Some(id@),
            None => captured_session(value.tree()) is None,
        },
{
    match value.text_field("session_id") {
        Some(id) => Some(id.to_owned()),
        None => None,
    }
}

/// Reads the session id from the text of the capture file.
pub fn try_read_capture(content: &str) -> (r: Option<String>)
    ensures
        match r {
            Some(id) => parsed_tree(content@) matches Some(tree) && captured_session(tree) == Some(
                id@,
            ),
            None => parsed_tree(content@) matches Some(tree) ==> captured_session(tree) is None,
        },
{
    match Json::parse(content) {
        Some(value) => capture_session_id(&value),
        None => None,
    }
}

/// The process that a lock file names; 0 where it names none.
pub open spec fn lock_holder(content: Seq<char>) -> u32 {
    match u32_value(trimmed(content)) {
        Some(pid) => pid,
        None => 0,
    }
}

/// Reads the process that a lock file names; 0 where it names none.
pub fn lock_pid(content: &str) -> (r: u32)
    ensures
        r == lock_holder(content@),
{
    match parse_u32(&trim_chars(content)) {
        Some(pid) => pid,
        None => 0,
    }
}

/// The text of the lock file of a process.
pub fn lock_text(pid: u32) -> (r: String)
    ensures
        r@ == decimal_text(pid as nat),
{
    decimal(pid as u64)
}

/// Why a registration gives up.
pub open spec fn collision_text(pid: u32) -> Seq<char> {
    "Another granite-cli-managed Bob session is already tracking usage in this workspace (pid "@
        + decimal_text(pid as nat) + ")."@
}

/// Tells whether a live process has the hook already: the marker is there, and the
/// lock file names a process that is alive.
pub open spec fn is_taken(
    settings: JsonTree,
    marker: Seq<char>,
    lock_content: Seq<char>,
    holder_alive: bool,
) -> bool {
    has_marker(settings, marker) && lock_holder(lock_content) != 0 && holder_alive
}

/// Puts the marker into the settings, unless a live process has the hook already. What
/// the lock file holds is given, the empty text where it cannot be read, and whether
/// the process that it names is alive. A marker that was left behind is reclaimed.
pub fn register_or_fail(
    settings: &mut Json,
    marker_command: &str,
    lock_content: &str,
    holder_alive: bool,
) -> (r: Result<(), String>)
    requires
        takes_marker(old(settings).tree()),
    ensures
        if is_taken(old(settings).tree(), marker_command@, lock_content@, holder_alive) {
            &&& r matches Err(message)
            &&& message@ == collision_text(lock_holder(lock_content@))
            &&& *final(settings) == *old(settings)
        } else {
            &&& r is Ok
            &&& final(settings).tree() == with_marker(old(settings).tree(), marker_command@)
        },
{
    if hooks_session_start_contains(settings, marker_command) {
        let pid: u32 = lock_pid(lock_content);
        if pid != 0 && holder_alive {
            let mut message = String::new();
            message.append(
                "Another granite-cli-managed Bob session is already tracking usage in this workspace (pid ",
            );
            message.append(decimal(pid as u64).as_str());
            message.append(").");
            proof {
                assert(message@ =~= collision_text(pid));
            }
            return Err(message);
        }
    }
    add_marker(settings, marker_command);
    Ok(())
}

/// A registration shuts out the next one: as long as the process that registered
/// lives, the settings and the lock file that it wrote tell everybody else that the
/// hook is taken. Once it is dead they no longer do.
pub proof fn law_registration_excludes(
    settings: JsonTree,
    marker: Seq<char>,
    pid: u32,
    alive: bool,
)
    requires
        pid != 0,
    ensures
        takes_marker(with_marker(settings, marker)),
        is_taken(with_marker(settings, marker), marker, decimal_text(pid as nat), alive) == alive,
        lock_holder(decimal_text(pid as nat)) == pid,
{
    law_add_changes_only_the_marker(settings, marker, marker);
    let text = decimal_text(pid as nat);
    lemma_decimal_reads_back(pid as nat);
    assert(is_digit(text[0]));
    assert(is_digit(text[text.len() - 1]));
    lemma_nothing_to_trim(text);
}

/// What a registration does next.
#[derive(Debug, Clone, Copy, PartialEq, Eq, Structural)]
pub enum RegisterStep {
    /// Write the settings with the marker in them.
    WriteSettings,
    /// Write the lock file.
    WriteLock,
    /// Take the marker out of the settings file again. A failure does not matter.
    TakeMarkerOut,
    /// Nothing: the hook is registered.
    Registered,
    /// Nothing: the registration failed.
    Failed,
}

/// A registration, from where the marker is in the settings but nothing is written yet.
#[derive(Debug, Clone, Copy, PartialEq, Eq, Structural)]
pub struct RegisterRun {
    pub step: RegisterStep,
}

impl RegisterRun {
    /// The step after this one, given whether it worked. Whatever cannot be written
    /// takes the marker out again.
    pub open spec fn next_step(self, worked: bool) -> RegisterStep {
        match self.step {
            RegisterStep::WriteSettings => if worked {
                RegisterStep::WriteLock
            } else {
                RegisterStep::TakeMarkerOut
            },
            RegisterStep::WriteLock => if worked {
                RegisterStep::Registered
            } else {
                RegisterStep::TakeMarkerOut
            },
            RegisterStep::TakeMarkerOut => RegisterStep::Failed,
            RegisterStep::Registered => RegisterStep::Registered,
            RegisterStep::Failed => RegisterStep::Failed,
        }
    }

    /// Begins to write a registration down.
    pub fn start() -> (r: RegisterRun)
        ensures
            r.step == RegisterStep::WriteSettings,
    {
        RegisterRun { step: RegisterStep::WriteSettings }
    }

    /// Goes on to the next step, given whether the last one worked.
    pub fn advance(&mut self, worked: bool)
        ensures
            final(self).step == old(self).next_step(worked),
    {
        let step = match self.step {
            RegisterStep::WriteSettings => if worked {
                RegisterStep::WriteLock
            } else {
                RegisterStep::TakeMarkerOut
            },
            RegisterStep::WriteLock => if worked {
                RegisterStep::Registered
            } else {
                RegisterStep::TakeMarkerOut
            },
            RegisterStep::TakeMarkerOut => RegisterStep::Failed,
            RegisterStep::Registered => RegisterStep::Registered,
            RegisterStep::Failed => RegisterStep::Failed,
        };
        self.step = step;
    }

    /// What the settings file holds after a step that worked, where it held `file`
    /// before and `marked` are the settings with the marker.
    pub open spec fn file_after(self, file: JsonTree, marked: JsonTree, marker: Seq<char>) -> JsonTree {
        match self.step {
            RegisterStep::WriteSettings => marked,
            RegisterStep::TakeMarkerOut => without_marker(file, marker),
            _ => file,
        }
    }
}

/// How a registration ends, and what the settings file holds then: `file` before it,
/// `torn` where writing the settings failed half way, and whether each write worked.
pub open spec fn register_end(
    file: JsonTree,
    torn: JsonTree,
    marker: Seq<char>,
    settings_written: bool,
    lock_written: bool,
    taken_out: bool,
) -> (RegisterStep, JsonTree) {
    let marked = with_marker(file, marker);
    let r0 = RegisterRun { step: RegisterStep::WriteSettings };
    let f1 = if settings_written {
        r0.file_after(file, marked, marker)
    } else {
        torn
    };
    let r1 = RegisterRun { step: r0.next_step(settings_written) };
    let worked = if r1.step == RegisterStep::WriteLock {
        lock_written
    } else {
        taken_out
    };
    let f2 = if worked {
        r1.file_after(f1, marked, marker)
    } else {
        f1
    };
    let r2 = RegisterRun { step: r1.next_step(worked) };
    let f3 = if taken_out {
        r2.file_after(f2, marked, marker)
    } else {
        f2
    };
    (
        if r2.step == RegisterStep::TakeMarkerOut {
            r2.next_step(taken_out)
        } else {
            r2.step
        },
        f3,
    )
}

/// A registration succeeds exactly when both files are written, and then the marker is
/// in the settings file. One that fails leaves no marker there, whatever the failed
/// write left behind, as long as the file can still be written.
pub proof fn law_failed_registration_leaves_no_marker(
    file: JsonTree,
    torn: JsonTree,
    marker: Seq<char>,
    settings_written: bool,
    lock_written: bool,
    taken_out: bool,
)
    ensures
        ({
            let (step, left) = register_end(
                file,
                torn,
                marker,
                settings_written,
                lock_written,
                taken_out,
            );
            &&& step == RegisterStep::Registered || step == RegisterStep::Failed
            &&& step == RegisterStep::Registered <==> settings_written && lock_written
            &&& step == RegisterStep::Registered ==> left == with_marker(file, marker)
                && has_marker(left, marker)
            &&& step == RegisterStep::Failed && taken_out ==> !has_marker(left, marker)
        }),
{
    law_add_changes_only_the_marker(file, marker, marker);
    law_remove_changes_only_the_marker(with_marker(file, marker), marker, marker);
    law_remove_changes_only_the_marker(torn, marker, marker);
}

/// The settings file after the marker is taken out of it, given its text: every copy of
/// the marker is gone, also for whoever reads the file next.
pub fn unregister(content: Option<&str>, marker_command: &str) -> (r: String)
    ensures
        ({
            let before = settings_tree(str_view(content));
            let after = without_marker(before, marker_command@);
            &&& r@ == pretty_text(after) + "\n"@
            &&& !has_marker(after, marker_command@)
            &&& !has_marker(settings_tree(Some(r@)), marker_command@)
            &&& reads_back(before, 127) ==> settings_tree(Some(r@)) == after
        }),
{
    let mut settings = read_settings(content);
    let ghost before = settings.tree();
    remove_marker(&mut settings, marker_command);
    proof {
        law_remove_changes_only_the_marker(before, marker_command@, marker_command@);
        if reads_back(before, 127) {
            law_unmarked_settings_read_back(before, marker_command@);
        }
    }
    let text = write_settings(&settings);
    proof {
        let left = settings_tree(Some(text@));
        if alike(left, settings.tree()) {
            law_doubles_do_not_matter_to_the_marker(left, settings.tree(), marker_command@);
        }
    }
    text
}

/// Removing the marker frees the hook, whatever the lock file says.
pub proof fn law_removal_frees_the_hook(
    settings: JsonTree,
    marker: Seq<char>,
    lock_content: Seq<char>,
    alive: bool,
)
    ensures
        !is_taken(without_marker(settings, marker), marker, lock_content, alive),
{
    law_remove_changes_only_the_marker(settings, marker, marker);
}

/// What an operating system answers when asked for the parent of a process: the
/// parent, that there is none, or that the lookup failed.
pub type ParentLookup = Result<Option<u32>, ()>;

/// What `ps` answers when asked for the parent of a process. 0 says that there is none.
/// A process that it does not know, or an answer that is no number, is a failed lookup.
pub open spec fn ps_lookup(success: bool, stdout: Seq<char>) -> ParentLookup {
    if !success {
        Err(())
    } else {
        match u32_value(trimmed(stdout)) {
            Some(pid) => if pid == 0 {
                Ok(None)
            } else {
                Ok(Some(pid))
            },
            None => Err(()),
        }
    }
}

/// Reads what `ps` answers when asked for the parent of a process.
pub fn parent_from_ps(success: bool, stdout: &str) -> (r: ParentLookup)
    ensures
        r == ps_lookup(success, stdout@),
{
    if !success {
        return Err(());
    }
    match parse_u32(&trim_chars(stdout)) {
        Some(pid) => if pid == 0 {
            Ok(None)
        } else {
            Ok(Some(pid))
        },
        None => Err(()),
    }
}

/// What PowerShell answers when asked for the parent of a process. An empty answer
/// says that there is none.
pub open spec fn powershell_lookup(stdout: Seq<char>) -> ParentLookup {
    let answer = trimmed(stdout);
    if answer.len() == 0 {
        Ok(None)
    } else {
        match u32_value(answer) {
            Some(pid) => Ok(Some(pid)),
            None => Err(()),
        }
    }
}

/// Reads what PowerShell answers when asked for the parent of a process.
pub fn parent_from_powershell(stdout: &str) -> (r: ParentLookup)
    ensures
        r == powershell_lookup(stdout@),
{
    let answer = trim_chars(stdout);
    if answer.len() == 0 {
        return Ok(None);
    }
    match parse_u32(&answer) {
        Some(pid) => Ok(Some(pid)),
        None => Err(()),
    }
}

/// Tells whether the answer of `tasklist` lists a process.
pub fn tasklist_has(stdout: &str, pid: u32) -> (r: bool)
    ensures
        r == has_part(stdout@, decimal_text(pid as nat)),
{
    contains_text(stdout, decimal(pid as u64).as_str())
}

/// A walk up the ancestry of a process in search of another one.
#[derive(Debug, Clone, Copy)]
pub struct AncestryWalk {
    /// The process that is searched for.
    pub expected_pid: u32,
    /// The process that the walk has come to.
    pub pid: u32,
    /// The number of lookups that are left.
    pub depth_left: usize,
    /// What the walk found, once it is over: the process is an ancestor, it is
    /// not, or that cannot be told.
    pub outcome: Option<Option<bool>>,
}

/// Begins a walk from a process. The process itself counts as found.
pub fn start_walk(own_pid: u32, expected_pid: u32, max_depth: usize) -> (walk: AncestryWalk)
    ensures
        walk == started_walk(own_pid, expected_pid, max_depth),
{
    let outcome = if own_pid == expected_pid {
        Some(Some(true))
    } else if max_depth == 0 {
        Some(Some(false))
    } else {
        None
    };
    AncestryWalk { expected_pid, pid: own_pid, depth_left: max_depth, outcome }
}

/// The walk at its beginning.
pub open spec fn started_walk(own_pid: u32, expected_pid: u32, max_depth: usize) -> AncestryWalk {
    AncestryWalk {
        expected_pid,
        pid: own_pid,
        depth_left: max_depth,
        outcome: if own_pid == expected_pid {
            Some(Some(true))
        } else if max_depth == 0 {
            Some(Some(false))
        } else {
            None
        },
    }
}

impl AncestryWalk {
    /// The walk after the parent of the process that it has come to was looked up.
    pub open spec fn advanced(self, lookup: ParentLookup) -> AncestryWalk {
        match lookup {
            Ok(Some(parent)) if parent != 0 => AncestryWalk {
                pid: parent,
                depth_left: (self.depth_left - 1) as usize,
                outcome: if parent == self.expected_pid {
                    Some(Some(true))
                } else if self.depth_left == 1 {
                    Some(Some(false))
                } else {
                    None
                },
                ..self
            },
            Ok(_) => AncestryWalk { outcome: Some(Some(false)), ..self },
            Err(()) => AncestryWalk { outcome: Some(None), ..self },
        }
    }

    /// What the walk finds where `parents` answers the lookups.
    pub open spec fn finds(self, parents: spec_fn(u32) -> ParentLookup) -> Option<bool>
        decreases self.depth_left,
    {
        match self.outcome {
            Some(outcome) => outcome,
            None => if self.depth_left == 0 {
                Some(false)
            } else {
                let next = self.advanced(parents(self.pid));
                match next.outcome {
                    Some(outcome) => outcome,
                    None => next.finds(parents),
                }
            },
        }
    }

    /// Takes one step: `lookup` is the parent of the process that the walk has
    /// come to.
    pub fn advance(&mut self, lookup: ParentLookup)
        requires
            old(self).outcome is None,
            old(self).depth_left > 0,
        ensures
            *final(self) == old(self).advanced(lookup),
    {
        match lookup {
            Ok(Some(parent)) => {
                if parent == 0 {
                    self.outcome = Some(Some(false));
                } else {
                    self.pid = parent;
                    self.outcome = if parent == self.expected_pid {
                        Some(Some(true))
                    } else if self.depth_left == 1 {
                        Some(Some(false))
                    } else {
                        None
                    };
                    self.depth_left -= 1;
                }
            },
            Ok(None) => {
                self.outcome = Some(Some(false));
            },
            Err(_) => {
                self.outcome = Some(None);
            },
        }
    }
}

/// The `n`-th ancestor of a process where `parents` answers the lookups; the
/// process itself is the first in the line.
pub open spec fn ancestor(parents: spec_fn(u32) -> ParentLookup, pid: u32, n: nat) -> Option<u32>
    decreases n,
{
    if n == 0 {
        Some(pid)
    } else {
        match parents(pid) {
            Ok(Some(parent)) if parent != 0 => ancestor(parents, parent, (n - 1) as nat),
            _ => None,
        }
    }
}

/// A walk says yes exactly when the process that is searched for is the process
/// itself or one of its ancestors within reach. It cannot tell exactly when it
/// says neither and a lookup on the way fails.
pub proof fn law_walk_finds_ancestors(
    parents: spec_fn(u32) -> ParentLookup,
    own_pid: u32,
    expected_pid: u32,
    max_depth: usize,
)
    ensures
        ({
            let found = started_walk(own_pid, expected_pid, max_depth).finds(parents);
            let reached = exists|n: nat|
                n <= max_depth && #[trigger] ancestor(parents, own_pid, n) == Some(expected_pid);
            let failed = exists|n: nat|
                n < max_depth && (#[trigger] ancestor(parents, own_pid, n) matches Some(pid)
                    && parents(pid) is Err);
            &&& found == Some(true) <==> reached
            &&& found is None <==> !reached && failed
        }),
    decreases max_depth,
{
    let walk = started_walk(own_pid, expected_pid, max_depth);
    let found = walk.finds(parents);
    if own_pid == expected_pid {
        assert(ancestor(parents, own_pid, 0) == Some(expected_pid));
    } else if max_depth == 0 {
        assert(ancestor(parents, own_pid, 0) == Some(own_pid));
    } else {
        let up = (max_depth - 1) as usize;
        match parents(own_pid) {
            Ok(Some(parent)) if parent != 0 => {
                law_walk_finds_ancestors(parents, parent, expected_pid, up);
                let rest = started_walk(parent, expected_pid, up);
                assert(walk.advanced(parents(own_pid)) == rest);
                assert(found == rest.finds(parents));
                assert forall|n: nat| #[trigger] ancestor(parents, own_pid, n) == (if n == 0 {
                    Some(own_pid)
                } else {
                    ancestor(parents, parent, (n - 1) as nat)
                }) by {}
                assert forall|n: nat| #[trigger] ancestor(parents, parent, n) == ancestor(
                    parents,
                    own_pid,
                    n + 1,
                ) by {}
                if exists|n: nat|
                    n <= max_depth && #[trigger] ancestor(parents, own_pid, n) == Some(
                        expected_pid,
                    ) {
                    let n = choose|n: nat|
                        n <= max_depth && #[trigger] ancestor(parents, own_pid, n) == Some(
                            expected_pid,
                        );
                    assert(ancestor(parents, parent, (n - 1) as nat) == Some(expected_pid));
                }
                if exists|n: nat|
                    n <= up && #[trigger] ancestor(parents, parent, n) == Some(expected_pid) {
                    let n = choose|n: nat|
                        n <= up && #[trigger] ancestor(parents, parent, n) == Some(expected_pid);
                    assert(ancestor(parents, own_pid, n + 1) == Some(expected_pid));
                }
                if exists|n: nat|
                    n < max_depth && (#[trigger] ancestor(parents, own_pid, n) matches Some(pid)
                        && parents(pid) is Err) {
                    let n = choose|n: nat|
                        n < max_depth && (#[trigger] ancestor(parents, own_pid, n) matches Some(pid)
                            && parents(pid) is Err);
                    assert(n > 0);
                    assert(ancestor(parents, parent, (n - 1) as nat) matches Some(pid) && parents(
                        pid,
                    ) is Err);
                }
                if exists|n: nat|
                    n < up && (#[trigger] ancestor(parents, parent, n) matches Some(pid)
                        && parents(pid) is Err) {
                    let n = choose|n: nat|
                        n < up && (#[trigger] ancestor(parents, parent, n) matches Some(pid)
                            && parents(pid) is Err);
                    assert(ancestor(parents, own_pid, n + 1) matches Some(pid) && parents(
                        pid,
                    ) is Err);
                }
            },
            _ => {
                assert(forall|n: nat| n > 0 ==> #[trigger] ancestor(parents, own_pid, n) is None);
                if parents(own_pid) is Err {
                    assert(ancestor(parents, own_pid, 0) == Some(own_pid));
                    assert(found is None);
                } else {
                    assert(found == Some(false));
                }
            },
        }
    }
}

} // verus!
