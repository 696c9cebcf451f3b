//! The marker in the settings file of a workspace.

use vstd::prelude::*;
use vstd::string::*;
use crate::json::{
    alike, fields_tree, items_tree, lemma_array, lemma_object, parsed_tree, pretty_text, put_field,
    reads_back, take_field, Json, JsonTree, NumberTree,
};
use crate::name_map::NameMap;
use crate::text::{lemma_not_blank, same_text, trim_chars, trimmed};

verus! {

/// The settings that the text of a settings file stands for: the empty object
/// where there is no file, it is blank, or it is not JSON.
pub open spec fn settings_tree(content: Option<Seq<char>>) -> JsonTree {
    match content {
        Some(text) => if trimmed(text).len() == 0 {
            JsonTree::Object(Map::empty())
        } else {
            match parsed_tree(text) {
                Some(tree) => tree,
                None => JsonTree::Object(Map::empty()),
            }
        },
        None => JsonTree::Object(Map::empty()),
    }
}

/// Reads the settings from the text of the settings file, if there is one.
pub fn read_settings(content: Option<&str>) -> (r: Json)
    ensures
        r.tree() == settings_tree(
            match content {
                Some(text) => Some(text@),
                None => None,
            },
        ),
{
    match content {
        Some(text) => if trim_chars(text).len() == 0 {
            Json::empty_object()
        } else {
            match Json::parse(text) {
                Some(value) => value,
                None => Json::empty_object(),
            }
        },
        None => Json::empty_object(),
    }
}

/// The text to write to the settings file: indented JSON and a line end. Reading it
/// gives the settings back, but for the digits of doubles, where it can be read.
pub fn write_settings(value: &Json) -> (r: String)
    ensures
        r@ == pretty_text(value.tree()) + "\n"@,
        reads_back(value.tree(), 127) ==> settings_tree(Some(r@)) == value.tree(),
        alike(settings_tree(Some(r@)), value.tree()) || parsed_tree(r@) is None,
{
    let mut text = value.pretty();
    let ghost start = text@;
    text.append("\n");
    proof {
        assert(text@[0] == start[0]);
        lemma_not_blank(text@);
    }
    text
}

/// The groups of `SessionStart` hooks in the settings, where there is a list of them.
pub open spec fn session_groups(settings: JsonTree) -> Option<Seq<JsonTree>> {
    match settings.field("hooks"@) {
        Some(hooks) => match hooks.field("SessionStart"@) {
            Some(JsonTree::Array(groups)) => Some(groups),
            _ => None,
        },
        None => None,
    }
}

/// The hooks of a group, where it has a list of them.
pub open spec fn group_hooks(group: JsonTree) -> Option<Seq<JsonTree>> {
    match group.field("hooks"@) {
        Some(JsonTree::Array(hooks)) => Some(hooks),
        _ => None,
    }
}

/// Tells whether a hook runs exactly the given command.
pub open spec fn runs(hook: JsonTree, command: Seq<char>) -> bool {
    hook.text_field("command"@) == Some(command)
}

/// Tells whether a list of hooks has one that runs exactly the given command.
pub open spec fn some_hook_runs(hooks: Seq<JsonTree>, command: Seq<char>) -> bool {
    exists|i: int| 0 <= i < hooks.len() && runs(#[trigger] hooks[i], command)
}

/// Tells whether a group has a hook that runs exactly the given command.
pub open spec fn group_has(group: JsonTree, command: Seq<char>) -> bool {
    group_hooks(group) matches Some(hooks) && some_hook_runs(hooks, command)
}

/// Tells whether any `SessionStart` hook runs exactly the given command.
pub open spec fn has_marker(settings: JsonTree, marker: Seq<char>) -> bool {
    session_groups(settings) matches Some(groups) && some_group_has(groups, marker)
}

/// Tells whether a list of groups has one with a hook that runs exactly the
/// given command.
pub open spec fn some_group_has(groups: Seq<JsonTree>, command: Seq<char>) -> bool {
    exists|i: int| 0 <= i < groups.len() && group_has(#[trigger] groups[i], command)
}

/// Tells whether any `SessionStart` hook of the settings runs exactly the marker
/// command. Settings of any other shape hold no hook.
pub fn hooks_session_start_contains(settings: &Json, marker_command: &str) -> (r: bool)
    ensures
        r == has_marker(settings.tree(), marker_command@),
{
    let hooks = match settings.get("hooks") {
        Some(h) => h,
        None => { return false; },
    };
    let groups = match hooks.get("SessionStart") {
        Some(Json::Array(groups)) => groups,
        _ => { return false; },
    };
    let mut i: usize = 0;
    while i < groups.len()
        invariant
            i <= groups@.len(),
            session_groups(settings.tree()) == Some(items_tree(groups@)),
            forall|j: int| 0 <= j < i ==> !group_has(#[trigger] items_tree(groups@)[j], marker_command@),
        decreases groups@.len() - i,
    {
        if group_contains(&groups[i], marker_command) {
            proof {
                let all = session_groups(settings.tree())->0;
                assert(all[i as int] == groups@[i as int].tree());
                assert(group_has(all[i as int], marker_command@));
            }
            return true;
        }
        i += 1;
    }
    false
}

/// Tells whether a group has a hook that runs exactly the given command.
fn group_contains(group: &Json, command: &str) -> (r: bool)
    ensures
        r == group_has(group.tree(), command@),
{
    match group.get("hooks") {
        Some(Json::Array(hooks)) => {
            let mut i: usize = 0;
            while i < hooks.len()
                invariant
                    i <= hooks@.len(),
                    group_hooks(group.tree()) == Some(items_tree(hooks@)),
                    forall|j: int| 0 <= j < i ==> !runs(#[trigger] items_tree(hooks@)[j], command@),
                decreases hooks@.len() - i,
            {
                if hook_runs(&hooks[i], command) {
                    proof {
                        assert(runs(items_tree(hooks@)[i as int], command@));
                    }
                    return true;
                }
                i += 1;
            }
            false
        },
        _ => false,
    }
}

/// Tells whether a hook runs exactly the given command.
fn hook_runs(hook: &Json, command: &str) -> (r: bool)
    ensures
        r == runs(hook.tree(), command@),
{
    match hook.text_field("command") {
        Some(c) => same_text(c, command),
        None => false,
    }
}

/// The group that holds the marker as its only hook.
pub open spec fn marker_group(marker: Seq<char>) -> JsonTree {
    JsonTree::Object(
        Map::empty().insert(
            "hooks"@,
            JsonTree::Array(
                seq![
                    JsonTree::Object(
                        Map::empty().insert("type"@, JsonTree::Str("command"@)).insert(
                            "command"@,
                            JsonTree::Str(marker),
                        ).insert("timeout"@, JsonTree::Number(NumberTree::Integer(5))),
                    ),
                ],
            ),
        ),
    )
}

/// Tells whether the settings have room for a `SessionStart` group: where they
/// are an object, `hooks` is absent or an object, and `SessionStart` in it is
/// absent or a list.
pub open spec fn takes_marker(settings: JsonTree) -> bool {
    match settings.field("hooks"@) {
        None => true,
        Some(JsonTree::Object(hooks)) => hooks.contains_key("SessionStart"@)
            ==> hooks["SessionStart"@] is Array,
        Some(_) => false,
    }
}

/// The fields of an object; none for anything else.
pub open spec fn fields_or_none(tree: JsonTree) -> Map<Seq<char>, JsonTree> {
    match tree {
        JsonTree::Object(fields) => fields,
        _ => Map::empty(),
    }
}

/// The settings with the marker's group as the last `SessionStart` group.
/// Settings that are no object count as empty.
pub open spec fn with_marker(settings: JsonTree, marker: Seq<char>) -> JsonTree {
    let fields = fields_or_none(settings);
    let hooks = match settings.field("hooks"@) {
        Some(hooks) => fields_or_none(hooks),
        None => Map::empty(),
    };
    let groups = match session_groups(settings) {
        Some(groups) => groups,
        None => Seq::empty(),
    };
    JsonTree::Object(
        fields.insert(
            "hooks"@,
            JsonTree::Object(
                hooks.insert("SessionStart"@, JsonTree::Array(groups.push(marker_group(marker)))),
            ),
        ),
    )
}

/// Tells whether the settings have room for a `SessionStart` group.
pub fn accepts_marker(settings: &Json) -> (r: bool)
    ensures
        r == takes_marker(settings.tree()),
{
    match settings.get("hooks") {
        None => true,
        Some(hooks) => if hooks.is_object() {
            match hooks.get("SessionStart") {
                None => true,
                Some(Json::Array(_)) => true,
                Some(_) => false,
            }
        } else {
            false
        },
    }
}

/// The group that holds the marker as its only hook.
fn new_group(marker_command: &str) -> (r: Json)
    ensures
        r.tree() == marker_group(marker_command@),
{
    let mut hook: NameMap<Json> = NameMap::new();
    proof {
        assert(fields_tree(hook) =~= Map::<Seq<char>, JsonTree>::empty());
    }
    put_field(&mut hook, "type", Json::text("command"));
    put_field(&mut hook, "command", Json::text(marker_command));
    put_field(&mut hook, "timeout", Json::unsigned(5));
    let mut hooks: Vec<Json> = Vec::new();
    proof {
        lemma_object(hook);
    }
    hooks.push(Json::Object(hook));
    let mut group: NameMap<Json> = NameMap::new();
    proof {
        assert(fields_tree(group) =~= Map::<Seq<char>, JsonTree>::empty());
        lemma_array(hooks);
        assert(items_tree(hooks@) =~= marker_group(marker_command@).field("hooks"@)->0->Array_0);
    }
    put_field(&mut group, "hooks", Json::Array(hooks));
    proof {
        lemma_object(group);
    }
    Json::Object(group)
}

/// Adds a `SessionStart` group with the marker as its only hook, and makes the
/// places that are missing on the way to it.
pub fn add_marker(settings: &mut Json, marker_command: &str)
    requires
        takes_marker(old(settings).tree()),
    ensures
        final(settings).tree() == with_marker(old(settings).tree(), marker_command@),
{
    let mut taken = Json::Null;
    std::mem::swap(&mut taken, settings);
    let ghost before = taken.tree();
    let mut fields: NameMap<Json> = match taken {
        Json::Object(fields) => {
            proof {
                lemma_object(fields);
            }
            fields
        },
        _ => NameMap::new(),
    };
    proof {
        assert(fields_tree(fields) =~= fields_or_none(before));
    }
    let mut hooks: NameMap<Json> = match take_field(&mut fields, "hooks") {
        Some(Json::Object(hooks)) => {
            proof {
                lemma_object(hooks);
            }
            hooks
        },
        _ => NameMap::new(),
    };
    proof {
        assert(fields_tree(hooks) =~= match before.field("hooks"@) {
            Some(hooks) => fields_or_none(hooks),
            None => Map::empty(),
        });
    }
    let mut groups: Vec<Json> = match take_field(&mut hooks, "SessionStart") {
        Some(Json::Array(groups)) => {
            proof {
                lemma_array(groups);
            }
            groups
        },
        _ => Vec::new(),
    };
    let ghost groups_before = items_tree(groups@);
    proof {
        assert(groups_before =~= match session_groups(before) {
            Some(groups) => groups,
            None => Seq::empty(),
        });
    }
    groups.push(new_group(marker_command));
    proof {
        assert(items_tree(groups@) =~= groups_before.push(marker_group(marker_command@)));
        lemma_array(groups);
    }
    put_field(&mut hooks, "SessionStart", Json::Array(groups));
    proof {
        lemma_object(hooks);
    }
    put_field(&mut fields, "hooks", Json::Object(hooks));
    proof {
        lemma_object(fields);
    }
    *settings = Json::Object(fields);
    proof {
        let target = with_marker(before, marker_command@);
        assert(fields_tree(hooks) =~= fields_or_none(target.field("hooks"@)->0));
        assert(fields_tree(fields) =~= target->Object_0);
    }
}

/// The hooks that do not run the given command, in their order.
pub open spec fn other_hooks(hooks: Seq<JsonTree>, command: Seq<char>) -> Seq<JsonTree>
    decreases hooks.len(),
{
    if hooks.len() == 0 {
        Seq::empty()
    } else if runs(hooks.last(), command) {
        other_hooks(hooks.drop_last(), command)
    } else {
        other_hooks(hooks.drop_last(), command).push(hooks.last())
    }
}

/// What is left of a group without the hooks that run the given command:
/// nothing where those were all it had, the group itself where it had none.
pub open spec fn pruned_group(group: JsonTree, command: Seq<char>) -> Option<JsonTree> {
    if !group_has(group, command) {
        Some(group)
    } else {
        let rest = other_hooks(group_hooks(group)->0, command);
        if rest.len() == 0 {
            None
        } else {
            Some(JsonTree::Object(group->Object_0.insert("hooks"@, JsonTree::Array(rest))))
        }
    }
}

/// What is left of the groups without the hooks that run the given command.
pub open spec fn pruned_groups(groups: Seq<JsonTree>, command: Seq<char>) -> Seq<JsonTree>
    decreases groups.len(),
{
    if groups.len() == 0 {
        Seq::empty()
    } else {
        match pruned_group(groups.last(), command) {
            Some(group) => pruned_groups(groups.drop_last(), command).push(group),
            None => pruned_groups(groups.drop_last(), command),
        }
    }
}

/// The settings without the hooks that run the marker. A group that loses all
/// its hooks goes too, and so does `SessionStart` when it loses all its groups.
/// Nothing else changes.
pub open spec fn without_marker(settings: JsonTree, marker: Seq<char>) -> JsonTree {
    if !has_marker(settings, marker) {
        settings
    } else {
        let fields = settings->Object_0;
        let hooks = fields["hooks"@]->Object_0;
        let groups = pruned_groups(hooks["SessionStart"@]->Array_0, marker);
        let hooks_left = if groups.len() == 0 {
            hooks.remove("SessionStart"@)
        } else {
            hooks.insert("SessionStart"@, JsonTree::Array(groups))
        };
        JsonTree::Object(fields.insert("hooks"@, JsonTree::Object(hooks_left)))
    }
}

/// Drops the hooks that run the given command.
fn drop_hooks(hooks: Vec<Json>, command: &str) -> (r: Vec<Json>)
    ensures
        items_tree(r@) == other_hooks(items_tree(hooks@), command@),
{
    let mut hooks = hooks;
    let ghost all = items_tree(hooks@);
    let ghost mut done: int = 0;
    let mut rest: Vec<Json> = Vec::new();
    proof {
        assert(all.take(0) =~= Seq::<JsonTree>::empty());
        assert(items_tree(rest@) =~= Seq::<JsonTree>::empty());
    }
    while hooks.len() > 0
        invariant
            0 <= done <= all.len(),
            items_tree(hooks@) == all.skip(done),
            hooks@.len() == all.len() - done,
            items_tree(rest@) == other_hooks(all.take(done), command@),
        decreases hooks@.len(),
    {
        let ghost left = items_tree(hooks@);
        let ghost kept = items_tree(rest@);
        let hook = hooks.remove(0);
        proof {
            assert(left[0] == hook.tree());
            assert(all.skip(done)[0] == all[done]);
            assert(items_tree(hooks@) =~= left.drop_first());
            assert(left.drop_first() =~= all.skip(done + 1));
            assert(all.take(done + 1).drop_last() =~= all.take(done));
            assert(all.take(done + 1).last() == hook.tree());
        }
        if !hook_runs(&hook, command) {
            rest.push(hook);
            proof {
                assert(items_tree(rest@) =~= kept.push(hook.tree()));
            }
        }
        proof {
            done = done + 1;
        }
    }
    proof {
        assert(all.take(done) =~= all);
    }
    rest
}

/// Drops the hooks of a group that run the given command, and the group with
/// them where it had no others.
fn prune_group(group: Json, command: &str) -> (r: Option<Json>)
    ensures
        match r {
            Some(left) => pruned_group(group.tree(), command@) == Some(left.tree()),
            None => pruned_group(group.tree(), command@) is None,
        },
{
    if !group_contains(&group, command) {
        return Some(group);
    }
    match group {
        Json::Object(fields) => {
            let mut fields = fields;
            let ghost before = fields_tree(fields);
            proof {
                lemma_object(fields);
            }
            match take_field(&mut fields, "hooks") {
                Some(Json::Array(hooks)) => {
                    proof {
                        lemma_array(hooks);
                    }
                    let rest = drop_hooks(hooks, command);
                    if rest.len() == 0 {
                        None
                    } else {
                        proof {
                            lemma_array(rest);
                        }
                        put_field(&mut fields, "hooks", Json::Array(rest));
                        proof {
                            lemma_object(fields);
                            assert(fields_tree(fields) =~= before.insert(
                                "hooks"@,
                                JsonTree::Array(items_tree(rest@)),
                            ));
                        }
                        Some(Json::Object(fields))
                    }
                },
                _ => None,
            }
        },
        _ => None,
    }
}

/// Prunes every group.
fn prune_groups(groups: Vec<Json>, command: &str) -> (r: Vec<Json>)
    ensures
        items_tree(r@) == pruned_groups(items_tree(groups@), command@),
{
    let mut groups = groups;
    let ghost all = items_tree(groups@);
    let ghost mut done: int = 0;
    let mut rest: Vec<Json> = Vec::new();
    proof {
        assert(all.take(0) =~= Seq::<JsonTree>::empty());
        assert(items_tree(rest@) =~= Seq::<JsonTree>::empty());
    }
    while groups.len() > 0
        invariant
            0 <= done <= all.len(),
            items_tree(groups@) == all.skip(done),
            groups@.len() == all.len() - done,
            items_tree(rest@) == pruned_groups(all.take(done), command@),
        decreases groups@.len(),
    {
        let ghost left = items_tree(groups@);
        let ghost kept = items_tree(rest@);
        let group = groups.remove(0);
        proof {
            assert(left[0] == group.tree());
            assert(all.skip(done)[0] == all[done]);
            assert(items_tree(groups@) =~= left.drop_first());
            assert(left.drop_first() =~= all.skip(done + 1));
            assert(all.take(done + 1).drop_last() =~= all.take(done));
            assert(all.take(done + 1).last() == group.tree());
        }
        match prune_group(group, command) {
            Some(g) => {
                rest.push(g);
                proof {
                    assert(items_tree(rest@) =~= kept.push(g.tree()));
                }
            },
            None => {},
        }
        proof {
            done = done + 1;
        }
    }
    proof {
        assert(all.take(done) =~= all);
    }
    rest
}

/// Removes every `SessionStart` hook that runs the marker. A group that loses
/// all its hooks goes too, and so does `SessionStart` when it loses all its
/// groups. Everything else stays as it is.
pub fn remove_marker(settings: &mut Json, marker_command: &str)
    ensures
        final(settings).tree() == without_marker(old(settings).tree(), marker_command@),
{
    if !hooks_session_start_contains(settings, marker_command) {
        return;
    }
    let mut taken = Json::Null;
    std::mem::swap(&mut taken, settings);
    let ghost before = taken.tree();
    if let Json::Object(fields) = taken {
        let mut fields = fields;
        proof {
            lemma_object(fields);
        }
        if let Some(Json::Object(hooks)) = take_field(&mut fields, "hooks") {
            let mut hooks = hooks;
            proof {
                lemma_object(hooks);
            }
            if let Some(Json::Array(groups)) = take_field(&mut hooks, "SessionStart") {
                proof {
                    lemma_array(groups);
                }
                let rest = prune_groups(groups, marker_command);
                if rest.len() > 0 {
                    proof {
                        lemma_array(rest);
                    }
                    put_field(&mut hooks, "SessionStart", Json::Array(rest));
                }
                proof {
                    lemma_object(hooks);
                }
                put_field(&mut fields, "hooks", Json::Object(hooks));
                proof {
                    lemma_object(fields);
                    let target = without_marker(before, marker_command@);
                    assert(items_tree(rest@) == pruned_groups(
                        before->Object_0["hooks"@]->Object_0["SessionStart"@]->Array_0,
                        marker_command@,
                    ));
                    assert(fields_tree(hooks) =~= target->Object_0["hooks"@]->Object_0);
                    assert(fields_tree(fields) =~= target->Object_0);
                }
                *settings = Json::Object(fields);
            }
        }
    }
}

proof fn lemma_push_hook(hooks: Seq<JsonTree>, hook: JsonTree, command: Seq<char>)
    ensures
        some_hook_runs(hooks.push(hook), command) == (some_hook_runs(hooks, command) || runs(
            hook,
            command,
        )),
{
    let more = hooks.push(hook);
    if some_hook_runs(hooks, command) {
        let i = choose|i: int| 0 <= i < hooks.len() && runs(#[trigger] hooks[i], command);
        assert(runs(more[i], command));
    }
    if runs(hook, command) {
        assert(runs(more[hooks.len() as int], command));
    }
    if some_hook_runs(more, command) {
        let i = choose|i: int| 0 <= i < more.len() && runs(#[trigger] more[i], command);
        if i < hooks.len() {
            assert(runs(hooks[i], command));
        }
    }
}

proof fn lemma_push_group(groups: Seq<JsonTree>, group: JsonTree, command: Seq<char>)
    ensures
        some_group_has(groups.push(group), command) == (some_group_has(groups, command)
            || group_has(group, command)),
{
    let more = groups.push(group);
    if some_group_has(groups, command) {
        let i = choose|i: int| 0 <= i < groups.len() && group_has(#[trigger] groups[i], command);
        assert(group_has(more[i], command));
    }
    if group_has(group, command) {
        assert(group_has(more[groups.len() as int], command));
    }
    if some_group_has(more, command) {
        let i = choose|i: int| 0 <= i < more.len() && group_has(#[trigger] more[i], command);
        if i < groups.len() {
            assert(group_has(groups[i], command));
        }
    }
}

proof fn lemma_other_hooks(hooks: Seq<JsonTree>, marker: Seq<char>, command: Seq<char>)
    ensures
        some_hook_runs(other_hooks(hooks, marker), command) == (command != marker
            && some_hook_runs(hooks, command)),
    decreases hooks.len(),
{
    if hooks.len() > 0 {
        let front = hooks.drop_last();
        lemma_other_hooks(front, marker, command);
        assert(hooks =~= front.push(hooks.last()));
        lemma_push_hook(front, hooks.last(), command);
        lemma_push_hook(other_hooks(front, marker), hooks.last(), command);
    }
}

proof fn lemma_pruned_group(group: JsonTree, marker: Seq<char>, command: Seq<char>)
    ensures
        match pruned_group(group, marker) {
            Some(left) => group_has(left, command) == (command != marker && group_has(
                group,
                command,
            )),
            None => command != marker ==> !group_has(group, command),
        },
{
    if group_has(group, marker) {
        let hooks = group_hooks(group)->0;
        lemma_other_hooks(hooks, marker, command);
        let rest = other_hooks(hooks, marker);
        if rest.len() > 0 {
            let left = pruned_group(group, marker)->0;
            assert(group_hooks(left) == Some(rest));
        }
    }
}

proof fn lemma_pruned_groups(groups: Seq<JsonTree>, marker: Seq<char>, command: Seq<char>)
    ensures
        some_group_has(pruned_groups(groups, marker), command) == (command != marker
            && some_group_has(groups, command)),
    decreases groups.len(),
{
    if groups.len() > 0 {
        let front = groups.drop_last();
        lemma_pruned_groups(front, marker, command);
        lemma_pruned_group(groups.last(), marker, command);
        assert(groups =~= front.push(groups.last()));
        lemma_push_group(front, groups.last(), command);
        match pruned_group(groups.last(), marker) {
            Some(left) => lemma_push_group(pruned_groups(front, marker), left, command),
            None => {},
        }
    }
}

proof fn lemma_names()
    ensures
        "hooks"@ != "SessionStart"@,
        "type"@ != "command"@,
        "timeout"@ != "command"@,
{
    reveal_strlit("hooks");
    reveal_strlit("SessionStart");
    reveal_strlit("type");
    reveal_strlit("command");
    reveal_strlit("timeout");
    assert("hooks"@.len() != "SessionStart"@.len());
    assert("type"@.len() != "command"@.len());
    assert("timeout"@[0] != "command"@[0]);
}

proof fn lemma_marker_group(marker: Seq<char>, command: Seq<char>)
    ensures
        group_has(marker_group(marker), command) == (command == marker),
        group_hooks(marker_group(marker)) is Some,
        group_hooks(marker_group(marker))->0.len() == 1,
{
    lemma_names();
    let hooks = group_hooks(marker_group(marker))->0;
    assert(hooks[0].text_field("command"@) == Some(marker));
    if command == marker {
        assert(runs(hooks[0], command));
    }
}

/// After the marker is added the settings hold it, and they hold every other
/// command exactly when they did before.
pub proof fn law_add_changes_only_the_marker(
    settings: JsonTree,
    marker: Seq<char>,
    command: Seq<char>,
)
    ensures
        has_marker(with_marker(settings, marker), command) == (command == marker || has_marker(
            settings,
            command,
        )),
{
    let groups = match session_groups(settings) {
        Some(groups) => groups,
        None => Seq::empty(),
    };
    assert(session_groups(with_marker(settings, marker)) == Some(
        groups.push(marker_group(marker)),
    ));
    lemma_marker_group(marker, command);
    lemma_push_group(groups, marker_group(marker), command);
}

/// After the marker is removed the settings no longer hold it, and they hold
/// every other command exactly when they did before.
pub proof fn law_remove_changes_only_the_marker(
    settings: JsonTree,
    marker: Seq<char>,
    command: Seq<char>,
)
    ensures
        has_marker(without_marker(settings, marker), command) == (command != marker && has_marker(
            settings,
            command,
        )),
{
    if has_marker(settings, marker) {
        let groups = session_groups(settings)->0;
        lemma_pruned_groups(groups, marker, command);
        let left = pruned_groups(groups, marker);
        if left.len() > 0 {
            assert(session_groups(without_marker(settings, marker)) == Some(left));
        } else {
            assert(!some_group_has(left, command));
            assert(session_groups(without_marker(settings, marker)) is None);
        }
    }
}

/// Adding and removing the marker leave every setting outside `hooks`, and
/// every kind of hook but `SessionStart`, as they were.
pub proof fn law_other_settings_stay(settings: JsonTree, marker: Seq<char>, name: Seq<char>)
    ensures
        name != "hooks"@ ==> with_marker(settings, marker).field(name) == settings.field(name),
        name != "hooks"@ ==> without_marker(settings, marker).field(name) == settings.field(name),
        name != "SessionStart"@ && settings.field("hooks"@) is Some ==> {
            &&& with_marker(settings, marker).field("hooks"@) matches Some(hooks)
            &&& hooks.field(name) == settings.field("hooks"@)->0.field(name)
        },
        name != "SessionStart"@ && settings.field("hooks"@) is Some ==> {
            &&& without_marker(settings, marker).field("hooks"@) matches Some(hooks)
            &&& hooks.field(name) == settings.field("hooks"@)->0.field(name)
        },
{
}

proof fn lemma_groups_without_marker_stay(groups: Seq<JsonTree>, marker: Seq<char>)
    requires
        !some_group_has(groups, marker),
    ensures
        pruned_groups(groups, marker) == groups,
    decreases groups.len(),
{
    if groups.len() > 0 {
        let front = groups.drop_last();
        assert(groups =~= front.push(groups.last()));
        lemma_push_group(front, groups.last(), marker);
        lemma_groups_without_marker_stay(front, marker);
    }
}

/// Removing the marker undoes adding it, on settings that do not hold it yet
/// and have an object for the hooks whose `SessionStart` is absent or a list
/// with something in it. (Places that adding had to make, or a list that was
/// empty before, are not told apart from what removing leaves behind.)
pub proof fn law_remove_undoes_add(settings: JsonTree, marker: Seq<char>)
    requires
        takes_marker(settings),
        !has_marker(settings, marker),
        settings.field("hooks"@) is Some,
        session_groups(settings) matches Some(groups) ==> groups.len() > 0,
    ensures
        without_marker(with_marker(settings, marker), marker) == settings,
{
    let added = with_marker(settings, marker);
    law_add_changes_only_the_marker(settings, marker, marker);
    lemma_marker_group(marker, marker);
    let groups = match session_groups(settings) {
        Some(groups) => groups,
        None => Seq::empty(),
    };
    let more = groups.push(marker_group(marker));
    assert(session_groups(added) == Some(more));
    assert(!some_group_has(groups, marker));
    lemma_groups_without_marker_stay(groups, marker);
    let hooks = group_hooks(marker_group(marker))->0;
    assert(hooks =~= seq![hooks[0]]);
    assert(hooks.drop_last() =~= Seq::<JsonTree>::empty());
    assert(runs(hooks[0], marker));
    assert(other_hooks(hooks, marker) =~= Seq::<JsonTree>::empty()) by {
        assert(other_hooks(hooks.drop_last(), marker) =~= Seq::<JsonTree>::empty());
    }
    assert(more.drop_last() =~= groups);
    assert(pruned_groups(more, marker) =~= groups);
    let fields = settings->Object_0;
    let result = without_marker(added, marker);
    assert(result->Object_0["hooks"@]->Object_0 =~= fields["hooks"@]->Object_0);
    assert(result->Object_0 =~= fields);
}

/// Settings that read back from their text still do with the marker in them, so
/// that whoever reads the settings file next finds it.
pub proof fn law_marked_settings_read_back(settings: JsonTree, marker: Seq<char>)
    requires
        takes_marker(settings),
        reads_back(settings, 127),
    ensures
        reads_back(with_marker(settings, marker), 127),
{
    let group = marker_group(marker);
    let hooks = group_hooks(group)->0;
    let fields = hooks[0]->Object_0;
    assert(reads_back(hooks[0], 121)) by {
        assert forall|name: Seq<char>| #[trigger] fields.contains_key(name) implies reads_back(
            fields[name],
            120,
        ) by {}
    }
    assert(reads_back(JsonTree::Array(hooks), 122)) by {
        assert forall|i: int| 0 <= i < hooks.len() implies reads_back(#[trigger] hooks[i], 121) by {}
    }
    assert(reads_back(group, 123)) by {
        let parts = group->Object_0;
        assert forall|name: Seq<char>| #[trigger] parts.contains_key(name) implies reads_back(
            parts[name],
            122,
        ) by {}
    }
    let marked = with_marker(settings, marker);
    let all_hooks = marked->Object_0["hooks"@];
    let groups = all_hooks->Object_0["SessionStart"@]->Array_0;
    lemma_readable_parts(settings);
    assert(reads_back(JsonTree::Array(groups), 125)) by {
        assert forall|i: int| 0 <= i < groups.len() implies reads_back(#[trigger] groups[i], 124) by {
            if i == groups.len() - 1 {
                lemma_deeper(group, 123);
            } else {
                assert(groups[i] == session_groups(settings)->0[i]);
            }
        }
    }
    assert(reads_back(all_hooks, 126)) by {
        let parts = all_hooks->Object_0;
        assert forall|name: Seq<char>| #[trigger] parts.contains_key(name) implies reads_back(
            parts[name],
            125,
        ) by {
            if name != "SessionStart"@ {
                let before = settings->Object_0["hooks"@]->Object_0;
                assert(before.contains_key(name));
            }
        }
    }
    let parts = marked->Object_0;
    assert forall|name: Seq<char>| #[trigger] parts.contains_key(name) implies reads_back(
        parts[name],
        126,
    ) by {
        if name != "hooks"@ {
            assert(settings->Object_0.contains_key(name));
        }
    }
}

/// Whether the marker is in the settings does not depend on the digits of doubles.
pub proof fn law_doubles_do_not_matter_to_the_marker(
    a: JsonTree,
    b: JsonTree,
    marker: Seq<char>,
)
    requires
        alike(a, b),
    ensures
        has_marker(a, marker) == has_marker(b, marker),
{
    reveal_with_fuel(alike, 7);
    if let (Some(xs), Some(ys)) = (session_groups(a), session_groups(b)) {
        assert(xs.len() == ys.len());
        assert forall|i: int| 0 <= i < xs.len() implies group_has(#[trigger] xs[i], marker)
            == group_has(ys[i], marker) by {
            assert(alike(xs[i], ys[i]));
            lemma_alike_groups(xs[i], ys[i], marker);
        }
        if some_group_has(xs, marker) {
            let i = choose|i: int| 0 <= i < xs.len() && group_has(#[trigger] xs[i], marker);
            assert(group_has(ys[i], marker));
        }
        if some_group_has(ys, marker) {
            let i = choose|i: int| 0 <= i < ys.len() && group_has(#[trigger] ys[i], marker);
            assert(group_has(xs[i], marker));
        }
    }
}

proof fn lemma_alike_groups(a: JsonTree, b: JsonTree, command: Seq<char>)
    requires
        alike(a, b),
    ensures
        group_has(a, command) == group_has(b, command),
{
    reveal_with_fuel(alike, 4);
    if let (Some(xs), Some(ys)) = (group_hooks(a), group_hooks(b)) {
        assert forall|i: int| 0 <= i < xs.len() implies runs(#[trigger] xs[i], command) == runs(
            ys[i],
            command,
        ) by {
            assert(alike(xs[i], ys[i]));
        }
        if some_hook_runs(xs, command) {
            let i = choose|i: int| 0 <= i < xs.len() && runs(#[trigger] xs[i], command);
            assert(runs(ys[i], command));
        }
        if some_hook_runs(ys, command) {
            let i = choose|i: int| 0 <= i < ys.len() && runs(#[trigger] ys[i], command);
            assert(runs(xs[i], command));
        }
    }
}

/// Settings that read back from their text still do without the marker.
pub proof fn law_unmarked_settings_read_back(settings: JsonTree, marker: Seq<char>)
    requires
        reads_back(settings, 127),
    ensures
        reads_back(without_marker(settings, marker), 127),
{
    if has_marker(settings, marker) {
        lemma_readable_parts(settings);
        let groups = session_groups(settings)->0;
        let left = pruned_groups(groups, marker);
        lemma_readable_groups(groups, marker);
        let unmarked = without_marker(settings, marker);
        let hooks_left = unmarked->Object_0["hooks"@];
        let before = settings->Object_0["hooks"@]->Object_0;
        assert(reads_back(JsonTree::Array(left), 125));
        assert(reads_back(hooks_left, 126)) by {
            let parts = hooks_left->Object_0;
            assert forall|name: Seq<char>| #[trigger] parts.contains_key(name) implies reads_back(
                parts[name],
                125,
            ) by {
                assert(before.contains_key(name));
            }
        }
        let parts = unmarked->Object_0;
        assert forall|name: Seq<char>| #[trigger] parts.contains_key(name) implies reads_back(
            parts[name],
            126,
        ) by {
            if name != "hooks"@ {
                assert(settings->Object_0.contains_key(name));
            }
        }
    }
}

/// What is left of readable hooks is readable.
proof fn lemma_readable_hooks(hooks: Seq<JsonTree>, command: Seq<char>)
    requires
        forall|i: int| 0 <= i < hooks.len() ==> reads_back(#[trigger] hooks[i], 122),
    ensures
        forall|i: int|
            0 <= i < other_hooks(hooks, command).len() ==> reads_back(
                #[trigger] other_hooks(hooks, command)[i],
                122,
            ),
    decreases hooks.len(),
{
    if hooks.len() > 0 {
        let front = hooks.drop_last();
        assert forall|i: int| 0 <= i < front.len() implies reads_back(#[trigger] front[i], 122) by {
            assert(front[i] == hooks[i]);
        }
        lemma_readable_hooks(front, command);
        assert(reads_back(hooks[hooks.len() - 1], 122));
        let left = other_hooks(hooks, command);
        let before = other_hooks(front, command);
        assert forall|i: int| 0 <= i < left.len() implies reads_back(#[trigger] left[i], 122) by {
            if i < before.len() {
                assert(left[i] == before[i]);
            }
        }
    }
}

/// What is left of readable groups is readable.
proof fn lemma_readable_groups(groups: Seq<JsonTree>, command: Seq<char>)
    requires
        forall|i: int| 0 <= i < groups.len() ==> reads_back(#[trigger] groups[i], 124),
    ensures
        forall|i: int|
            0 <= i < pruned_groups(groups, command).len() ==> reads_back(
                #[trigger] pruned_groups(groups, command)[i],
                124,
            ),
    decreases groups.len(),
{
    if groups.len() > 0 {
        let front = groups.drop_last();
        assert forall|i: int| 0 <= i < front.len() implies reads_back(#[trigger] front[i], 124) by {
            assert(front[i] == groups[i]);
        }
        lemma_readable_groups(front, command);
        let group = groups[groups.len() - 1];
        assert(reads_back(group, 124));
        if group_has(group, command) {
            let fields = group->Object_0;
            let hooks = group_hooks(group)->0;
            assert(fields.contains_key("hooks"@));
            assert(reads_back(fields["hooks"@], 123));
            lemma_readable_hooks(hooks, command);
            let rest = other_hooks(hooks, command);
            assert(reads_back(JsonTree::Array(rest), 123));
            if rest.len() > 0 {
                let left = pruned_group(group, command)->0;
                let parts = left->Object_0;
                assert forall|name: Seq<char>| #[trigger]
                    parts.contains_key(name) implies reads_back(parts[name], 123) by {
                    if name != "hooks"@ {
                        assert(fields.contains_key(name));
                    }
                }
                assert(reads_back(left, 124));
            }
        }
        let left = pruned_groups(groups, command);
        let before = pruned_groups(front, command);
        assert forall|i: int| 0 <= i < left.len() implies reads_back(#[trigger] left[i], 124) by {
            if i < before.len() {
                assert(left[i] == before[i]);
            }
        }
    }
}

/// What holds of readable settings holds of their hooks and groups.
proof fn lemma_readable_parts(settings: JsonTree)
    requires
        reads_back(settings, 127),
    ensures
        settings.field("hooks"@) matches Some(hooks) ==> reads_back(hooks, 126),
        settings.field("hooks"@) matches Some(JsonTree::Object(hooks)) ==> forall|name: Seq<char>|
            #[trigger] hooks.contains_key(name) ==> reads_back(hooks[name], 125),
        session_groups(settings) matches Some(groups) ==> forall|i: int|
            0 <= i < groups.len() ==> reads_back(#[trigger] groups[i], 124),
{
    match settings.field("hooks"@) {
        Some(hooks) => {
            assert(settings->Object_0.contains_key("hooks"@));
            assert(reads_back(hooks, 126));
            match hooks.field("SessionStart"@) {
                Some(groups) => {
                    assert(hooks->Object_0.contains_key("SessionStart"@));
                    assert(reads_back(groups, 125));
                },
                None => {},
            }
        },
        None => {},
    }
}

/// A value that reads back within a depth does so within any larger one.
proof fn lemma_deeper(tree: JsonTree, depth: nat)
    requires
        reads_back(tree, depth),
    ensures
        reads_back(tree, depth + 1),
    decreases depth,
{
    match tree {
        JsonTree::Array(items) => {
            assert forall|i: int| 0 <= i < items.len() implies reads_back(
                #[trigger] items[i],
                depth,
            ) by {
                lemma_deeper(items[i], (depth - 1) as nat);
            }
        },
        JsonTree::Object(fields) => {
            assert forall|name: Seq<char>| #[trigger] fields.contains_key(name) implies reads_back(
                fields[name],
                depth,
            ) by {
                lemma_deeper(fields[name], (depth - 1) as nat);
            }
        },
        _ => {},
    }
}

} // verus!
