//! What launching Bob promises as a whole, and what is counted afterwards.

use vstd::prelude::*;
use crate::capabilities::{Binding, BindingRequest, BindingType, McpBinding};
use crate::config::Config;
use crate::json::{parsed_tree, Json, JsonTree};
use crate::launchers::bob::{
    types_text, unsupported, BobLauncher, BobLauncherConfig, LaunchRun, LaunchStep,
};
use crate::launchers::usage::{
    collect_bob_usage, parse_costs_json, row_usage, rows_usage, sum_usage, tree_usage,
    usage_from_costs,
};
use crate::launchers::LauncherMetadata;
use crate::providers::ApiType;
use crate::proxy::laws::count_under;
use crate::proxy::usage::UsageStats;

verus! {

/// The text under a name of an object, where it is a text.
pub open spec fn text_under(fields: Map<Seq<char>, JsonTree>, name: Seq<char>) -> Option<Seq<char>> {
    if fields.contains_key(name) {
        match fields[name] {
            JsonTree::Str(text) => Some(text),
            _ => None,
        }
    } else {
        None
    }
}

/// Tells whether an object holds a text, nothing or null under a name.
pub open spec fn may_hold_text(fields: Map<Seq<char>, JsonTree>, name: Seq<char>) -> bool {
    fields.contains_key(name) ==> fields[name] is Str || fields[name] is Null
}

/// Tells whether a text that may be there is the given one.
pub open spec fn is_text(found: Option<String>, text: Option<Seq<char>>) -> bool {
    match (found, text) {
        (Some(a), Some(b)) => a@ == b,
        (None, None) => true,
        _ => false,
    }
}

/// Each of the two paths is read from its own name, whatever stands under the other, as
/// long as both hold a text, null or nothing. Else neither is read.
pub proof fn law_each_path_is_read_from_its_own_name(
    cfg: &Json,
    fields: Map<Seq<char>, JsonTree>,
    r: BobLauncherConfig,
)
    requires
        call_ensures(BobLauncherConfig::read, (cfg,), r),
        cfg.tree() == JsonTree::Object(fields),
    ensures
        may_hold_text(fields, "command_path"@) && may_hold_text(fields, "pi_command_path"@)
            ==> is_text(r.command_path, text_under(fields, "command_path"@)) && is_text(
            r.pi_command_path,
            text_under(fields, "pi_command_path"@),
        ),
        !(may_hold_text(fields, "command_path"@) && may_hold_text(fields, "pi_command_path"@))
            ==> r.command_path is None && r.pi_command_path is None,
{
}

/// Settings in a list hold the two paths in that order. Anything else that is no object
/// holds neither.
pub proof fn law_paths_in_a_list_go_by_position(cfg: &Json, r: BobLauncherConfig)
    requires
        call_ensures(BobLauncherConfig::read, (cfg,), r),
        !(cfg.tree() is Object),
    ensures
        match cfg.tree() {
            JsonTree::Array(items) => if items.len() <= 2 && (forall|i: int|
                0 <= i < items.len() ==> (#[trigger] items[i]) is Str || items[i] is Null) {
                &&& is_text(
                    r.command_path,
                    if items.len() > 0 && items[0] is Str {
                        Some(items[0]->Str_0)
                    } else {
                        None
                    },
                )
                &&& is_text(
                    r.pi_command_path,
                    if items.len() > 1 && items[1] is Str {
                        Some(items[1]->Str_0)
                    } else {
                        None
                    },
                )
            } else {
                r.command_path is None && r.pi_command_path is None
            },
            _ => r.command_path is None && r.pi_command_path is None,
        },
{
    if let JsonTree::Array(items) = cfg.tree() {
        if items.len() <= 2 && !(forall|i: int|
            0 <= i < items.len() ==> (#[trigger] items[i]) is Str || items[i] is Null) {
            let i = choose|i: int|
                0 <= i < items.len() && !((#[trigger] items[i]) is Str || items[i] is Null);
            assert(i == 0 || i == 1);
        }
    }
}

/// The program that is started is the one that the settings name for Bob, and `bob` where
/// they name none. What they name for the sub-agents does not matter to it.
pub proof fn law_bob_is_the_program_that_is_started(
    id: &str,
    cfg: &Json,
    config: &Config,
    fields: Map<Seq<char>, JsonTree>,
    launcher: BobLauncher,
    r: &str,
)
    requires
        call_ensures(BobLauncher::new, (id, cfg, config), launcher),
        call_ensures(BobLauncher::command, (&launcher,), r),
        cfg.tree() == JsonTree::Object(fields),
        may_hold_text(fields, "command_path"@),
        may_hold_text(fields, "pi_command_path"@),
    ensures
        r@ == (match text_under(fields, "command_path"@) {
            Some(path) => path,
            None => "bob"@,
        }),
        is_text(launcher.config.pi_command_path, text_under(fields, "pi_command_path"@)),
        launcher.instance_id@ == id@,
        launcher.bound_mcp_bindings@.len() == 0,
        launcher.pending_sub_agents@.len() == 0,
{
}

/// What is known of Bob without building it agrees with what it does.
pub proof fn law_bob_is_what_it_says(metadata: LauncherMetadata, types: Vec<BindingType>)
    requires
        call_ensures(BobLauncher::metadata, (), metadata),
        call_ensures(BobLauncher::supported_capabilities, (), types),
    ensures
        metadata.name@ == "Bob CLI"@,
        metadata.description@ == "IBM Bob AI assistant CLI"@,
        metadata.default_command@ == "bob"@,
        metadata.tags@.len() == 2,
        metadata.tags@[0]@ == "bob"@,
        metadata.tags@[1]@ == "ibm"@,
        metadata.supported_capabilities@ == types@,
        forall|t: BindingType| #[trigger] types@.contains(t) <==> t == BindingType::Mcp || t
            == BindingType::SubAgent,
{
    assert(types@[0] == BindingType::Mcp);
    assert(types@[1] == BindingType::SubAgent);
}

/// Tells whether Bob can be given a capability that attaches in a way.
pub open spec fn bob_takes(t: BindingType) -> bool {
    t == BindingType::Mcp || t == BindingType::SubAgent
}

proof fn lemma_unsupported(types: Seq<BindingType>)
    ensures
        unsupported(types, seq![BindingType::Mcp, BindingType::SubAgent]) == types.filter(
            |t: BindingType| !bob_takes(t),
        ),
        unsupported(types, seq![BindingType::Mcp, BindingType::SubAgent]).len() == 0 <==> forall|
            i: int,
        |
            0 <= i < types.len() ==> bob_takes(#[trigger] types[i]),
    decreases types.len(),
{
    reveal(Seq::filter);
    let supported = seq![BindingType::Mcp, BindingType::SubAgent];
    assert(supported[0] == BindingType::Mcp);
    assert(supported[1] == BindingType::SubAgent);
    if types.len() > 0 {
        let front = types.drop_last();
        lemma_unsupported(front);
        assert(supported.contains(types.last()) == bob_takes(types.last()));
        assert(types[types.len() - 1] == types.last());
        assert(forall|i: int| 0 <= i < front.len() ==> #[trigger] front[i] == types[i]);
        if forall|i: int| 0 <= i < types.len() ==> bob_takes(#[trigger] types[i]) {
            assert forall|i: int| 0 <= i < front.len() implies bob_takes(#[trigger] front[i]) by {
                assert(front[i] == types[i]);
            }
        }
        if unsupported(types, supported).len() == 0 {
            assert forall|i: int| 0 <= i < types.len() implies bob_takes(#[trigger] types[i]) by {
                if i < front.len() {
                    assert(front[i] == types[i]);
                }
            }
        }
    } else {
        assert(unsupported(types, supported) =~= types.filter(|t: BindingType| !bob_takes(t)));
    }
}

/// A capability is asked for a sub-agent that speaks OpenAI's protocol where it can be
/// one, and for an MCP server else. One that attaches in any way that Bob does not take is
/// refused.
pub proof fn law_capability_is_asked_for_what_bob_takes(
    launcher: &BobLauncher,
    types: &Vec<BindingType>,
    r: Result<BindingRequest, String>,
)
    requires
        call_ensures(BobLauncher::bind_request, (launcher, types), r),
    ensures
        r is Ok <==> forall|i: int| 0 <= i < types@.len() ==> bob_takes(#[trigger] types@[i]),
        r matches Ok(request) ==> request == (if types@.contains(BindingType::SubAgent) {
            BindingRequest::SubAgent { api_type: ApiType::OpenAI }
        } else {
            BindingRequest::Mcp
        }),
        r matches Err(message) ==> message@ == "capability supports ["@ + types_text(
            types@.filter(|t: BindingType| !bob_takes(t)),
        ) + "] which this launcher does not support"@,
{
    lemma_unsupported(types@);
}

/// The name of a way to attach.
pub open spec fn way(t: BindingType) -> Seq<char> {
    match t {
        BindingType::AgentModel => "AgentModel"@,
        BindingType::Mcp => "Mcp"@,
        BindingType::SubAgent => "SubAgent"@,
    }
}

/// Ways to attach are listed by their names, with a comma and a blank between them.
pub proof fn law_ways_are_listed_by_name(first: Seq<BindingType>, t: BindingType)
    ensures
        types_text(Seq::empty()) == Seq::<char>::empty(),
        types_text(seq![t]) == way(t),
        first.len() > 0 ==> types_text(first.push(t)) == types_text(first) + ", "@ + way(t),
{
    if first.len() > 0 {
        assert(first.push(t).drop_last() =~= first);
    }
}

/// Something that was not asked for is refused with the name of what was asked for, a
/// sub-agent where the capability can be one, and the name of what was handed over.
pub proof fn law_refusals_say_what_was_expected(
    id: &str,
    types: &Vec<BindingType>,
    binding: Binding,
)
    requires
        forall|i: int| 0 <= i < types@.len() ==> bob_takes(#[trigger] types@[i]),
    ensures
        forall|launcher: &mut BobLauncher, r: Result<(), String>| #[trigger]
            call_ensures(BobLauncher::bind_capability, (launcher, id, types, Ok(binding)), r)
                && r is Err ==> r->Err_0@ == (if types@.contains(BindingType::SubAgent) {
                "expected a SubAgent binding, got "@
            } else {
                "expected an Mcp binding, got "@
            }) + way(
                match binding {
                    Binding::AgentModel(_) => BindingType::AgentModel,
                    Binding::Mcp(_) => BindingType::Mcp,
                    Binding::SubAgent(_) => BindingType::SubAgent,
                },
            ),
{
    lemma_unsupported(types@);
}

/// Binding a capability keeps what it handed over under its name, behind what was bound
/// before: a sub-agent with the sub-agents and an MCP server with the servers. Anything
/// that was not asked for is refused, and then nothing changes.
pub proof fn law_binding_keeps_what_was_handed_over(
    id: &str,
    types: &Vec<BindingType>,
    binding: Result<Binding, String>,
)
    ensures
        forall|launcher: &mut BobLauncher, r: Result<(), String>| #[trigger]
            call_ensures(BobLauncher::bind_capability, (launcher, id, types, binding), r) ==> {
                let taken = forall|i: int|
                    0 <= i < types@.len() ==> bob_takes(#[trigger] types@[i]);
                let agent = types@.contains(BindingType::SubAgent);
                &&& r is Ok <==> taken && (match binding {
                    Ok(Binding::SubAgent(_)) => agent,
                    Ok(Binding::Mcp(_)) => !agent,
                    _ => false,
                })
                &&& r is Err ==> *final(launcher) == *launcher
                &&& taken && binding is Err ==> r == Err::<(), String>(binding->Err_0)
                &&& r is Ok ==> {
                    &&& final(launcher).instance_id == launcher.instance_id
                    &&& final(launcher).config == launcher.config
                    &&& binding->Ok_0 matches Binding::SubAgent(agent) ==> {
                        let after = final(launcher).pending_sub_agents@;
                        let n = launcher.pending_sub_agents@.len();
                        &&& after.len() == n + 1
                        &&& after.take(n as int) == launcher.pending_sub_agents@
                        &&& after[n as int].0@ == id@
                        &&& after[n as int].1 == agent
                        &&& final(launcher).bound_mcp_bindings == launcher.bound_mcp_bindings
                    }
                    &&& binding->Ok_0 matches Binding::Mcp(server) ==> {
                        let after = final(launcher).bound_mcp_bindings@;
                        let n = launcher.bound_mcp_bindings@.len();
                        &&& after.len() == n + 1
                        &&& after.take(n as int) == launcher.bound_mcp_bindings@
                        &&& after[n as int].0@ == id@
                        &&& after[n as int].1 == server
                        &&& final(launcher).pending_sub_agents == launcher.pending_sub_agents
                    }
                }
            },
{
    lemma_unsupported(types@);
    assert forall|launcher: &mut BobLauncher, r: Result<(), String>| #[trigger]
        call_ensures(
            BobLauncher::bind_capability,
            (launcher, id, types, binding),
            r,
        ) && r is Ok implies {
        &&& binding->Ok_0 matches Binding::SubAgent(agent) ==> final(
            launcher).pending_sub_agents@.take(launcher.pending_sub_agents@.len() as int)
            == launcher.pending_sub_agents@
        &&& binding->Ok_0 matches Binding::Mcp(server) ==> final(launcher).bound_mcp_bindings@.take(
            launcher.bound_mcp_bindings@.len() as int,
        ) == launcher.bound_mcp_bindings@
    } by {
        if binding->Ok_0 is SubAgent {
            let after = final(launcher).pending_sub_agents@;
            assert(after.take(launcher.pending_sub_agents@.len() as int) =~= after.drop_last());
        }
        if binding->Ok_0 is Mcp {
            let after = final(launcher).bound_mcp_bindings@;
            assert(after.take(launcher.bound_mcp_bindings@.len() as int) =~= after.drop_last());
        }
    }
}

/// Bob is started with the arguments that it was given, in their order. Its own
/// sub-agents are turned off, behind them, exactly where it gets others.
pub proof fn law_bob_gets_its_arguments(launcher: &BobLauncher, args: Vec<String>, r: Vec<String>)
    requires
        call_ensures(BobLauncher::launch_args, (launcher, args), r),
    ensures
        r@.take(args@.len() as int) == args@,
        r@.len() == args@.len() + (if launcher.pending_sub_agents@.len() > 0 {
            1int
        } else {
            0int
        }),
        launcher.pending_sub_agents@.len() > 0 ==> r@[args@.len() as int]@
            == "--disable-subagents"@,
        forall|needed: bool| #[trigger]
            call_ensures(BobLauncher::needs_delegate, (launcher,), needed) ==> needed == (
            launcher.pending_sub_agents@.len() > 0),
{
    assert(r@.take(args@.len() as int) =~= args@) by {
        if launcher.pending_sub_agents@.len() > 0 {
            assert(r@.take(args@.len() as int) =~= r@.drop_last());
        }
    }
}

/// The servers of a launch are those that were bound, each under its name and in their
/// order, and behind them the one for the sub-agents where there are any.
pub proof fn law_every_bound_server_is_launched<'a>(
    launcher: &'a BobLauncher,
    delegate: Option<&'a McpBinding>,
    r: Vec<(&'a str, &'a McpBinding)>,
)
    requires
        call_ensures(BobLauncher::launch_servers, (launcher, delegate), r),
        delegate is Some <==> launcher.pending_sub_agents@.len() > 0,
    ensures
        r@.len() == launcher.bound_mcp_bindings@.len() + (if delegate is Some {
            1int
        } else {
            0int
        }),
        forall|i: int| #![trigger r@[i]]
            0 <= i < launcher.bound_mcp_bindings@.len() ==> r@[i].0@
                == launcher.bound_mcp_bindings@[i].0@ && *r@[i].1
                == launcher.bound_mcp_bindings@[i].1,
        delegate matches Some(server) ==> r@[r@.len() - 1].0@ == "bob-sub-agents"@ && *r@[r@.len()
            - 1].1 == *server,
{
}

/// A launch begins with the directory where servers are to be registered and it is no dry
/// run. Servers are registered one after the other up to the last, and one that fails ends
/// the launch. Then Bob runs. Whether it worked or not, the servers are removed one after
/// the other up to the last, and then the one for the sub-agents is shut down.
pub proof fn law_launch_goes_step_by_step(servers: usize, delegate: bool, i: usize, worked: bool)
    ensures
        forall|dry_run: bool, r: LaunchRun| #[trigger]
            call_ensures(LaunchRun::start, (servers, delegate, dry_run), r) ==> r.servers == servers
                && r.delegate == delegate && r.step == (if servers == 0 {
                LaunchStep::Run
            } else if dry_run {
                LaunchStep::Register(0)
            } else {
                LaunchStep::CreateConfigDir
            }),
        forall|run: &mut LaunchRun|
            run.servers == servers && run.delegate == delegate && #[trigger] call_ensures(
                LaunchRun::advance,
                (run, worked),
                (),
            ) ==> {
                let next = final(run).step;
                &&& final(run).servers == servers
                &&& final(run).delegate == delegate
                &&& run.step == LaunchStep::CreateConfigDir && servers > 0 ==> next == (if worked {
                    LaunchStep::Register(0)
                } else {
                    LaunchStep::Finished
                })
                &&& run.step == LaunchStep::Register(i) && i < servers ==> next == (if !worked {
                    LaunchStep::Finished
                } else if i + 1 < servers {
                    LaunchStep::Register((i + 1) as usize)
                } else {
                    LaunchStep::Run
                })
                &&& run.step == LaunchStep::Run ==> next == (if servers > 0 {
                    LaunchStep::Remove(0)
                } else if delegate {
                    LaunchStep::ShutDownDelegate
                } else {
                    LaunchStep::Finished
                })
                &&& run.step == LaunchStep::Remove(i) && i < servers ==> next == (if i + 1
                    < servers {
                    LaunchStep::Remove((i + 1) as usize)
                } else if delegate {
                    LaunchStep::ShutDownDelegate
                } else {
                    LaunchStep::Finished
                })
                &&& run.step == LaunchStep::ShutDownDelegate ==> next == LaunchStep::Finished
                &&& run.step == LaunchStep::Finished ==> next == LaunchStep::Finished
            },
{
}

/// Each count of a costs record is read from its own name, and no request is counted.
pub proof fn law_costs_are_read_by_name(
    costs: &Json,
    fields: Map<Seq<char>, JsonTree>,
    r: UsageStats,
)
    requires
        call_ensures(usage_from_costs, (costs,), r),
    ensures
        costs.tree() == JsonTree::Object(fields) ==> r.requests == 0 && r.input_tokens
            == count_under(fields, "input"@) && r.output_tokens == count_under(fields, "output"@)
            && r.cache_creation_tokens == count_under(fields, "cacheWrite"@)
            && r.cache_read_tokens == count_under(fields, "cacheRead"@),
        !(costs.tree() is Object) ==> r.requests == 0 && r.input_tokens == 0 && r.output_tokens
            == 0 && r.cache_creation_tokens == 0 && r.cache_read_tokens == 0,
{
}

/// The text of a costs record reports what the record does, and nothing where it is no
/// JSON.
pub proof fn law_costs_text_is_read(text: &str, record: &Json, r: UsageStats, read: UsageStats)
    requires
        call_ensures(parse_costs_json, (text,), r),
        call_ensures(usage_from_costs, (record,), read),
    ensures
        parsed_tree(text@) == Some(record.tree()) ==> r == read,
        parsed_tree(text@) is None ==> r.requests == 0 && r.input_tokens == 0 && r.output_tokens
            == 0 && r.cache_creation_tokens == 0 && r.cache_read_tokens == 0,
{
}

/// A sum, or the largest count where it does not fit.
pub open spec fn held_sum(a: u64, b: u64) -> u64 {
    if a + b <= u64::MAX {
        (a + b) as u64
    } else {
        u64::MAX
    }
}

/// Each row of a task tree adds its tokens to the counts of the rows before it, each to
/// its own, and one request, whatever the row says of requests. No rows are no usage.
pub proof fn law_each_row_adds_its_tokens(rows: Seq<UsageStats>, row: UsageStats)
    ensures
        ({
            let before = tree_usage(rows);
            let after = tree_usage(rows.push(row));
            &&& after.requests == held_sum(before.requests, 1)
            &&& after.input_tokens == held_sum(before.input_tokens, row.input_tokens)
            &&& after.output_tokens == held_sum(before.output_tokens, row.output_tokens)
            &&& after.cache_creation_tokens == held_sum(
                before.cache_creation_tokens,
                row.cache_creation_tokens,
            )
            &&& after.cache_read_tokens == held_sum(before.cache_read_tokens, row.cache_read_tokens)
        }),
        ({
            let none = tree_usage(Seq::empty());
            none.requests == 0 && none.input_tokens == 0 && none.output_tokens == 0
                && none.cache_creation_tokens == 0 && none.cache_read_tokens == 0
        }),
        forall|all: &Vec<UsageStats>, r: UsageStats| #[trigger]
            call_ensures(sum_usage, (all,), r) ==> r == tree_usage(all@),
{
    assert(rows.push(row).drop_last() =~= rows);
    assert(rows.push(row).last() == row);
}

/// The usage of a task tree is the sum over its rows of what the text of each reports. A
/// row without a text reports nothing and is a row all the same.
pub proof fn law_every_row_is_counted(rows: &Vec<Option<String>>, i: int, r: UsageStats)
    requires
        call_ensures(collect_bob_usage, (rows,), r),
        0 <= i < rows@.len(),
    ensures
        r == tree_usage(rows_usage(rows@)),
        rows_usage(rows@).len() == rows@.len(),
        match rows@[i] {
            Some(text) => forall|s: &str, read: UsageStats|
                s@ == text@ && #[trigger] call_ensures(parse_costs_json, (s,), read)
                    ==> rows_usage(rows@)[i] == read,
            None => ({
                let none = rows_usage(rows@)[i];
                none.requests == 0 && none.input_tokens == 0 && none.output_tokens == 0
                    && none.cache_creation_tokens == 0 && none.cache_read_tokens == 0
            }),
        },
{
    assert(rows_usage(rows@)[i] == row_usage(rows@[i]));
}

} // verus!
