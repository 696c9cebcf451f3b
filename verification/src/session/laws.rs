//! What the records of the sessions promise as a whole.

use vstd::prelude::*;
use crate::config::{CapabilityConfig, Config, LauncherConfig};
use crate::json::JsonTree;
use crate::name_map::NameMap;
use crate::proxy::usage::UsageStats;
use crate::session::calendar::{format_moment, format_utc_timestamp};
use crate::session::suffix::{short_suffix, Suffixes};
use crate::session::{
    build_capability_meta, create_session_meta, finish_session, generate_session_id,
    session_file_name, update_session_usage, SessionCapabilityMeta, SessionMeta,
};
use crate::text::replaced;

verus! {

/// The text that the settings hold under a name, where they are an object that does.
pub open spec fn setting(settings: JsonTree, name: Seq<char>) -> Option<Seq<char>> {
    match settings {
        JsonTree::Object(fields) => if fields.contains_key(name) {
            match fields[name] {
                JsonTree::Str(text) => Some(text),
                _ => None,
            }
        } else {
            None
        },
        _ => None,
    }
}

/// Tells whether a text that may be there is the given one.
pub open spec fn holds(text: Option<String>, expected: Option<Seq<char>>) -> bool {
    match (text, expected) {
        (Some(text), Some(expected)) => text@ == expected,
        (None, None) => true,
        _ => false,
    }
}

/// The record of a capability carries its own id and type and the id of the model that
/// its settings name. Where that model is configured it carries the type of the model
/// and the provider that the model names, whatever else is configured for the model, its
/// variant for one; and where that provider is configured, the type of the provider.
pub proof fn law_capability_record_follows_the_links(
    capability: &CapabilityConfig,
    config: &Config,
    r: SessionCapabilityMeta,
)
    requires
        call_ensures(build_capability_meta, (capability, config), r),
    ensures
        r.capability_id@ == capability.capability_id@,
        r.capability_type@ == capability.capability_type@,
        holds(r.model_id, setting(capability.config.tree(), "model_id"@)),
        setting(capability.config.tree(), "model_id"@) matches Some(id) ==> {
            &&& config.models@.contains_key(id) ==> {
                let model = config.models@[id];
                &&& r.model_type matches Some(name) && name@ == model.model_type@
                &&& model.provider_id is None ==> r.provider_id is None
                &&& model.provider_id matches Some(provider) ==> {
                    &&& r.provider_id matches Some(text) && text@ == provider@
                    &&& config.providers@.contains_key(provider@) ==> (r.provider_type matches Some(
                        name,
                    ) && name@ == config.providers@[provider@].provider_type@)
                }
            }
            &&& !config.models@.contains_key(id) ==> r.model_type is None && r.provider_id is None
        },
        r.model_type is Some ==> (r.model_id matches Some(id) && config.models@.contains_key(id@)),
        r.provider_type is Some ==> (r.provider_id matches Some(id)
            && config.providers@.contains_key(id@)),
{
}

/// The variants that the models are configured with, and their settings, do not show in
/// the record of a capability: two configurations in which the models have the same types
/// and providers, and the providers the same types, give the same record.
pub proof fn law_other_settings_do_not_show(
    capability: &CapabilityConfig,
    a: &Config,
    b: &Config,
    x: SessionCapabilityMeta,
    y: SessionCapabilityMeta,
)
    requires
        call_ensures(build_capability_meta, (capability, a), x),
        call_ensures(build_capability_meta, (capability, b), y),
        a.models@.dom() == b.models@.dom(),
        a.providers@.dom() == b.providers@.dom(),
        forall|id: Seq<char>| #[trigger]
            a.models@.contains_key(id) ==> a.models@[id].model_type == b.models@[id].model_type
                && a.models@[id].provider_id == b.models@[id].provider_id,
        forall|id: Seq<char>| #[trigger]
            a.providers@.contains_key(id) ==> a.providers@[id].provider_type
                == b.providers@[id].provider_type,
    ensures
        x@ == y@,
{
    assert(forall|id: Seq<char>| a.models@.contains_key(id) == #[trigger] b.models@.contains_key(id));
    assert(forall|id: Seq<char>|
        a.providers@.contains_key(id) == #[trigger] b.providers@.contains_key(id));
}

/// The record of a launch begins with what it is launched with: the id of the session, the
/// launcher, the command line, the working directory or `unknown`, the moment as the time
/// of the launch and of the last write, no end, no usage, and one record for each
/// capability, in order.
pub proof fn law_record_begins_with_the_launch(
    session_id: &str,
    config: &Config,
    launcher: &LauncherConfig,
    capabilities: &Vec<&CapabilityConfig>,
    moment: Option<u64>,
    dir: Option<&str>,
    command: Vec<String>,
    r: SessionMeta,
    stamp: String,
    i: int,
    meta: SessionCapabilityMeta,
)
    requires
        call_ensures(
            create_session_meta,
            (session_id, config, launcher, capabilities, moment, dir, command),
            r,
        ),
        call_ensures(format_moment, (moment,), stamp),
        0 <= i < capabilities@.len(),
        call_ensures(build_capability_meta, (capabilities@[i], config), meta),
    ensures
        r.session_id@ == session_id@,
        r.launched_at@ == stamp@,
        r.updated_at@ == stamp@,
        r.finished_at is None,
        dir matches Some(path) ==> r.working_dir@ == path@,
        dir is None ==> r.working_dir@ == "unknown"@,
        r.full_command == command,
        r.launcher_id@ == launcher.launcher_id@,
        r.launcher_type@ == launcher.launcher_type@,
        r.capabilities@.len() == capabilities@.len(),
        r.capabilities@[i]@ == meta@,
        forall|label: Seq<char>| !r.usage@.contains_key(label),
{
}

/// Everything that an update of a record leaves alone.
pub open spec fn keeps_launch(a: SessionMeta, b: SessionMeta) -> bool {
    &&& a.session_id@ == b.session_id@
    &&& a.launched_at@ == b.launched_at@
    &&& a.working_dir@ == b.working_dir@
    &&& a.full_command@ == b.full_command@
    &&& a.launcher_id@ == b.launcher_id@
    &&& a.launcher_type@ == b.launcher_type@
    &&& a.capabilities@ == b.capabilities@
}

/// An update replaces the usage and the time of the last write, and keeps the end as it
/// is. Closing a record does the same and notes the end, which is the moment that it is
/// given and not that of the write.
pub proof fn law_updates_touch_only_the_usage_and_the_times(
    usage: &NameMap<UsageStats>,
    end: Option<u64>,
    now: Option<u64>,
    end_text: String,
    now_text: String,
)
    requires
        call_ensures(format_moment, (end,), end_text),
        call_ensures(format_moment, (now,), now_text),
    ensures
        forall|meta: &mut SessionMeta| #[trigger]
            call_ensures(update_session_usage, (meta, usage, now), ()) ==> {
                &&& keeps_launch(*meta, *final(meta))
                &&& final(meta).finished_at == meta.finished_at
                &&& final(meta).usage@ == usage@
                &&& final(meta).updated_at@ == now_text@
            },
        forall|meta: &mut SessionMeta| #[trigger]
            call_ensures(finish_session, (meta, usage, end, now), ()) ==> {
                &&& keeps_launch(*meta, *final(meta))
                &&& holds(final(meta).finished_at, Some(end_text@))
                &&& final(meta).usage@ == usage@
                &&& final(meta).updated_at@ == now_text@
            },
{
}

/// The id of a session is its directory with every slash replaced by three dashes, or
/// `unknown`, then an at sign, the timestamp of the launch, an underscore and the next
/// suffix. The file of the session is named after it.
pub proof fn law_session_id_reads_as_its_parts(
    dir: Option<&str>,
    secs: u64,
    nanos: u64,
    pid: u32,
    stamp: String,
)
    requires
        call_ensures(format_utc_timestamp, (secs,), stamp),
    ensures
        forall|a: &mut Suffixes, b: &mut Suffixes, id: String, suffix: String|
            #![trigger call_ensures(generate_session_id, (a, dir, secs, nanos, pid), id), call_ensures(
                short_suffix,
                (b, nanos, pid),
                suffix,
            )]
            *a == *b && call_ensures(generate_session_id, (a, dir, secs, nanos, pid), id)
                && call_ensures(short_suffix, (b, nanos, pid), suffix) ==> {
                &&& id@ == (match dir {
                    Some(path) => replaced(path@, "/"@, "---"@),
                    None => "unknown"@,
                }) + "@"@ + stamp@ + "_"@ + suffix@
                &&& final(a)@ == final(b)@
            },
        forall|session_id: &str, name: String| #[trigger]
            call_ensures(session_file_name, (session_id,), name) ==> name@ == session_id@
                + ".yaml"@,
{
    lemma_unknown_has_no_slash();
}

proof fn lemma_unknown_has_no_slash()
    ensures
        replaced("unknown"@, "/"@, "---"@) == "unknown"@,
{
    reveal_strlit("unknown");
    reveal_strlit("/");
    reveal_with_fuel(replaced, 8);
    assert("/"@ =~= seq!['/']);
    assert(forall|c: char| #[trigger] seq!['/'].contains(c) ==> c == '/');
    assert(replaced("unknown"@, "/"@, "---"@) =~= "unknown"@);
}

} // verus!
