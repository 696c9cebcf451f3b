//! Launch sessions: their ids, their metadata, and what is kept of them.

pub mod calendar;
pub mod laws;
pub mod suffix;

use vstd::prelude::*;
use vstd::string::*;
use crate::config::{CapabilityConfig, Config, LauncherConfig, PATH_DELIM};
use crate::name_map::NameMap;
use crate::proxy::usage::{copy_usage, UsageStats};
use crate::session::calendar::{format_moment, format_utc_timestamp, moment_text, timestamp_text};
use crate::session::suffix::{
    law_suffix_shape, law_suffixes_differ, short_suffix, suffix_text, Suffixes, SuffixesView,
    SUFFIX_COUNT,
};
use crate::text::{replace_any, replaced};

verus! {

/// What a session keeps of one capability: the model and the provider that it
/// used, as far as the configuration named them.
#[derive(Debug)]
pub struct SessionCapabilityMeta {
    pub capability_id: String,
    pub capability_type: String,
    /// The model that the settings of the capability name.
    pub model_id: Option<String>,
    /// The type of that model, where it is configured.
    pub model_type: Option<String>,
    /// The provider of that model, where it is configured and names one.
    pub provider_id: Option<String>,
    /// The type of that provider, where it is configured.
    pub provider_type: Option<String>,
}

/// What a session keeps of one capability.
pub struct CapabilityMetaView {
    pub capability_id: Seq<char>,
    pub capability_type: Seq<char>,
    pub model_id: Option<Seq<char>>,
    pub model_type: Option<Seq<char>>,
    pub provider_id: Option<Seq<char>>,
    pub provider_type: Option<Seq<char>>,
}

/// The text that may be there.
pub open spec fn text_view(text: Option<String>) -> Option<Seq<char>> {
    match text {
        Some(s) => Some(s@),
        None => None,
    }
}

impl View for SessionCapabilityMeta {
    type V = CapabilityMetaView;

    open spec fn view(&self) -> CapabilityMetaView {
        CapabilityMetaView {
            capability_id: self.capability_id@,
            capability_type: self.capability_type@,
            model_id: text_view(self.model_id),
            model_type: text_view(self.model_type),
            provider_id: text_view(self.provider_id),
            provider_type: text_view(self.provider_type),
        }
    }
}

/// Everything that is kept of a launch session.
#[derive(Debug)]
pub struct SessionMeta {
    pub session_id: String,
    /// When the session was launched, as `YYYYMMDDTHHMMSS` in UTC.
    pub launched_at: String,
    /// When the session finished. Nothing while it runs or after it was killed.
    pub finished_at: Option<String>,
    /// When this was last written.
    pub updated_at: String,
    pub working_dir: String,
    pub full_command: Vec<String>,
    pub launcher_id: String,
    pub launcher_type: String,
    /// In the order in which the launcher enables the capabilities.
    pub capabilities: Vec<SessionCapabilityMeta>,
    /// The usage under the label of each binding.
    pub usage: NameMap<UsageStats>,
}

/// What the settings of a capability lead to in the configuration.
pub open spec fn capability_meta(capability: CapabilityConfig, config: Config) -> CapabilityMetaView {
    let model_id = capability.config.tree().text_field("model_id"@);
    let model = match model_id {
        Some(id) if config.models@.contains_key(id) => Some(config.models@[id]),
        _ => None,
    };
    let provider_id = match model {
        Some(model) => text_view(model.provider_id),
        None => None,
    };
    CapabilityMetaView {
        capability_id: capability.capability_id@,
        capability_type: capability.capability_type@,
        model_id,
        model_type: match model {
            Some(model) => Some(model.model_type@),
            None => None,
        },
        provider_id,
        provider_type: match provider_id {
            Some(id) if config.providers@.contains_key(id) => Some(
                config.providers@[id].provider_type@,
            ),
            _ => None,
        },
    }
}

/// Resolves what a session keeps of a configured capability. A link that leads
/// nowhere leaves nothing behind it.
pub fn build_capability_meta(cap_cfg: &CapabilityConfig, config: &Config) -> (r:
    SessionCapabilityMeta)
    ensures
        r@ == capability_meta(*cap_cfg, *config),
{
    let model_id = match cap_cfg.config.text_field("model_id") {
        Some(id) => Some(id.to_owned()),
        None => None,
    };
    let model_cfg = match &model_id {
        Some(id) => config.models.get(id.as_str()),
        None => None,
    };
    let (model_type, provider_id) = match model_cfg {
        Some(mc) => (Some(mc.model_type.clone()), match &mc.provider_id {
            Some(id) => Some(id.clone()),
            None => None,
        }),
        None => (None, None),
    };
    let provider_type = match &provider_id {
        Some(id) => match config.providers.get(id.as_str()) {
            Some(pc) => Some(pc.provider_type.clone()),
            None => None,
        },
        None => None,
    };
    SessionCapabilityMeta {
        capability_id: cap_cfg.capability_id.clone(),
        capability_type: cap_cfg.capability_type.clone(),
        model_id,
        model_type,
        provider_id,
        provider_type,
    }
}

/// The text that stands for a directory that may not be known.
pub open spec fn directory_text(dir: Option<&str>) -> Seq<char> {
    match dir {
        Some(dir) => dir@,
        None => "unknown"@,
    }
}

/// The text that stands for a directory that may not be known.
fn directory(dir: Option<&str>) -> (r: String)
    ensures
        r@ == directory_text(dir),
{
    match dir {
        Some(dir) => dir.to_owned(),
        None => "unknown".to_owned(),
    }
}

/// Begins the record of a launch, given the capabilities that the launcher
/// enables, the moment, the working directory and the command line.
pub fn create_session_meta(
    session_id: &str,
    config: &Config,
    launcher_config: &LauncherConfig,
    capabilities: &Vec<&CapabilityConfig>,
    launched_at: Option<u64>,
    working_dir: Option<&str>,
    full_command: Vec<String>,
) -> (r: SessionMeta)
    ensures
        r.session_id@ == session_id@,
        r.launched_at@ == moment_text(launched_at),
        r.finished_at is None,
        r.updated_at@ == r.launched_at@,
        r.working_dir@ == directory_text(working_dir),
        r.full_command == full_command,
        r.launcher_id@ == launcher_config.launcher_id@,
        r.launcher_type@ == launcher_config.launcher_type@,
        r.capabilities@.len() == capabilities@.len(),
        forall|i: int|
            0 <= i < capabilities@.len() ==> (#[trigger] r.capabilities@[i])@ == capability_meta(
                *capabilities@[i],
                *config,
            ),
        r.usage@ == Map::<Seq<char>, UsageStats>::empty(),
{
    let launched = format_moment(launched_at);
    let mut metas: Vec<SessionCapabilityMeta> = Vec::new();
    let mut i: usize = 0;
    while i < capabilities.len()
        invariant
            i <= capabilities@.len(),
            metas@.len() == i,
            forall|j: int|
                0 <= j < i ==> (#[trigger] metas@[j])@ == capability_meta(
                    *capabilities@[j],
                    *config,
                ),
        decreases capabilities@.len() - i,
    {
        metas.push(build_capability_meta(capabilities[i], config));
        i += 1;
    }
    SessionMeta {
        session_id: session_id.to_owned(),
        launched_at: launched.clone(),
        finished_at: None,
        updated_at: launched,
        working_dir: directory(working_dir),
        full_command,
        launcher_id: launcher_config.launcher_id.clone(),
        launcher_type: launcher_config.launcher_type.clone(),
        capabilities: metas,
        usage: NameMap::new(),
    }
}

/// Tells whether two records are of the same launch: only the usage, the end and
/// the last write may differ.
pub open spec fn same_launch(a: SessionMeta, b: SessionMeta) -> bool {
    &&& a.session_id == b.session_id
    &&& a.launched_at == b.launched_at
    &&& a.working_dir == b.working_dir
    &&& a.full_command == b.full_command
    &&& a.launcher_id == b.launcher_id
    &&& a.launcher_type == b.launcher_type
    &&& a.capabilities == b.capabilities
}

/// Replaces the usage in the record of a session, and notes when. Everything else
/// stays.
pub fn update_session_usage(
    meta: &mut SessionMeta,
    usage: &NameMap<UsageStats>,
    now: Option<u64>,
)
    ensures
        same_launch(*old(meta), *final(meta)),
        final(meta).finished_at == old(meta).finished_at,
        final(meta).usage@ == usage@,
        final(meta).updated_at@ == moment_text(now),
{
    meta.usage = copy_usage(usage);
    meta.updated_at = format_moment(now);
}

/// Closes the record of a session: notes the end and the final usage, and when
/// that was written. Everything else stays.
pub fn finish_session(
    meta: &mut SessionMeta,
    usage: &NameMap<UsageStats>,
    finished: Option<u64>,
    now: Option<u64>,
)
    ensures
        same_launch(*old(meta), *final(meta)),
        final(meta).usage@ == usage@,
        final(meta).finished_at matches Some(end) && end@ == moment_text(finished),
        final(meta).updated_at@ == moment_text(now),
{
    meta.finished_at = Some(format_moment(finished));
    update_session_usage(meta, usage, now);
}

/// The name of the file that keeps the record of a session.
pub fn session_file_name(session_id: &str) -> (r: String)
    ensures
        r@ == session_id@ + ".yaml"@,
{
    let mut name = session_id.to_owned();
    name.append(".yaml");
    name
}

/// The id of a session: the working directory as one file name component, the
/// moment of the launch, and the suffix.
pub open spec fn session_id_text(cwd: Seq<char>, secs: u64, suffix: Seq<char>) -> Seq<char> {
    replaced(cwd, "/"@, PATH_DELIM@) + "@"@ + timestamp_text(secs as nat) + "_"@ + suffix
}

/// Makes the id of a session that is launched now, from the working directory,
/// the clock in seconds and in nanoseconds, the process, and the suffixes that the
/// process has used. The suffix of the new id joins them.
pub fn generate_session_id(
    suffixes: &mut Suffixes,
    cwd: Option<&str>,
    epoch_secs: u64,
    epoch_nanos: u64,
    pid: u32,
) -> (r: String)
    ensures
        final(suffixes)@ == old(suffixes)@.after(epoch_nanos, pid),
        r@ == session_id_text(
            directory_text(cwd),
            epoch_secs,
            suffix_text(old(suffixes)@.number(epoch_nanos, pid)),
        ),
{
    let mut id = replace_any(directory(cwd).as_str(), "/", PATH_DELIM);
    id.append("@");
    id.append(format_utc_timestamp(epoch_secs).as_str());
    id.append("_");
    id.append(short_suffix(suffixes, epoch_nanos, pid).as_str());
    id
}

/// No two sessions that start in the same process have the same id, in whatever
/// directories and at whatever moments they start, as long as there are suffixes left.
/// `launches` has the directory and the clock, in seconds and in nanoseconds, of each.
pub proof fn law_session_ids_differ(
    launches: Seq<(Seq<char>, u64, u64)>,
    pid: u32,
    i: int,
    j: int,
)
    requires
        0 <= i < j < launches.len() <= SUFFIX_COUNT,
    ensures
        ({
            let clock = launches.map_values(|launch: (Seq<char>, u64, u64)| launch.2);
            let start = SuffixesView { counter: 0, used: Seq::empty() };
            session_id_text(
                launches[i].0,
                launches[i].1,
                suffix_text(start.number_of_call(clock, pid, i)),
            ) != session_id_text(
                launches[j].0,
                launches[j].1,
                suffix_text(start.number_of_call(clock, pid, j)),
            )
        }),
{
    let clock = launches.map_values(|launch: (Seq<char>, u64, u64)| launch.2);
    let start = SuffixesView { counter: 0, used: Seq::empty() };
    let a = start.number_of_call(clock, pid, i);
    let b = start.number_of_call(clock, pid, j);
    law_suffixes_differ(start, clock, pid, i, j);
    law_suffix_shape(a);
    law_suffix_shape(b);
    let x = session_id_text(launches[i].0, launches[i].1, suffix_text(a));
    let y = session_id_text(launches[j].0, launches[j].1, suffix_text(b));
    assert(x.skip(x.len() - 8) =~= suffix_text(a));
    assert(y.skip(y.len() - 8) =~= suffix_text(b));
}

/// A link that leads nowhere leaves nothing behind it: without a model there is no
/// model type, without that no provider, and without that no provider type.
pub proof fn law_missing_link_leaves_nothing(capability: CapabilityConfig, config: Config)
    ensures
        ({
            let meta = capability_meta(capability, config);
            &&& meta.model_id is None ==> meta.model_type is None
            &&& meta.model_type is None ==> meta.provider_id is None
            &&& meta.provider_id is None ==> meta.provider_type is None
        }),
{
}

} // verus!
