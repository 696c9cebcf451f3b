//! The configuration: the providers, models, capabilities and launchers that
//! the user has set up.

pub mod validation;

use vstd::prelude::*;
use crate::json::Json;
use crate::name_map::NameMap;

verus! {

/// Stands in file names for the separators of a path.
pub const PATH_DELIM: &'static str = "---";

/// A configured provider.
#[derive(Debug)]
pub struct ProviderConfig {
    pub provider_id: String,
    pub provider_type: String,
    pub config: Json,
}

/// A configured model.
#[derive(Debug)]
pub struct ModelConfig {
    pub model_id: String,
    pub model_type: String,
    /// The provider that serves the model, where one was chosen.
    pub provider_id: Option<String>,
    pub variant: Option<String>,
    pub config: Json,
}

/// A text that may be there.
pub open spec fn text_or_none(text: Option<String>) -> Option<Seq<char>> {
    match text {
        Some(s) => Some(s@),
        None => None,
    }
}

/// A configured capability.
#[derive(Debug)]
pub struct CapabilityConfig {
    pub capability_id: String,
    pub capability_type: String,
    pub config: Json,
}

/// A configured launcher.
#[derive(Debug)]
pub struct LauncherConfig {
    pub launcher_id: String,
    pub launcher_type: String,
    /// The capabilities that are bound when the launcher starts.
    pub enabled_capabilities: Vec<String>,
    pub config: Json,
}

/// The proxy that a session sends its model traffic through.
#[derive(Debug)]
pub struct ProxyHandle {
    pub local_base_url: String,
}

/// Everything that is configured, each kind under the ids of its instances.
#[derive(Debug)]
pub struct Config {
    pub providers: NameMap<ProviderConfig>,
    pub models: NameMap<ModelConfig>,
    pub capabilities: NameMap<CapabilityConfig>,
    pub launchers: NameMap<LauncherConfig>,
    pub model_proxy: Option<ProxyHandle>,
}

impl Config {
    /// The configuration with nothing in it.
    pub fn new() -> (r: Config)
        ensures
            r.providers@ == Map::<Seq<char>, ProviderConfig>::empty(),
            r.models@ == Map::<Seq<char>, ModelConfig>::empty(),
            r.capabilities@ == Map::<Seq<char>, CapabilityConfig>::empty(),
            r.launchers@ == Map::<Seq<char>, LauncherConfig>::empty(),
            r.model_proxy is None,
    {
        Config {
            providers: NameMap::new(),
            models: NameMap::new(),
            capabilities: NameMap::new(),
            launchers: NameMap::new(),
            model_proxy: None,
        }
    }
}

} // verus!
