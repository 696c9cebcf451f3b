//! The launchers: the tools that are started with capabilities bound to them.

pub mod bob;
pub mod hook;
pub mod laws;
pub mod usage;

use std::sync::Arc;
use vstd::prelude::*;
use crate::capabilities::BindingType;
use crate::config::Config;
use crate::shared::share;

verus! {

/// What is known of a launcher type without building one.
#[derive(Debug)]
pub struct LauncherMetadata {
    pub name: String,
    pub description: String,
    pub default_command: String,
    pub supported_capabilities: Vec<BindingType>,
    pub tags: Vec<String>,
}

/// The launchers of one configuration.
pub struct LauncherSource {
    pub config: Arc<Config>,
}

impl LauncherSource {
    /// The launchers of a configuration. Nothing is built yet.
    pub fn from_config(config: &Arc<Config>) -> (r: LauncherSource)
        ensures
            r.config == *config,
    {
        LauncherSource { config: share(config) }
    }
}

} // verus!
