//! The four sources of one configuration, which are built and handed out together,
//! so that a name leads to one instance however it is reached.

pub mod laws;

use std::sync::Arc;
use vstd::prelude::*;
use vstd::string::*;
use crate::capabilities::source::CapabilitySource;
use crate::config::{Config, ProxyHandle};
use crate::launchers::LauncherSource;
use crate::models::source::ModelSource;
use crate::providers::{HandedOut, ProviderInstance, ProviderSource};
use crate::registry::{ConstructError, Registries};
use crate::shared::share;

verus! {

/// Why a source cannot hand out the instance that a name stands for.
#[derive(Debug, PartialEq, Eq)]
pub enum SourceError {
    /// Nothing is configured under the id.
    NotConfigured,
    /// Something is configured, and making it failed.
    Construct(ConstructError),
}

/// A failure in words, about the instance of a kind under an id.
pub open spec fn failure_text(error: SourceError, kind: Seq<char>, id: Seq<char>) -> Seq<char> {
    match error {
        SourceError::NotConfigured => kind + " '"@ + id + "' is not configured"@,
        SourceError::Construct(ConstructError::UnknownType { type_key }) => kind + " '"@ + id
            + "' has an unknown "@ + kind + " type '"@ + type_key@ + "'"@,
        SourceError::Construct(ConstructError::Settings { detail }) => "the settings for "@ + kind
            + " '"@ + id + "' are not valid: "@ + detail@,
    }
}

impl SourceError {
    /// The failure in words, about the instance of a kind under an id. The wording
    /// is the same for all kinds.
    pub fn about(&self, kind: &str, instance_id: &str) -> (r: String)
        ensures
            r@ == failure_text(*self, kind@, instance_id@),
    {
        let mut out = String::new();
        match self {
            SourceError::NotConfigured => {
                out.append(kind);
                out.append(" '");
                out.append(instance_id);
                out.append("' is not configured");
            },
            SourceError::Construct(ConstructError::UnknownType { type_key }) => {
                out.append(kind);
                out.append(" '");
                out.append(instance_id);
                out.append("' has an unknown ");
                out.append(kind);
                out.append(" type '");
                out.append(type_key.as_str());
                out.append("'");
            },
            SourceError::Construct(ConstructError::Settings { detail }) => {
                out.append("the settings for ");
                out.append(kind);
                out.append(" '");
                out.append(instance_id);
                out.append("' are not valid: ");
                out.append(detail.as_str());
            },
        }
        proof {
            assert(out@ =~= failure_text(*self, kind@, instance_id@));
        }
        out
    }
}

impl From<ConstructError> for SourceError {
    fn from(error: ConstructError) -> (r: SourceError) {
        SourceError::Construct(error)
    }
}

impl vstd::std_specs::convert::FromSpecImpl<ConstructError> for SourceError {
    open spec fn obeys_from_spec() -> bool {
        true
    }

    open spec fn from_spec(error: ConstructError) -> SourceError {
        SourceError::Construct(error)
    }
}

/// One source for each kind. Capabilities get their models from the models here,
/// and those their providers from the providers here.
pub struct Sources {
    providers: Arc<ProviderSource>,
    models: Arc<ModelSource>,
    capabilities: Arc<CapabilitySource>,
    launchers: Arc<LauncherSource>,
}

impl Sources {
    /// The source of the providers.
    pub closed spec fn provider_source(self) -> Arc<ProviderSource> {
        self.providers
    }

    /// The source of the models.
    pub closed spec fn model_source(self) -> Arc<ModelSource> {
        self.models
    }

    /// The source of the capabilities.
    pub closed spec fn capability_source(self) -> Arc<CapabilitySource> {
        self.capabilities
    }

    /// The source of the launchers.
    pub closed spec fn launcher_source(self) -> Arc<LauncherSource> {
        self.launchers
    }

    /// Builds the sources of a configuration, and no instance. `model_proxy` is the
    /// session proxy that the providers handed out point at.
    pub fn build(
        config: &Arc<Config>,
        registries: &Arc<Registries>,
        model_proxy: Option<ProxyHandle>,
    ) -> (r: Sources)
        ensures
            r.provider_source().config == *config,
            r.provider_source().model_proxy == model_proxy,
            r.model_source().config == *config,
            r.model_source().registries == *registries,
            r.model_source().providers == r.provider_source(),
            r.capability_source().config == *config,
            r.capability_source().registries == *registries,
            r.capability_source().models == r.model_source(),
            r.launcher_source().config == *config,
    {
        let providers = Arc::new(ProviderSource::with_proxy(config, model_proxy));
        let models = Arc::new(ModelSource::with_providers(config, registries, share(&providers)));
        let capabilities = Arc::new(
            CapabilitySource::with_models(config, registries, share(&models)),
        );
        Sources {
            providers,
            models,
            capabilities,
            launchers: Arc::new(LauncherSource::from_config(config)),
        }
    }

    /// Another handle on the same four sources.
    pub fn share(&self) -> (r: Sources)
        ensures
            r == *self,
    {
        Sources {
            providers: share(&self.providers),
            models: share(&self.models),
            capabilities: share(&self.capabilities),
            launchers: share(&self.launchers),
        }
    }

    /// The source of the providers.
    pub fn providers(&self) -> (r: Arc<ProviderSource>)
        ensures
            r == self.provider_source(),
    {
        share(&self.providers)
    }

    /// The source of the models.
    pub fn models(&self) -> (r: Arc<ModelSource>)
        ensures
            r == self.model_source(),
    {
        share(&self.models)
    }

    /// The source of the capabilities.
    pub fn capabilities(&self) -> (r: Arc<CapabilitySource>)
        ensures
            r == self.capability_source(),
    {
        share(&self.capabilities)
    }

    /// The source of the launchers.
    pub fn launchers(&self) -> (r: Arc<LauncherSource>)
        ensures
            r == self.launcher_source(),
    {
        share(&self.launchers)
    }
}

/// A model's provider and the provider under the same id are one, reached at the same
/// place, whether it comes through the source of the models or that of the providers.
pub proof fn law_one_provider_either_way(
    sources: Sources,
    upstream: Map<Seq<char>, ProviderInstance>,
    model_id: Seq<char>,
    through_model: HandedOut<'_>,
    by_id: HandedOut<'_>,
)
    requires
        sources.model_source().providers == sources.provider_source(),
        sources.model_source().names_provider(model_id) is Some,
        ({
            let id = sources.model_source().names_provider(model_id)->0;
            &&& through_model.shows(
                upstream[id],
                sources.model_source().providers.model_proxy,
            )
            &&& by_id.shows(upstream[id], sources.provider_source().model_proxy)
        }),
    ensures
        through_model.behind() == by_id.behind(),
        through_model.reached_at() == by_id.reached_at(),
{
}

} // verus!
