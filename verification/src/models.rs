//! The models that can be configured.

pub mod source;

use vstd::prelude::*;
use vstd::string::*;
use crate::config::Config;
use crate::json::Json;
use crate::registry::{ConfigConstructable, Factory, Named};

verus! {

/// What a model can be asked to do.
#[derive(Debug, Clone, Copy, PartialEq, Eq, Structural)]
pub enum ModelFunction {
    Chat,
    ToolCalling,
    ImageUnderstanding,
    Transcription,
}

/// What a model works on.
#[derive(Debug, Clone, Copy, PartialEq, Eq, Structural)]
pub enum ModelType {
    Text,
    Vision,
    Speech,
}

/// One form in which a model can be had.
#[derive(Debug)]
pub struct ModelVariant {
    pub format: String,
    pub precision: String,
    /// The size in hundredths of a gigabyte, where it is known.
    pub size_centi_gb: Option<u64>,
}

/// What is known of a model type without building one.
#[derive(Debug)]
pub struct ModelMetadata {
    pub family: String,
    pub version: String,
    pub context_length: u64,
    pub model_type: ModelType,
    pub variants: Vec<ModelVariant>,
    pub supported_functions: Vec<ModelFunction>,
}

/// What an implementation of a model type makes of an id and settings.
pub struct ModelCore {
    pub kind: ModelKind,
    pub instance_id: String,
    pub config: Json,
}

/// A model that was built from its configuration.
pub struct BuiltModel {
    pub instance_id: String,
    /// The type that it was built as, by its name.
    pub model_type: String,
    /// The implementation that it was built by.
    pub kind: ModelKind,
    /// The variant that it was configured with.
    pub variant: Option<String>,
    /// Its settings, with those of its provider among them.
    pub config: Json,
    /// Where the session proxy listens that the model is reached through.
    pub proxied_at: Option<String>,
}

impl Named for BuiltModel {
    fn instance_id(&self) -> (r: &str)
        ensures
            r@ == self.instance_id@,
    {
        self.instance_id.as_str()
    }
}

/// A configured model as a capability refers to it.
#[derive(Debug)]
pub struct ConfiguredModel {
    pub model_id: String,
    pub model_type: String,
    pub provider_id: Option<String>,
    pub variant: Option<String>,
}

/// Why there is no model under an id.
pub open spec fn not_configured_text(model_id: Seq<char>) -> Seq<char> {
    "model '"@ + model_id + "' is not configured"@
}

/// Why there is no model under an id.
pub fn not_configured(model_id: &str) -> (r: String)
    ensures
        r@ == not_configured_text(model_id@),
{
    let mut out = "model '".to_owned();
    out.append(model_id);
    out.append("' is not configured");
    out
}

impl ConfiguredModel {
    /// Tells whether this is the model that is configured under an id, or the
    /// message that there is none.
    pub open spec fn resolves(
        model: Result<ConfiguredModel, String>,
        model_id: Seq<char>,
        config: Config,
    ) -> bool {
        match model {
            Ok(model) => {
                &&& config.models@.contains_key(model_id)
                &&& model.model_id == config.models@[model_id].model_id
                &&& model.model_type == config.models@[model_id].model_type
                &&& model.provider_id == config.models@[model_id].provider_id
                &&& model.variant == config.models@[model_id].variant
            },
            Err(message) => !config.models@.contains_key(model_id) && message@
                == not_configured_text(model_id),
        }
    }

    /// The model that is configured under an id.
    pub fn resolve(model_id: &str, config: &Config) -> (r: Result<ConfiguredModel, String>)
        ensures
            ConfiguredModel::resolves(r, model_id@, *config),
    {
        match config.models.get(model_id) {
            Some(entry) => Ok(
                ConfiguredModel {
                    model_id: entry.model_id.clone(),
                    model_type: entry.model_type.clone(),
                    provider_id: match &entry.provider_id {
                        Some(id) => Some(id.clone()),
                        None => None,
                    },
                    variant: match &entry.variant {
                        Some(name) => Some(name.clone()),
                        None => None,
                    },
                },
            ),
            None => Err(not_configured(model_id)),
        }
    }
}

/// The implementations of a model type.
#[derive(Debug, Clone, Copy, PartialEq, Eq, Structural)]
pub enum ModelKind {
    /// A model of the catalog.
    Catalog,
    /// A model that the user describes.
    Custom,
}

impl ConfigConstructable for ModelKind {
    type Built = ModelCore;

    fn construct(&self, instance_id: &str, cfg: &Json, global_config: &Config) -> (built: ModelCore)
        ensures
            built.kind == *self,
            built.instance_id@ == instance_id@,
            built.config.tree() == cfg.tree(),
    {
        ModelCore { kind: *self, instance_id: instance_id.to_owned(), config: cfg.copy() }
    }
}

/// The model types, each under its name.
pub type ModelFactory = Factory<ModelMetadata, ModelKind>;

} // verus!
