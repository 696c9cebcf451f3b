//! The providers: the services that serve models.

use std::sync::Arc;
use vstd::prelude::*;
use vstd::string::*;
use crate::config::{text_or_none, Config, ProxyHandle};
use crate::models::ModelFunction;
use crate::name_map::NameMap;
use crate::proxy::model_wrapper::ProxiedProvider;
use crate::registry::Named;
use crate::shared::share;
use crate::text::same_text;

verus! {

/// The protocols that a provider can speak.
#[derive(Debug, Clone, Copy, PartialEq, Eq, Structural)]
pub enum ApiType {
    OpenAI,
    Anthropic,
    Ollama,
}

/// A credential.
pub struct Secret(pub String);

/// What is known of a provider type without building one.
#[derive(Debug)]
pub struct ProviderMetadata {
    pub name: String,
    pub description: String,
}

/// The name that a provider knows a model by in the variant that it was configured
/// with.
#[derive(Debug)]
pub struct ModelAlias {
    pub model_id: String,
    pub variant: Option<String>,
    pub name: String,
}

/// Tells whether a name is that of a model in a variant.
pub open spec fn names_model(
    alias: ModelAlias,
    model_id: Seq<char>,
    variant: Option<Seq<char>>,
) -> bool {
    alias.model_id@ == model_id && text_or_none(alias.variant) == variant
}

/// The first name in a list for a model in a variant.
pub open spec fn alias_among(
    aliases: Seq<ModelAlias>,
    model_id: Seq<char>,
    variant: Option<Seq<char>>,
) -> Option<Seq<char>>
    decreases aliases.len(),
{
    if aliases.len() == 0 {
        None
    } else {
        match alias_among(aliases.drop_last(), model_id, variant) {
            Some(name) => Some(name),
            None => if names_model(aliases.last(), model_id, variant) {
                Some(aliases.last().name@)
            } else {
                None
            },
        }
    }
}

/// The name that a provider knows a model by in a variant.
pub open spec fn alias_for(
    provider: ProviderInstance,
    model_id: Seq<char>,
    variant: Option<Seq<char>>,
) -> Option<Seq<char>> {
    alias_among(provider.aliases@, model_id, variant)
}

/// What a text that may be there is.
pub open spec fn str_view(text: Option<&str>) -> Option<Seq<char>> {
    match text {
        Some(s) => Some(s@),
        None => None,
    }
}

/// The text of a string that may be there.
pub fn as_text(text: &Option<String>) -> (r: Option<&str>)
    ensures
        str_view(r) == text_or_none(*text),
{
    match text {
        Some(s) => Some(s.as_str()),
        None => None,
    }
}

/// Tells whether two texts that may be there are the same.
fn same_optional(a: Option<&str>, b: Option<&str>) -> (r: bool)
    ensures
        r == (str_view(a) == str_view(b)),
{
    match (a, b) {
        (Some(x), Some(y)) => same_text(x, y),
        (None, None) => true,
        _ => false,
    }
}

/// Tells whether a provider can run a form of a model.
pub open spec fn runs_form(
    provider: ProviderInstance,
    format: Seq<char>,
    precision: Seq<char>,
) -> bool {
    exists|i: int|
        0 <= i < provider.runnable@.len() && (#[trigger] provider.runnable@[i]).0@ == format
            && provider.runnable@[i].1@ == precision
}

impl ProviderInstance {
    /// The name that the provider knows a model by in a variant.
    pub fn model_alias(&self, model_id: &str, variant: Option<&str>) -> (r: Option<&str>)
        ensures
            str_view(r) == alias_for(*self, model_id@, str_view(variant)),
    {
        let ghost all = self.aliases@;
        let ghost wanted = str_view(variant);
        let mut i: usize = 0;
        proof {
            assert(all.take(0) =~= Seq::<ModelAlias>::empty());
        }
        while i < self.aliases.len()
            invariant
                i <= self.aliases@.len(),
                all == self.aliases@,
                wanted == str_view(variant),
                alias_among(all.take(i as int), model_id@, wanted) is None,
            decreases self.aliases@.len() - i,
        {
            let alias = &self.aliases[i];
            proof {
                let here = all.take(i + 1);
                assert(here.drop_last() =~= all.take(i as int));
                assert(here.last() == *alias);
            }
            if same_text(alias.model_id.as_str(), model_id) && same_optional(
                as_text(&alias.variant),
                variant,
            ) {
                proof {
                    lemma_first_alias_stays(all, model_id@, wanted, i + 1);
                }
                return Some(alias.name.as_str());
            }
            i += 1;
        }
        proof {
            assert(all.take(i as int) =~= all);
        }
        None
    }

    /// Tells whether the provider can run a form of a model, given by its format and
    /// its precision.
    pub fn can_run_model(&self, variant_format: &str, variant_precision: &str) -> (r: bool)
        ensures
            r == runs_form(*self, variant_format@, variant_precision@),
    {
        let mut i: usize = 0;
        while i < self.runnable.len()
            invariant
                i <= self.runnable@.len(),
                forall|j: int|
                    0 <= j < i ==> !((#[trigger] self.runnable@[j]).0@ == variant_format@
                        && self.runnable@[j].1@ == variant_precision@),
            decreases self.runnable@.len() - i,
        {
            let form = &self.runnable[i];
            if same_text(form.0.as_str(), variant_format) && same_text(
                form.1.as_str(),
                variant_precision,
            ) {
                proof {
                    assert(self.runnable@[i as int].0@ == variant_format@);
                }
                return true;
            }
            i += 1;
        }
        false
    }
}

proof fn lemma_first_alias_stays(
    aliases: Seq<ModelAlias>,
    model_id: Seq<char>,
    variant: Option<Seq<char>>,
    n: int,
)
    requires
        0 <= n <= aliases.len(),
        alias_among(aliases.take(n), model_id, variant) is Some,
    ensures
        alias_among(aliases, model_id, variant) == alias_among(aliases.take(n), model_id, variant),
    decreases aliases.len() - n,
{
    if n < aliases.len() {
        assert(aliases.take(n + 1).drop_last() =~= aliases.take(n));
        lemma_first_alias_stays(aliases, model_id, variant, n + 1);
    } else {
        assert(aliases.take(n) =~= aliases);
    }
}

/// A provider that was built from its configuration: how it is reached, and what
/// it can do.
pub struct ProviderInstance {
    pub instance_id: String,
    pub name: String,
    pub base_url: String,
    pub api_key: Option<Secret>,
    pub verify_ssl: bool,
    pub api_types: Vec<ApiType>,
    /// The formats of the models that it can run.
    pub formats: Vec<String>,
    /// The format and the precision of each form of a model that it can run.
    pub runnable: Vec<(String, String)>,
    /// The names that it knows models by, where those are not their ids.
    pub aliases: Vec<ModelAlias>,
    /// The endpoints that serve each function, by their paths.
    pub endpoints: Vec<(ModelFunction, Vec<String>)>,
    /// Headers that go with every request.
    pub custom_headers: Option<NameMap<Secret>>,
}

impl Named for ProviderInstance {
    fn instance_id(&self) -> (r: &str)
        ensures
            r@ == self.instance_id@,
    {
        self.instance_id.as_str()
    }
}

/// The providers of one configuration.
pub struct ProviderSource {
    pub config: Arc<Config>,
    /// The session proxy that every provider handed out points at.
    pub model_proxy: Option<ProxyHandle>,
}

/// A provider as it is handed out: as it is, or through the session proxy.
pub enum HandedOut<'a> {
    Upstream(&'a ProviderInstance),
    Proxied(ProxiedProvider<'a>),
}

/// Tells whether two proxies, if there are any, listen at the same place.
pub open spec fn same_proxy(a: Option<ProxyHandle>, b: Option<ProxyHandle>) -> bool {
    match (a, b) {
        (Some(x), Some(y)) => x.local_base_url@ == y.local_base_url@,
        (None, None) => true,
        _ => false,
    }
}

impl ProviderSource {
    /// The providers of a configuration, handed out through the given proxy.
    pub fn with_proxy(config: &Arc<Config>, model_proxy: Option<ProxyHandle>) -> (r: ProviderSource)
        ensures
            r.config == *config,
            r.model_proxy == model_proxy,
    {
        ProviderSource { config: share(config), model_proxy }
    }

    /// The providers of a configuration, handed out through the proxy that the
    /// configuration names.
    pub fn from_config(config: &Arc<Config>) -> (r: ProviderSource)
        ensures
            r.config == *config,
            same_proxy(r.model_proxy, config.model_proxy),
    {
        let model_proxy = match &config.model_proxy {
            Some(handle) => Some(ProxyHandle { local_base_url: handle.local_base_url.clone() }),
            None => None,
        };
        ProviderSource { config: share(config), model_proxy }
    }

    /// A provider as it is handed out: while there is a session proxy, it points
    /// there. The provider itself keeps its own details, which the routes need.
    pub fn hand_out<'a>(&self, upstream: &'a ProviderInstance) -> (r: HandedOut<'a>)
        ensures
            match self.model_proxy {
                Some(handle) => r matches HandedOut::Proxied(wrapped) && wrapped.inner == upstream
                    && wrapped.local_base_url@ == handle.local_base_url@,
                None => r == HandedOut::Upstream(upstream),
            },
    {
        match &self.model_proxy {
            Some(handle) => HandedOut::Proxied(
                ProxiedProvider::wrap(upstream, handle.local_base_url.clone()),
            ),
            None => HandedOut::Upstream(upstream),
        }
    }
}

impl ProviderSource {
    /// Tells whether there is a provider to hand out under an id.
    pub open spec fn has(self, upstream: Map<Seq<char>, ProviderInstance>, id: Seq<char>) -> bool {
        self.config.providers@.contains_key(id) && upstream.contains_key(id)
    }

    /// The provider that is configured under an id as it is handed out. `upstream` has
    /// the providers that could be built, as they are without the proxy.
    pub fn get<'a>(&self, upstream: &'a NameMap<ProviderInstance>, provider_id: &str) -> (r: Option<
        HandedOut<'a>,
    >)
        ensures
            match r {
                Some(provider) => self.has(upstream@, provider_id@) && provider.shows(
                    upstream@[provider_id@],
                    self.model_proxy,
                ),
                None => !self.has(upstream@, provider_id@),
            },
    {
        if !self.config.providers.contains_key(provider_id) {
            return None;
        }
        match upstream.get(provider_id) {
            Some(provider) => Some(self.hand_out(provider)),
            None => None,
        }
    }

    /// The provider that is configured under an id as it is without the proxy.
    pub fn upstream<'a>(&self, upstream: &'a NameMap<ProviderInstance>, provider_id: &str) -> (r:
        Option<&'a ProviderInstance>)
        ensures
            match r {
                Some(provider) => self.has(upstream@, provider_id@) && *provider
                    == upstream@[provider_id@],
                None => !self.has(upstream@, provider_id@),
            },
    {
        if !self.config.providers.contains_key(provider_id) {
            return None;
        }
        upstream.get(provider_id)
    }
}

impl<'a> HandedOut<'a> {
    /// Tells whether this is a provider, reached through a proxy where there is one.
    pub open spec fn shows(self, provider: ProviderInstance, proxy: Option<ProxyHandle>) -> bool {
        match proxy {
            Some(handle) => self matches HandedOut::Proxied(wrapped) && *wrapped.inner == provider
                && wrapped.local_base_url@ == handle.local_base_url@,
            None => self matches HandedOut::Upstream(inner) && *inner == provider,
        }
    }

    /// The provider behind it.
    pub open spec fn behind(self) -> ProviderInstance {
        match self {
            HandedOut::Upstream(provider) => *provider,
            HandedOut::Proxied(wrapped) => *wrapped.inner,
        }
    }

    /// Where the provider is reached.
    pub open spec fn reached_at(self) -> Seq<char> {
        match self {
            HandedOut::Upstream(provider) => provider.base_url@,
            HandedOut::Proxied(wrapped) => wrapped.local_base_url@,
        }
    }

    /// Where the provider is reached.
    pub fn base_url(&self) -> (r: &str)
        ensures
            r@ == self.reached_at(),
    {
        match self {
            HandedOut::Upstream(provider) => provider.base_url.as_str(),
            HandedOut::Proxied(wrapped) => wrapped.base_url(),
        }
    }
}

} // verus!
