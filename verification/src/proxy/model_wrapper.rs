//! A provider as a launched process sees it through the session proxy.

use vstd::prelude::*;
use vstd::string::*;
use crate::models::ModelFunction;
use crate::name_map::NameMap;
use crate::providers::{alias_for, runs_form, str_view, ApiType, ProviderInstance, Secret};
use crate::registry::Named;

verus! {

/// A provider that is reached through the session proxy. Everything but how it is
/// reached is that of the provider behind the proxy.
pub struct ProxiedProvider<'a> {
    pub inner: &'a ProviderInstance,
    pub local_base_url: String,
}

impl<'a> Named for ProxiedProvider<'a> {
    fn instance_id(&self) -> (r: &str)
        ensures
            r@ == self.inner.instance_id@,
    {
        self.inner.instance_id()
    }
}

impl<'a> ProxiedProvider<'a> {
    /// Points a provider at the proxy that listens on `local_base_url`.
    pub fn wrap(inner: &'a ProviderInstance, local_base_url: String) -> (r: Self)
        ensures
            r.inner == inner,
            r.local_base_url == local_base_url,
    {
        ProxiedProvider { inner, local_base_url }
    }

    /// The name of the provider.
    pub fn name(&self) -> (r: &str)
        ensures
            r@ == self.inner.name@,
    {
        self.inner.name.as_str()
    }

    /// Where the proxy listens.
    pub fn base_url(&self) -> (r: &str)
        ensures
            r@ == self.local_base_url@,
    {
        self.local_base_url.as_str()
    }

    /// No credential: the proxy holds the real one and adds it on the way, so a
    /// launched process never sees it.
    pub fn api_key(&self) -> (r: Option<&Secret>)
        ensures
            r is None,
    {
        None
    }

    /// Always true: the proxy is reached without encryption.
    pub fn verify_ssl(&self) -> (r: bool)
        ensures
            r,
    {
        true
    }

    /// The protocols that the provider speaks.
    pub fn supported_api_types(&self) -> (r: &Vec<ApiType>)
        ensures
            *r == self.inner.api_types,
    {
        &self.inner.api_types
    }

    /// The endpoints that serve each function.
    pub fn function_endpoints(&self) -> (r: &Vec<(ModelFunction, Vec<String>)>)
        ensures
            *r == self.inner.endpoints,
    {
        &self.inner.endpoints
    }

    /// Headers that go with every request.
    pub fn custom_headers(&self) -> (r: Option<&NameMap<Secret>>)
        ensures
            match r {
                Some(headers) => self.inner.custom_headers == Some(*headers),
                None => self.inner.custom_headers is None,
            },
    {
        self.inner.custom_headers.as_ref()
    }

    /// The formats of the models that the provider can run.
    pub fn supported_formats(&self) -> (r: &Vec<String>)
        ensures
            *r == self.inner.formats,
    {
        &self.inner.formats
    }

    /// Tells whether the provider can run a form of a model.
    pub fn can_run_model(&self, variant_format: &str, variant_precision: &str) -> (r: bool)
        ensures
            r == runs_form(*self.inner, variant_format@, variant_precision@),
    {
        self.inner.can_run_model(variant_format, variant_precision)
    }

    /// The name that the provider knows a model by in a variant, so that the route and
    /// what a launched process asks for stay the same.
    pub fn model_alias(&self, model_id: &str, variant: Option<&str>) -> (r: Option<&str>)
        ensures
            str_view(r) == alias_for(*self.inner, model_id@, str_view(variant)),
    {
        self.inner.model_alias(model_id, variant)
    }
}

} // verus!
