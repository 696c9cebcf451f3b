//! Handles that share one value.

use vstd::prelude::*;
use std::sync::Arc;

verus! {

/// `Arc::clone` makes another handle to the same value.
#[verifier::external_body]
pub(crate) fn share<T>(handle: &Arc<T>) -> (r: Arc<T>)
    ensures
        r == *handle,
{
    Arc::clone(handle)
}

} // verus!
