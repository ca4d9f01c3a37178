//! Shared handles.

use std::sync::Arc;
use vstd::prelude::*;

verus! {

/// `Arc::clone`: the handle that comes back points at the value that the
/// given handle points at.
#[verifier::external_body]
pub(crate) fn share<T>(handle: &Arc<T>) -> (other: Arc<T>)
    ensures
        other == *handle,
{
    Arc::clone(handle)
}

} // verus!
