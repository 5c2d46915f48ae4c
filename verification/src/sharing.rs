//! Shared ownership through `Arc`.

use std::sync::Arc;
use vstd::prelude::*;

verus! {

/// Calls [`Arc::clone`], which hands out another pointer to the same value.
#[verifier::external_body]
pub(crate) fn share<T>(owner: &Arc<T>) -> (result: Arc<T>)
    ensures
        result == *owner,
{
    Arc::clone(owner)
}

} // verus!
