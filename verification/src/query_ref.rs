//! Shared handles on outputs.

use std::sync::Arc;
use vstd::prelude::*;

verus! {

/// A shared handle on the output of a query.
pub struct QueryRef<T>(pub Arc<T>);

impl<T> QueryRef<T> {
    /// A handle on `output`.
    pub fn new(output: Arc<T>) -> (handle: QueryRef<T>)
        ensures
            handle.0 == output,
    {
        QueryRef(output)
    }
}

impl<T> std::ops::Deref for QueryRef<T> {
    type Target = T;

    fn deref(&self) -> (target: &T)
        ensures
            *target == *self.0,
    {
        &*self.0
    }
}

} // verus!
