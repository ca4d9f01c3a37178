//! Identifiers of evaluation lineages.

use std::sync::atomic::AtomicUsize;
use std::sync::atomic::Ordering;
use std::sync::Arc;
use vstd::prelude::*;

verus! {

/// Names one lineage of evaluation. A query that meets its own lineage in a
/// cell that is still being computed has run into itself.
#[derive(Clone, Copy, Debug, PartialEq, Eq, PartialOrd, Ord, Hash, Structural)]
pub struct ForkId(usize);

impl View for ForkId {
    type V = nat;

    closed spec fn view(&self) -> nat {
        self.0 as nat
    }
}

impl ForkId {
    /// The lineage that follows the counter reading `before`.
    pub fn following(before: usize) -> (id: ForkId)
        ensures
            id@ == crate::revision::ticked(before as nat),
    {
        ForkId(before.wrapping_add(1))
    }

    /// Ticks the shared counter and returns the lineage it then shows.
    pub fn new(counter: &Arc<AtomicUsize>) -> (id: ForkId) {
        let before = counter.fetch_add(1, Ordering::SeqCst);
        ForkId::following(before)
    }

    /// The name of the lineage: `F` and its number.
    pub fn label(&self) -> (text: String)
        ensures
            text@ == seq!['F'] + crate::revision::decimal(self@),
    {
        crate::revision::tagged('F', self.0)
    }

    /// The number of this lineage.
    pub fn value(&self) -> (n: usize)
        ensures
            n == self@,
    {
        self.0
    }
}

impl Default for ForkId {
    /// The lineage of a runtime that nobody forked.
    fn default() -> (id: ForkId)
        ensures
            id@ == 1,
    {
        ForkId(1)
    }
}

} // verus!
