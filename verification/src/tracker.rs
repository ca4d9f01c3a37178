//! The scratch space of one calculation: what it consulted, in order.

use crate::cell::OutputState;
use crate::cell::QueryCell;
use crate::dep::nodes;
use crate::dep::Dep;
use crate::dep::DepNode;
use crate::runtime::Runtime;
use std::sync::Arc;
use vstd::prelude::*;

verus! {

/// Stands between a calculation and the engine and records every cell that
/// the calculation consults.
pub struct QueryTracker {
    runtime: Runtime,
    deps: Vec<Dep>,
}

impl View for QueryTracker {
    type V = Seq<DepNode>;

    /// The records made so far, in the order of consultation.
    closed spec fn view(&self) -> Seq<DepNode> {
        nodes(self.deps@)
    }
}

impl QueryTracker {
    /// The handle through which the calculation reaches the engine.
    pub closed spec fn handle(&self) -> Runtime {
        self.runtime
    }

    /// A tracker for a calculation started by `runtime`. It demands in the
    /// lineage of `runtime` and has recorded nothing.
    pub fn new(runtime: &Runtime) -> (tracker: QueryTracker)
        ensures
            tracker@ == Seq::<DepNode>::empty(),
            tracker.handle().lineage() == runtime.lineage(),
            tracker.handle().shares_clocks(runtime),
    {
        let tracker = QueryTracker { runtime: runtime.fork_no_inc(), deps: Vec::new() };
        assert(tracker@ =~= Seq::<DepNode>::empty());
        tracker
    }

    /// The handle through which the calculation reaches the engine.
    pub fn runtime(&self) -> (runtime: &Runtime)
        ensures
            *runtime == self.handle(),
    {
        &self.runtime
    }

    /// Appends a record.
    pub fn add_dep(&mut self, dep: Dep)
        ensures
            final(self)@ == old(self)@.push(dep@),
            final(self).handle() == old(self).handle(),
    {
        self.deps.push(dep);
        assert(self@ =~= old(self)@.push(dep@));
    }

    /// Records the consultation of `cell` and hands out its value.
    pub fn track<V>(&mut self, cell: QueryCell<V>) -> (value: Arc<V>)
        requires
            cell@.output is Calculated,
        ensures
            final(self)@ == old(self)@.push(cell@.as_dep()),
            final(self).handle() == old(self).handle(),
            cell@.output == OutputState::Calculated(*value),
    {
        let dep = cell.as_dep();
        self.add_dep(dep);
        cell.output().unwrap()
    }

    /// The records, once the calculation is over.
    pub fn into_deps(self) -> (deps: Vec<Dep>)
        ensures
            nodes(deps@) == self@,
    {
        self.deps
    }
}

} // verus!
