//! The steps of a demand: what the engine does between two pieces of outside
//! work (a user's calculation, a wait on a latch).

use crate::cell::CellState;
use crate::cell::CycleDetection;
use crate::cell::Detected;
use crate::cell::OutputState;
use crate::cell::QueryCell;
use crate::dep::completion_rev;
use crate::dep::last_rev;
use crate::dep::lemma_completion_rev_dominates;
use crate::dep::nodes;
use crate::dep::Dep;
use crate::dep::DepIdx;
use crate::dep::DepNode;
use crate::fork::ForkId;
use crate::invalidation::Invalidation;
use crate::reservation::Latch;
use crate::reservation::Reservation;
use crate::reservation::ReservationReader;
use crate::revision::Revision;
use crate::shared::share;
use crate::table::QueriesMap;
use crate::table::TableState;
use std::any::TypeId;
use std::hash::Hash;
use std::sync::atomic::AtomicUsize;
use std::sync::Arc;
use vstd::prelude::*;

verus! {

/// What a demand has to do next.
pub enum QueryStep<V> {
    /// The cell was reserved for this demand: run the calculation, then hand
    /// its value to [`QueriesMap::complete_query`].
    Compute(Reservation),
    /// Another lineage computes the cell: wait on the latch, then begin
    /// again.
    Wait(ReservationReader),
    /// The demand met itself: put the query's placeholder into the cell with
    /// [`QueryCell::on_cycle`] and return it.
    Cycle(QueryCell<V>),
    /// The cell holds a value that depends on nothing: return it.
    Ready(QueryCell<V>),
    /// The cell holds a value with dependencies: walk them, then hand the
    /// finding to [`QueriesMap::conclude_query`].
    Validate(QueryCell<V>),
}

/// What a demand does next, as a function of the table alone.
pub enum Plan {
    Compute,
    Wait(Latch),
    Cycle,
    Ready,
    Validate,
}

/// How a demand ends once its dependencies were walked.
pub enum Conclusion<V> {
    /// A dependency gave a new value; the cell was reserved anew: run the
    /// calculation.
    Recompute(Reservation),
    /// The cached cell stands.
    Done(QueryCell<V>),
}

impl<Q, V> TableState<Q, V> {
    /// What a demand of `key` by lineage `fork` at revision `rev` does next.
    /// A key without a cell is computed. A cell that is being computed is a
    /// cycle where the lineage and the revision are the demand's own, a
    /// leftover to compute anew where the revision is another, and a reason
    /// to wait otherwise. A cell with a value is ready where it depends on
    /// nothing, and is validated otherwise.
    pub open spec fn plan(self, query_type: TypeId, key: Q, fork: ForkId, rev: Revision) -> Plan {
        let storage = self.storage(query_type);
        if !storage.contains(key) {
            Plan::Compute
        } else {
            match storage.cell_of(key).output.detect(fork, rev) {
                Detected::CycleDetected => Plan::Cycle,
                Detected::Locked(latch) => Plan::Wait(latch),
                Detected::Canceled => Plan::Compute,
                Detected::Ready => if storage.cell_of(key).deps.len() == 0 {
                    Plan::Ready
                } else {
                    Plan::Validate
                },
            }
        }
    }
}

impl<Q, V> TableState<Q, V> {
    /// Whether `after` and `step` are what the first step of a demand of
    /// `key` by lineage `fork` at revision `rev` leaves of this table. The
    /// storage of `query_type` exists afterwards. Where the plan is to
    /// compute, the cell is reserved and `step` holds the reservation;
    /// otherwise the cells are as they were, and `step` holds the latch to
    /// wait on or the cell as it was read.
    pub open spec fn begun(
        self,
        after: TableState<Q, V>,
        query_type: TypeId,
        key: Q,
        fork: ForkId,
        rev: Revision,
        step: QueryStep<V>,
    ) -> bool {
        match self.plan(query_type, key, fork, rev) {
            Plan::Compute => step matches QueryStep::Compute(holder) && after == self.reserved(
                query_type,
                key,
                fork,
                rev,
                holder.latch(),
            ),
            Plan::Wait(latch) => step matches QueryStep::Wait(lock) && lock.latch() == latch
                && after == self.ensured(query_type),
            Plan::Cycle => step matches QueryStep::Cycle(cell) && cell@ == self.storage(
                query_type,
            ).cell_of(key) && after == self.ensured(query_type),
            Plan::Ready => step matches QueryStep::Ready(cell) && cell@ == self.storage(
                query_type,
            ).cell_of(key) && after == self.ensured(query_type),
            Plan::Validate => step matches QueryStep::Validate(cell) && cell@ == self.storage(
                query_type,
            ).cell_of(key) && after == self.ensured(query_type),
        }
    }

    /// Whether `after` and `conclusion` are what the end of a demand leaves
    /// of this table, once the walk over the dependencies of the cached
    /// `cell` has found `found`. `Outdated`: the cell is reserved anew.
    /// `Revisioned`: the cell in the table is re-dated; the demand ends with
    /// `cell` as it was read. `Fresh`: nothing changes.
    pub open spec fn concluded(
        self,
        after: TableState<Q, V>,
        query_type: TypeId,
        key: Q,
        cell: CellState<V>,
        found: Invalidation,
        fork: ForkId,
        current_rev: Revision,
        conclusion: Conclusion<V>,
    ) -> bool {
        match found {
            Invalidation::Outdated(_, _) => conclusion matches Conclusion::Recompute(holder)
                && after == self.reserved(query_type, key, fork, current_rev, holder.latch()),
            Invalidation::Revisioned(rev, caused_by) => conclusion matches Conclusion::Done(out)
                && out@ == cell && after == self.redated(
                DepIdx { query_type, query_idx: cell.idx.query_idx },
                caused_by,
                rev,
            ),
            Invalidation::Fresh => conclusion matches Conclusion::Done(out) && out@ == cell
                && after == self,
        }
    }
}

impl<Q: Hash + Eq, V> QueriesMap<Q, V> {
    /// Installs the value of an input at the revision `rev` minted for it:
    /// the cell of `query` holds `data`, is dated `rev` and depends on
    /// nothing.
    pub fn set_input(&mut self, query_type: TypeId, query: Arc<Q>, data: V, rev: Revision)
        requires
            old(self).wf(),
        ensures
            final(self).wf(),
            final(self)@ == old(self)@.placed(
                query_type,
                *query,
                OutputState::Calculated(data),
                rev,
                Seq::empty(),
            ),
            old(self)@.dominant() ==> final(self)@.dominant(),
    {
        let _ = self.insert_calculated(query_type, query, data, rev, Vec::new());
        proof {
            assert(nodes(Seq::<Dep>::empty()) =~= Seq::<DepNode>::empty());
        }
    }

    /// The first step of a demand of `query` by lineage `fork` at
    /// `current_rev`. The storage of `query_type` is made where there is
    /// none. Where the plan is to compute, the cell is reserved.
    pub fn begin_query(&mut self, query_type: TypeId, query: Arc<Q>, fork: ForkId, current_rev: Revision) -> (step:
        QueryStep<V>)
        requires
            old(self).wf(),
        ensures
            final(self).wf(),
            old(self)@.begun(final(self)@, query_type, *query, fork, current_rev, step),
            old(self)@.dominant() ==> final(self)@.dominant(),
    {
        if !self.contains_query(&query_type, &query) {
            return QueryStep::Compute(self.reserve(query_type, query, fork, current_rev));
        }
        let cell = self.get(&query_type, &query).clone();
        proof {
            self.lemma_wf();
            assert(self@.storages =~= self@.ensured(query_type).storages);
        }
        match cell.detect_cycle_or_lock(fork, current_rev) {
            CycleDetection::Locked(lock) => QueryStep::Wait(lock),
            CycleDetection::CycleDetected => QueryStep::Cycle(cell),
            CycleDetection::Canceled => QueryStep::Compute(
                self.reserve(query_type, query, fork, current_rev),
            ),
            CycleDetection::Ready => {
                if cell.deps().len() == 0 {
                    QueryStep::Ready(cell)
                } else {
                    QueryStep::Validate(cell)
                }
            },
        }
    }

    /// The last step of a calculation: the cell of `query` takes the value
    /// `output` and the dependencies `deps` that the calculation recorded. It
    /// is dated with the newest revision that they observed, and with
    /// `current_rev` where there are none. Returns the cell as written.
    pub fn complete_query(
        &mut self,
        query_type: TypeId,
        query: Arc<Q>,
        output: V,
        current_rev: Revision,
        deps: Vec<Dep>,
    ) -> (cell: QueryCell<V>)
        requires
            old(self).wf(),
        ensures
            final(self).wf(),
            final(self)@ == old(self)@.placed(
                query_type,
                *query,
                OutputState::Calculated(output),
                completion_rev(nodes(deps@), current_rev),
                nodes(deps@),
            ),
            final(self)@.storage(query_type).contains(*query),
            cell@ == final(self)@.storage(query_type).cell_of(*query),
            cell@.output == OutputState::Calculated(output),
            cell@.rev == completion_rev(nodes(deps@), current_rev),
            cell@.deps == nodes(deps@),
            cell@.dominates_deps(),
            old(self)@.dominant() ==> final(self)@.dominant(),
    {
        let rev = match last_rev(deps.as_slice()) {
            Some(rev) => rev,
            None => current_rev,
        };
        proof {
            lemma_completion_rev_dominates(nodes(deps@), current_rev);
        }
        self.insert_calculated(query_type, query, output, rev, deps)
    }

    /// The step after the walk over the dependencies of the cached `cell` of
    /// `query`. `Outdated`: the cell is reserved anew and must be computed.
    /// `Revisioned`: the cell in the table is re-dated and keeps its value;
    /// `cell` is returned as it was read. `Fresh`: nothing changes.
    pub fn conclude_query(
        &mut self,
        query_type: TypeId,
        query: Arc<Q>,
        cell: QueryCell<V>,
        found: Invalidation,
        fork: ForkId,
        current_rev: Revision,
    ) -> (conclusion: Conclusion<V>)
        requires
            old(self).wf(),
            found is Revisioned ==> old(self)@.has_cell(
                DepIdx { query_type, query_idx: cell@.idx.query_idx },
            ),
        ensures
            final(self).wf(),
            old(self)@.concluded(
                final(self)@,
                query_type,
                *query,
                cell@,
                found,
                fork,
                current_rev,
                conclusion,
            ),
            old(self)@.dominant() && (found matches Invalidation::Revisioned(rev, _) ==> old(self)@.cell(DepIdx { query_type, query_idx: cell@.idx.query_idx }).rev@ <= rev@)
                ==> final(self)@.dominant(),
    {
        match found {
            Invalidation::Outdated(_, _) => Conclusion::Recompute(
                self.reserve(query_type, query, fork, current_rev),
            ),
            Invalidation::Revisioned(rev, caused_by) => {
                self.update_rev(query_type, cell.idx(), caused_by, rev);
                Conclusion::Done(cell)
            },
            Invalidation::Fresh => Conclusion::Done(cell),
        }
    }
}

/// One evaluator's handle on the engine: the two clocks, which all handles
/// share, and the lineage of this evaluator.
pub struct Runtime {
    rev_counter: Arc<AtomicUsize>,
    fork_counter: Arc<AtomicUsize>,
    fork_id: ForkId,
}

impl Runtime {
    /// The lineage of this evaluator.
    pub closed spec fn lineage(&self) -> ForkId {
        self.fork_id
    }

    /// Whether both handles read the same clocks.
    pub closed spec fn shares_clocks(&self, other: &Runtime) -> bool {
        self.rev_counter == other.rev_counter && self.fork_counter == other.fork_counter
    }

    /// A handle on a new engine.
    pub fn new() -> (runtime: Runtime)
        ensures
            runtime.lineage()@ == 1,
    {
        Runtime {
            rev_counter: Arc::new(AtomicUsize::new(0)),
            fork_counter: Arc::new(AtomicUsize::new(0)),
            fork_id: ForkId::default(),
        }
    }

    /// The lineage of this evaluator.
    pub fn fork_id(&self) -> (id: ForkId)
        ensures
            id == self.lineage(),
    {
        self.fork_id
    }

    /// The present revision.
    pub fn current_rev(&self) -> Revision {
        Revision::current(&self.rev_counter)
    }

    /// A handle of the lineage `fork_id` on the same engine.
    pub fn forked_as(&self, fork_id: ForkId) -> (fork: Runtime)
        ensures
            fork.lineage() == fork_id,
            fork.shares_clocks(self),
    {
        Runtime {
            rev_counter: share(&self.rev_counter),
            fork_counter: share(&self.fork_counter),
            fork_id,
        }
    }

    /// A handle of the same lineage. Dependency tracking uses it, so that a
    /// query that demands itself through its tracker is found out.
    pub fn fork_no_inc(&self) -> (fork: Runtime)
        ensures
            fork.lineage() == self.lineage(),
            fork.shares_clocks(self),
    {
        self.forked_as(self.fork_id)
    }

    /// A handle of a lineage of its own, for a computation that runs beside
    /// this one. The lineage is the next that the shared counter gives.
    pub fn fork_inner(&self) -> (fork: Runtime)
        ensures
            fork.shares_clocks(self),
    {
        self.forked_as(ForkId::new(&self.fork_counter))
    }

    /// The value and the revision of a cell that a demand returned.
    pub fn query_rev<V>(cell: QueryCell<V>) -> (out: (Arc<V>, Revision))
        requires
            cell@.output is Calculated,
        ensures
            cell@.output == OutputState::Calculated(*out.0),
            out.1 == cell@.rev,
    {
        let rev = cell.rev();
        (cell.output().unwrap(), rev)
    }

    /// Installs the value of an input: ticks the clock and writes the value
    /// at the revision that the clock then shows.
    pub fn set_input<Q: Hash + Eq, V>(
        &self,
        queries: &mut QueriesMap<Q, V>,
        query_type: TypeId,
        query: Arc<Q>,
        data: V,
    )
        requires
            old(queries).wf(),
        ensures
            final(queries).wf(),
            exists|rev: Revision|
                final(queries)@ == #[trigger] old(queries)@.placed(
                    query_type,
                    *query,
                    OutputState::Calculated(data),
                    rev,
                    Seq::empty(),
                ),
    {
        let rev = Revision::new(&self.rev_counter);
        queries.set_input(query_type, query, data, rev);
    }

    /// The first step of a demand of `query` by this lineage, at the
    /// revision that the clock shows, which is returned with the step.
    pub fn begin_query<Q: Hash + Eq, V>(
        &self,
        queries: &mut QueriesMap<Q, V>,
        query_type: TypeId,
        query: Arc<Q>,
    ) -> (begun: (QueryStep<V>, Revision))
        requires
            old(queries).wf(),
        ensures
            final(queries).wf(),
            old(queries)@.begun(
                final(queries)@,
                query_type,
                *query,
                self.lineage(),
                begun.1,
                begun.0,
            ),
    {
        let current_rev = self.current_rev();
        (queries.begin_query(query_type, query, self.fork_id, current_rev), current_rev)
    }

    /// The end of a demand by this lineage whose dependencies were walked.
    pub fn conclude_query<Q: Hash + Eq, V>(
        &self,
        queries: &mut QueriesMap<Q, V>,
        query_type: TypeId,
        query: Arc<Q>,
        cell: QueryCell<V>,
        found: Invalidation,
        current_rev: Revision,
    ) -> (conclusion: Conclusion<V>)
        requires
            old(queries).wf(),
            found is Revisioned ==> old(queries)@.has_cell(
                DepIdx { query_type, query_idx: cell@.idx.query_idx },
            ),
        ensures
            final(queries).wf(),
            old(queries)@.concluded(
                final(queries)@,
                query_type,
                *query,
                cell@,
                found,
                self.lineage(),
                current_rev,
                conclusion,
            ),
    {
        queries.conclude_query(query_type, query, cell, found, self.fork_id, current_rev)
    }

    /// Reserves the cell of `query` for this lineage.
    pub fn reserve_query<Q: Hash + Eq, V>(
        &self,
        queries: &mut QueriesMap<Q, V>,
        query_type: TypeId,
        query: Arc<Q>,
        current_rev: Revision,
    ) -> (holder: Reservation)
        requires
            old(queries).wf(),
        ensures
            final(queries).wf(),
            final(queries)@ == old(queries)@.reserved(
                query_type,
                *query,
                self.lineage(),
                current_rev,
                holder.latch(),
            ),
    {
        queries.reserve(query_type, query, self.fork_id, current_rev)
    }
}

impl Default for Runtime {
    fn default() -> (runtime: Runtime)
        ensures
            runtime.lineage()@ == 1,
    {
        Runtime::new()
    }
}

} // verus!
