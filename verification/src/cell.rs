//! The cache entry of one query key.

use crate::dep::duplicate_deps;
use crate::dep::nodes;
use crate::dep::Dep;
use crate::dep::DepIdx;
use crate::dep::DepNode;
use crate::fork::ForkId;
use crate::reservation::Latch;
use crate::reservation::ReservationReader;
use crate::revision::Revision;
use crate::shared::share;
use std::sync::Arc;
use vstd::prelude::*;

verus! {

/// What an evaluator that meets a cell has to do before it may read it.
pub enum CycleDetection {
    /// The cell is being computed by this very lineage at this revision: the
    /// query demanded itself.
    CycleDetected,
    /// The cell is being computed by another lineage: wait on its latch.
    Locked(ReservationReader),
    /// The cell was reserved at another revision and its computation was
    /// given up: reserve it anew.
    Canceled,
    /// The cell holds a value.
    Ready,
}

/// The output of a cell: a value, or the mark of a computation in flight.
pub enum QueryOutput<V> {
    Calculating(ForkId, Revision, ReservationReader),
    Calculated(Arc<V>),
}

/// The mathematical content of a [`QueryOutput`].
pub enum OutputState<V> {
    Calculating(ForkId, Revision, Latch),
    Calculated(V),
}

impl<V> View for QueryOutput<V> {
    type V = OutputState<V>;

    open spec fn view(&self) -> OutputState<V> {
        match *self {
            QueryOutput::Calculating(fork, rev, lock) => OutputState::Calculating(
                fork,
                rev,
                lock.latch(),
            ),
            QueryOutput::Calculated(value) => OutputState::Calculated(*value),
        }
    }
}

impl<V> OutputState<V> {
    /// What an evaluator of lineage `fork` at revision `rev` finds when it
    /// meets a cell in this state.
    pub open spec fn detect(self, fork: ForkId, rev: Revision) -> Detected {
        match self {
            OutputState::Calculated(_) => Detected::Ready,
            OutputState::Calculating(by, at, latch) => {
                if by == fork && at == rev {
                    Detected::CycleDetected
                } else if at != rev {
                    Detected::Canceled
                } else {
                    Detected::Locked(latch)
                }
            },
        }
    }
}

/// The mathematical content of a [`CycleDetection`].
pub enum Detected {
    CycleDetected,
    Locked(Latch),
    Canceled,
    Ready,
}

impl View for CycleDetection {
    type V = Detected;

    open spec fn view(&self) -> Detected {
        match *self {
            CycleDetection::CycleDetected => Detected::CycleDetected,
            CycleDetection::Locked(lock) => Detected::Locked(lock.latch()),
            CycleDetection::Canceled => Detected::Canceled,
            CycleDetection::Ready => Detected::Ready,
        }
    }
}

impl<V> QueryOutput<V> {
    /// The value, of an output that holds one.
    pub fn unwrap(self) -> (value: Arc<V>)
        requires
            self is Calculated,
        ensures
            self@ == OutputState::Calculated(*value),
    {
        match self {
            QueryOutput::Calculated(out) => out,
            QueryOutput::Calculating(..) => vstd::pervasive::unreached(),
        }
    }

    /// The value, of an output that holds one.
    pub fn unwrap_ref(&self) -> (value: &Arc<V>)
        requires
            self is Calculated,
        ensures
            self@ == OutputState::Calculated(**value),
    {
        match self {
            QueryOutput::Calculated(out) => out,
            QueryOutput::Calculating(..) => vstd::pervasive::unreached(),
        }
    }

    /// Whether the output holds a value.
    pub fn is_calculated(&self) -> (b: bool)
        ensures
            b == (self is Calculated),
    {
        match self {
            QueryOutput::Calculated(_) => true,
            QueryOutput::Calculating(..) => false,
        }
    }
}

impl<V> Clone for QueryOutput<V> {
    /// Another handle on the same output.
    fn clone(&self) -> (copy: QueryOutput<V>)
        ensures
            copy@ == self@,
    {
        match self {
            QueryOutput::Calculated(out) => QueryOutput::Calculated(share(out)),
            QueryOutput::Calculating(fork, rev, lock) => QueryOutput::Calculating(
                *fork,
                *rev,
                lock.clone(),
            ),
        }
    }
}

/// The cached record of one query key.
pub struct QueryCell<V> {
    output: QueryOutput<V>,
    idx: DepIdx,
    rev: Revision,
    deps: Vec<Dep>,
}

/// The mathematical content of a [`QueryCell`].
pub struct CellState<V> {
    /// The value, or the mark of the computation in flight.
    pub output: OutputState<V>,
    /// Which cell this is.
    pub idx: DepIdx,
    /// The revision at which the output was produced or last found valid.
    pub rev: Revision,
    /// What the computation of the output consulted, in order.
    pub deps: Seq<DepNode>,
}

impl<V> View for QueryCell<V> {
    type V = CellState<V>;

    closed spec fn view(&self) -> CellState<V> {
        CellState { output: self.output@, idx: self.idx, rev: self.rev, deps: nodes(self.deps@) }
    }
}

impl<V> CellState<V> {
    /// The revision of the cell is not older than what any of its top-level
    /// dependencies observed.
    pub open spec fn dominates_deps(self) -> bool {
        forall|i: int| 0 <= i < self.deps.len() ==> (#[trigger] self.deps[i]).rev@ <= self.rev@
    }

    /// The record that a consultation of this cell leaves behind.
    pub open spec fn as_dep(self) -> DepNode {
        DepNode { idx: self.idx, rev: self.rev, children: self.deps }
    }

    /// The cell after a change of `caused_by` became known at `rev`.
    pub open spec fn redated(self, caused_by: DepIdx, rev: Revision) -> CellState<V> {
        CellState {
            output: self.output,
            idx: self.idx,
            rev,
            deps: Seq::new(self.deps.len(), |i: int| self.deps[i].redated(caused_by, rev)),
        }
    }

    /// The cell with the given value in place of its output.
    pub open spec fn with_value(self, value: V) -> CellState<V> {
        CellState { output: OutputState::Calculated(value), ..self }
    }
}

impl<V> QueryCell<V> {
    /// A cell that holds a value.
    pub fn calculated(output: Arc<V>, rev: Revision, idx: DepIdx, deps: Vec<Dep>) -> (cell:
        QueryCell<V>)
        ensures
            cell@ == (CellState {
                output: OutputState::Calculated(*output),
                idx,
                rev,
                deps: nodes(deps@),
            }),
    {
        QueryCell { output: QueryOutput::Calculated(output), rev, idx, deps }
    }

    /// A cell whose value is being computed by `fork` since `rev`.
    pub fn calculating(fork: ForkId, rev: Revision, idx: DepIdx, lock: ReservationReader) -> (cell:
        QueryCell<V>)
        ensures
            cell@ == (CellState {
                output: OutputState::<V>::Calculating(fork, rev, lock.latch()),
                idx,
                rev,
                deps: Seq::<DepNode>::empty(),
            }),
    {
        let cell = QueryCell { output: QueryOutput::Calculating(fork, rev, lock), rev, idx, deps: Vec::new() };
        assert(cell@.deps =~= Seq::<DepNode>::empty());
        cell
    }

    /// A cell with the given output.
    pub(crate) fn with_output(output: QueryOutput<V>, rev: Revision, idx: DepIdx, deps: Vec<Dep>) -> (cell:
        QueryCell<V>)
        ensures
            cell@ == (CellState { output: output@, idx, rev, deps: nodes(deps@) }),
    {
        QueryCell { output, rev, idx, deps }
    }

    /// Replaces all that the cell holds but its identity.
    pub(crate) fn overwrite(&mut self, output: QueryOutput<V>, rev: Revision, deps: Vec<Dep>)
        ensures
            final(self)@ == (CellState {
                output: output@,
                idx: old(self)@.idx,
                rev,
                deps: nodes(deps@),
            }),
    {
        self.output = output;
        self.rev = rev;
        self.deps = deps;
    }

    /// Replaces the value of the cell.
    pub(crate) fn set_value(&mut self, value: V)
        ensures
            final(self)@ == old(self)@.with_value(value),
    {
        self.output = QueryOutput::Calculated(Arc::new(value));
    }

    /// The value of a cell that holds one.
    pub fn value(&self) -> (value: &Arc<V>)
        requires
            self@.output is Calculated,
        ensures
            self@.output == OutputState::Calculated(**value),
    {
        self.output.unwrap_ref()
    }

    /// The output of the cell.
    pub fn output(self) -> (output: QueryOutput<V>)
        ensures
            output@ == self@.output,
    {
        self.output
    }

    /// The revision at which the output was produced or last found valid.
    pub fn rev(&self) -> (rev: Revision)
        ensures
            rev == self@.rev,
    {
        self.rev
    }

    /// The cell's position in the storage of its type.
    pub fn idx(&self) -> (idx: usize)
        ensures
            idx == self@.idx.query_idx,
    {
        self.idx.query_idx
    }

    /// The record that a consultation of this cell leaves behind: the
    /// cell's identity, its present revision and a copy of its dependencies.
    pub fn as_dep(&self) -> (dep: Dep)
        ensures
            dep@ == self@.as_dep(),
    {
        let children = duplicate_deps(self.deps.as_slice());
        Dep::new(self.idx, self.rev, children)
    }

    /// What the computation of the output consulted, in order.
    pub fn deps(&self) -> (deps: &[Dep])
        ensures
            nodes(deps@) == self@.deps,
    {
        self.deps.as_slice()
    }

    /// Whether the cell holds a value.
    pub fn is_calculated(&self) -> (b: bool)
        ensures
            b == (self@.output is Calculated),
    {
        self.output.is_calculated()
    }

    /// Puts the placeholder that the query offers for a cycle in place of the
    /// output.
    pub fn on_cycle(&mut self, placeholder: V)
        ensures
            final(self)@ == old(self)@.with_value(placeholder),
    {
        self.set_value(placeholder);
    }

    /// Tells an evaluator of lineage `current_fork` at `current_rev` what it
    /// has met: a value, itself, a computation in flight, or one given up.
    pub fn detect_cycle_or_lock(&self, current_fork: ForkId, current_rev: Revision) -> (found:
        CycleDetection)
        ensures
            found@ == self@.output.detect(current_fork, current_rev),
    {
        match &self.output {
            QueryOutput::Calculating(fork, rev, lock) => {
                if *fork == current_fork && *rev == current_rev {
                    CycleDetection::CycleDetected
                } else if *rev != current_rev {
                    CycleDetection::Canceled
                } else {
                    CycleDetection::Locked(lock.clone())
                }
            },
            QueryOutput::Calculated(_) => CycleDetection::Ready,
        }
    }

    /// Sets the cell's revision to `rev` and makes the change of `caused_by`
    /// known to every dependency record it holds.
    pub fn update_rev(&mut self, caused_by: DepIdx, rev: Revision)
        ensures
            final(self)@ == old(self)@.redated(caused_by, rev),
    {
        self.rev = rev;
        let mut i: usize = 0;
        while i < self.deps.len()
            invariant
                i <= self.deps.len(),
                self.deps.len() == old(self).deps.len(),
                self.idx == old(self).idx,
                self.output == old(self).output,
                self.rev == rev,
                forall|j: int|
                    0 <= j < i ==> (#[trigger] self.deps[j])@ == old(self).deps[j]@.redated(
                        caused_by,
                        rev,
                    ),
                forall|j: int|
                    i <= j < self.deps.len() ==> (#[trigger] self.deps[j]) == old(self).deps[j],
            decreases self.deps.len() - i,
        {
            let _ = self.deps[i].redate(caused_by, rev);
            i += 1;
        }
        assert(self@.deps =~= old(self)@.redated(caused_by, rev).deps);
    }
}

impl<V> Clone for QueryCell<V> {
    /// Another handle on the same cell: the value is shared, the
    /// dependencies are copied.
    fn clone(&self) -> (copy: QueryCell<V>)
        ensures
            copy@ == self@,
    {
        QueryCell {
            output: self.output.clone(),
            rev: self.rev,
            idx: self.idx,
            deps: duplicate_deps(self.deps.as_slice()),
        }
    }
}

} // verus!
