//! The walk over the dependencies of a cached cell that decides whether the
//! cell still stands.
//!
//! The walk is a machine that goes one record per step, so that the caller
//! can do between two steps what the walk asks for.
//! Records are checked children first. A record whose children are all
//! fresh is compared with the present revision of its target. A record with
//! a re-dated child has its target re-dated and counts as re-dated itself. A
//! record with an outdated child has its target computed anew by the
//! caller; the value that comes back decides between re-dated and outdated.
//! The findings of siblings are combined.

use crate::dep::nodes;
use crate::dep::outdated_by;
use crate::dep::Dep;
use crate::dep::DepIdx;
use crate::dep::DepNode;
use crate::invalidation::Invalidation;
use crate::revision::Revision;
use crate::table::QueriesMap;
use crate::table::TableState;
use std::hash::Hash;
use std::sync::Arc;
use vstd::prelude::*;
use vstd::std_specs::cmp::PartialEqSpec;

verus! {

/// A record whose children are being checked.
pub struct Frame {
    idx: DepIdx,
    rev: Revision,
    /// The children still to check, the next one last.
    pending: Vec<Dep>,
    status: Invalidation,
}

/// The mathematical content of a [`Frame`].
pub struct FrameState {
    /// The cell the record points at.
    pub idx: DepIdx,
    /// The revision the record observed.
    pub rev: Revision,
    /// The children still to check, the next one first.
    pub pending: Seq<DepNode>,
    /// The combined finding of the children checked so far.
    pub status: Invalidation,
}

/// The trees of records stored with the next one last, the next one first.
pub open spec fn queued(stored: Seq<Dep>) -> Seq<DepNode> {
    Seq::new(stored.len(), |i: int| stored[stored.len() - 1 - i]@)
}

impl View for Frame {
    type V = FrameState;

    closed spec fn view(&self) -> FrameState {
        FrameState {
            idx: self.idx,
            rev: self.rev,
            pending: queued(self.pending@),
            status: self.status,
        }
    }
}

/// A walk in progress.
pub struct Walker {
    /// The records that are open, the innermost last.
    stack: Vec<Frame>,
    /// The top-level records still to check, the next one last.
    pending: Vec<Dep>,
    status: Invalidation,
}

/// The mathematical content of a [`Walker`].
pub struct WalkerState {
    /// The records that are open, the innermost last.
    pub stack: Seq<FrameState>,
    /// The top-level records still to check, the next one first.
    pub pending: Seq<DepNode>,
    /// The combined finding of the top-level records checked so far.
    pub status: Invalidation,
}

/// Where a walk stands.
pub enum Phase {
    /// Every record was checked.
    Finished,
    /// The next record is to be opened.
    Descending,
    /// The innermost open record has only fresh children: it is compared
    /// with its target.
    Checking,
    /// The innermost open record has a re-dated child.
    Redating(Revision, DepIdx),
    /// The innermost open record has an outdated child: its target has to be
    /// computed anew.
    Awaiting(Revision, DepIdx),
}

/// What came of a computation that the walk asked for.
pub struct Answer<Q, V> {
    /// The value that the computation gave.
    pub value: V,
    /// Whether the value equals the one that the cell held.
    pub same: bool,
    /// The table as the computation left it.
    pub table: TableState<Q, V>,
}

/// What a check of records comes to.
pub struct Outcome<Q, V> {
    /// The table after the check.
    pub table: TableState<Q, V>,
    /// The finding.
    pub found: Invalidation,
    /// The number of answers used so far.
    pub used: nat,
}

/// What the caller of a step has to do.
pub enum WalkStep<Q> {
    /// Step again.
    Continue,
    /// Compute the query with this key anew and supply its value.
    Recalc(Arc<Q>),
    /// The walk is over; this is its finding.
    Done(Invalidation),
}

impl WalkerState {
    /// The walk that is about to check `deps`.
    pub open spec fn over(deps: Seq<DepNode>) -> WalkerState {
        WalkerState { stack: Seq::empty(), pending: deps, status: Invalidation::Fresh }
    }

    /// The frame of a record that was just opened.
    pub open spec fn opened(node: DepNode) -> FrameState {
        FrameState {
            idx: node.idx,
            rev: node.rev,
            pending: node.children,
            status: Invalidation::Fresh,
        }
    }

    /// The records from which the next one is taken: the children still to
    /// check of the innermost open record, or the top-level records still to
    /// check where no record is open.
    pub open spec fn upcoming(self) -> Seq<DepNode> {
        if self.stack.len() == 0 {
            self.pending
        } else {
            self.stack.last().pending
        }
    }

    /// The combined finding of the siblings of the next record that were
    /// checked already.
    pub open spec fn found(self) -> Invalidation {
        if self.stack.len() == 0 {
            self.status
        } else {
            self.stack.last().status
        }
    }

    /// The walk with `upcoming` and `found` in place of what
    /// [`Self::upcoming`] and [`Self::found`] give.
    pub open spec fn with_current(self, upcoming: Seq<DepNode>, found: Invalidation) -> WalkerState {
        if self.stack.len() == 0 {
            WalkerState { pending: upcoming, status: found, ..self }
        } else {
            WalkerState {
                stack: self.stack.drop_last().push(
                    FrameState { pending: upcoming, status: found, ..self.stack.last() },
                ),
                ..self
            }
        }
    }

    /// Where the walk stands.
    pub open spec fn phase(self) -> Phase {
        if self.upcoming().len() > 0 {
            Phase::Descending
        } else if self.stack.len() == 0 {
            Phase::Finished
        } else {
            match self.stack.last().status {
                Invalidation::Fresh => Phase::Checking,
                Invalidation::Revisioned(rev, caused_by) => Phase::Redating(rev, caused_by),
                Invalidation::Outdated(rev, caused_by) => Phase::Awaiting(rev, caused_by),
            }
        }
    }

    /// The walk after the next record was taken from the records to come.
    pub open spec fn advanced(self) -> WalkerState {
        self.with_current(self.upcoming().drop_first(), self.found())
    }

    /// The walk after the next record was opened.
    pub open spec fn descended(self) -> WalkerState {
        WalkerState {
            stack: self.advanced().stack.push(Self::opened(self.upcoming()[0])),
            ..self.advanced()
        }
    }

    /// The walk after `found` was combined into the finding of the innermost
    /// open record, or into the overall finding where no record is open.
    pub open spec fn folded(self, found: Invalidation) -> WalkerState {
        self.with_current(self.upcoming(), self.found().combine(found))
    }

    /// The walk after the innermost open record was closed with the finding
    /// `found`.
    pub open spec fn closed_with(self, found: Invalidation) -> WalkerState {
        WalkerState { stack: self.stack.drop_last(), ..self }.folded(found)
    }

    /// Whether the walk is about to read or write the cell of the innermost
    /// open record.
    pub open spec fn settles(self) -> bool {
        self.phase() is Checking || self.phase() is Redating || self.phase() is Awaiting
    }

    /// The walk and the table after one step. A finished walk stays as it
    /// is, and so does one that waits for a value.
    pub open spec fn stepped<Q, V>(self, table: TableState<Q, V>) -> (
        WalkerState,
        TableState<Q, V>,
    ) {
        match self.phase() {
            Phase::Finished => (self, table),
            Phase::Descending => (self.descended(), table),
            Phase::Checking => {
                let top = self.stack.last();
                (self.closed_with(outdated_by(top.idx, top.rev, table.cell(top.idx).rev)), table)
            },
            Phase::Redating(rev, caused_by) => (
                self.closed_with(Invalidation::Revisioned(rev, caused_by)),
                table.redated(self.stack.last().idx, caused_by, rev),
            ),
            Phase::Awaiting(_, _) => (self, table),
        }
    }

    /// The walk and the table after a value that the walk waited for was
    /// supplied. `same` says whether the value equals the one that the
    /// target held: the target is then only re-dated and the record is closed
    /// as `Revisioned`; otherwise the target takes the value and the record
    /// is closed as `Outdated`.
    pub open spec fn supplied<Q, V>(self, table: TableState<Q, V>, value: V, same: bool) -> (
        WalkerState,
        TableState<Q, V>,
    ) {
        match self.phase() {
            Phase::Awaiting(rev, caused_by) => if same {
                (
                    self.closed_with(Invalidation::Revisioned(rev, caused_by)),
                    table.redated(self.stack.last().idx, caused_by, rev),
                )
            } else {
                (
                    self.closed_with(Invalidation::Outdated(rev, caused_by)),
                    table.revalued(self.stack.last().idx, caused_by, value, rev),
                )
            },
            _ => (self, table),
        }
    }

    /// The walk, the table and the number of answers used after `steps`
    /// steps, where every computation that the walk asks for is answered by
    /// `answers`, in order.
    pub open spec fn driven<Q, V>(
        self,
        table: TableState<Q, V>,
        answers: spec_fn(nat) -> Answer<Q, V>,
        used: nat,
        steps: nat,
    ) -> (WalkerState, TableState<Q, V>, nat)
        decreases steps,
    {
        if steps == 0 {
            (self, table, used)
        } else if self.phase() is Awaiting {
            let answer = answers(used);
            let (walker, table) = self.supplied(answer.table, answer.value, answer.same);
            walker.driven(table, answers, used + 1, (steps - 1) as nat)
        } else {
            let (walker, table) = self.stepped(table);
            walker.driven(table, answers, used, (steps - 1) as nat)
        }
    }

    /// The walk and the table after `steps` steps.
    pub open spec fn run<Q, V>(self, table: TableState<Q, V>, steps: nat) -> (
        WalkerState,
        TableState<Q, V>,
    )
        decreases steps,
    {
        if steps == 0 {
            (self, table)
        } else {
            let (walker, table) = self.stepped(table);
            walker.run(table, (steps - 1) as nat)
        }
    }
}

impl View for Walker {
    type V = WalkerState;

    closed spec fn view(&self) -> WalkerState {
        WalkerState {
            stack: Seq::new(self.stack@.len(), |i: int| self.stack@[i]@),
            pending: queued(self.pending@),
            status: self.status,
        }
    }
}

/// The same records in the opposite order.
fn reversed(deps: Vec<Dep>) -> (out: Vec<Dep>)
    ensures
        out@.len() == deps@.len(),
        forall|i: int| 0 <= i < out@.len() ==> out@[i] == deps@[deps@.len() - 1 - i],
{
    let mut rest = deps;
    let mut out: Vec<Dep> = Vec::new();
    while rest.len() > 0
        invariant
            out@.len() + rest@.len() == deps@.len(),
            rest@ == deps@.subrange(0, rest@.len() as int),
            forall|i: int| 0 <= i < out@.len() ==> out@[i] == deps@[deps@.len() - 1 - i],
        decreases rest@.len(),
    {
        let dep = rest.pop().unwrap();
        out.push(dep);
    }
    out
}

impl Frame {
    /// The frame of a record that was just opened.
    fn open(dep: Dep) -> (frame: Frame)
        ensures
            frame@ == WalkerState::opened(dep@),
    {
        let Dep { idx, query_rev, query_deps } = dep;
        let pending = reversed(query_deps);
        let frame = Frame { idx, rev: query_rev, pending, status: Invalidation::Fresh };
        assert(frame@.pending =~= dep@.children);
        frame
    }
}

impl Walker {
    /// A walk that is about to check `deps`, in order.
    pub fn new(deps: Vec<Dep>) -> (walker: Walker)
        ensures
            walker@ == WalkerState::over(nodes(deps@)),
    {
        let walker = Walker {
            stack: Vec::new(),
            pending: reversed(deps),
            status: Invalidation::Fresh,
        };
        assert(walker@.stack =~= Seq::<FrameState>::empty());
        assert(walker@.pending =~= nodes(deps@));
        walker
    }

    /// The cell that the walk is about to read or write, if it is about to
    /// do so.
    pub fn target(&self) -> (idx: Option<DepIdx>)
        ensures
            idx is Some == self@.settles(),
            idx matches Some(idx) ==> idx == self@.stack.last().idx,
    {
        let n = self.stack.len();
        if n == 0 {
            return None;
        }
        assert(self@.stack.last() == self.stack@[n - 1]@);
        if self.stack[n - 1].pending.len() > 0 {
            None
        } else {
            Some(self.stack[n - 1].idx)
        }
    }

    /// Whether the walk waits for a value to be supplied.
    pub fn is_awaiting(&self) -> (b: bool)
        ensures
            b == self@.phase() is Awaiting,
    {
        let n = self.stack.len();
        if n == 0 {
            return false;
        }
        assert(self@.stack.last() == self.stack@[n - 1]@);
        if self.stack[n - 1].pending.len() > 0 {
            return false;
        }
        match self.stack[n - 1].status {
            Invalidation::Outdated(_, _) => true,
            _ => false,
        }
    }

    /// Combines `found` into the finding of the innermost open record, or
    /// into the overall finding where no record is open.
    fn fold(&mut self, found: Invalidation)
        ensures
            final(self)@ == old(self)@.folded(found),
    {
        let n = self.stack.len();
        if n == 0 {
            self.status = self.status + found;
            assert(self@.stack =~= old(self)@.folded(found).stack);
        } else {
            assert(old(self)@.stack.last() == old(self).stack@[n - 1]@);
            let status = self.stack[n - 1].status + found;
            self.stack[n - 1].status = status;
            assert(self@.stack =~= old(self)@.folded(found).stack);
        }
    }

    /// Closes the innermost open record with the finding `found`.
    fn close(&mut self, found: Invalidation)
        requires
            old(self)@.stack.len() > 0,
        ensures
            final(self)@ == old(self)@.closed_with(found),
    {
        let _ = self.stack.pop();
        assert(self@.stack =~= old(self)@.stack.drop_last());
        self.fold(found);
    }

    /// Opens the next record.
    fn descend(&mut self)
        requires
            old(self)@.phase() is Descending,
        ensures
            final(self)@ == old(self)@.descended(),
    {
        let n = self.stack.len();
        if n == 0 {
            let dep = self.pending.pop().unwrap();
            self.stack.push(Frame::open(dep));
            assert(self@.stack =~= old(self)@.descended().stack);
            assert(self@.pending =~= old(self)@.descended().pending);
        } else {
            assert(old(self)@.stack.last() == old(self).stack@[n - 1]@);
            let dep = self.stack[n - 1].pending.pop().unwrap();
            let ghost mid = *self;
            assert(mid.stack@[n - 1]@.pending =~= old(self)@.stack.last().pending.drop_first());
            self.stack.push(Frame::open(dep));
            assert(self@.stack =~= old(self)@.descended().stack);
        }
    }

    /// One step of the walk.
    pub fn step<Q: Hash + Eq, V>(&mut self, table: &mut QueriesMap<Q, V>) -> (step: WalkStep<Q>)
        requires
            old(table).wf(),
            old(self)@.settles() ==> old(table)@.has_cell(old(self)@.stack.last().idx),
        ensures
            final(table).wf(),
            (final(self)@, final(table)@) == old(self)@.stepped(old(table)@),
            match old(self)@.phase() {
                Phase::Finished => step == WalkStep::<Q>::Done(old(self)@.status),
                Phase::Awaiting(_, _) => step matches WalkStep::Recalc(key) && *key == old(
                    table,
                )@.key(old(self)@.stack.last().idx),
                _ => step is Continue,
            },
    {
        let n = self.stack.len();
        if n == 0 {
            if self.pending.len() == 0 {
                return WalkStep::Done(self.status);
            }
            self.descend();
            return WalkStep::Continue;
        }
        assert(self@.stack.last() == self.stack@[n - 1]@);
        if self.stack[n - 1].pending.len() > 0 {
            self.descend();
            return WalkStep::Continue;
        }
        let idx = self.stack[n - 1].idx;
        let observed = self.stack[n - 1].rev;
        match self.stack[n - 1].status {
            Invalidation::Fresh => {
                let current = table.cell(&idx).rev();
                let found = if observed.precedes(current) {
                    Invalidation::Outdated(current, idx)
                } else {
                    Invalidation::Fresh
                };
                self.close(found);
                WalkStep::Continue
            },
            Invalidation::Revisioned(rev, caused_by) => {
                table.update_rev(idx.query_type, idx.query_idx, caused_by, rev);
                self.close(Invalidation::Revisioned(rev, caused_by));
                WalkStep::Continue
            },
            Invalidation::Outdated(_, _) => WalkStep::Recalc(table.key(&idx)),
        }
    }

    /// Takes in the value that the computation asked for by
    /// [`WalkStep::Recalc`] gave. The target learns of the change and
    /// compares the value with the one it holds; the finding closes the
    /// record: `Revisioned` where the values are equal, `Outdated` where the
    /// target took the new one.
    pub fn supply<Q: Hash + Eq, V: PartialEq>(&mut self, table: &mut QueriesMap<Q, V>, value: V) -> (found:
        Invalidation)
        requires
            old(table).wf(),
            old(self)@.phase() is Awaiting,
            old(table)@.has_cell(old(self)@.stack.last().idx),
            old(table)@.cell(old(self)@.stack.last().idx).output is Calculated,
        ensures
            final(table).wf(),
            (final(self)@, final(table)@) == old(self)@.supplied(
                old(table)@,
                value,
                found is Revisioned,
            ),
            final(self)@ == old(self)@.closed_with(found),
            old(self)@.phase() matches Phase::Awaiting(rev, caused_by) && (found
                == Invalidation::Revisioned(rev, caused_by) || found == Invalidation::Outdated(
                rev,
                caused_by,
            )),
            V::obeys_eq_spec() ==> (found is Revisioned <==> old(table)@.cell(
                old(self)@.stack.last().idx,
            ).output->Calculated_0.eq_spec(&value)),
    {
        let n = self.stack.len();
        assert(self@.stack.last() == self.stack@[n - 1]@);
        let idx = self.stack[n - 1].idx;
        match self.stack[n - 1].status {
            Invalidation::Outdated(rev, caused_by) => {
                let found = table.update_output_at(idx, caused_by, value, rev);
                self.close(found);
                found
            },
            _ => vstd::pervasive::unreached(),
        }
    }
}

/// What the check of the record `node` finds, where none of the records
/// below it asks for a computation: the record is compared with the present
/// revision of its target.
pub open spec fn finding<Q, V>(table: TableState<Q, V>, node: DepNode) -> Invalidation
    decreases node, 0nat,
{
    let below = findings(table, node.children, 0, Invalidation::Fresh);
    if below is Fresh {
        outdated_by(node.idx, node.rev, table.cell(node.idx).rev)
    } else {
        below
    }
}

/// The findings of the records `nodes[from..]`, combined from left to right
/// into `found`.
pub open spec fn findings<Q, V>(
    table: TableState<Q, V>,
    nodes: Seq<DepNode>,
    from: int,
    found: Invalidation,
) -> Invalidation
    decreases nodes, nodes.len() - from,
{
    if 0 <= from < nodes.len() {
        findings(table, nodes, from + 1, found.combine(finding(table, nodes[from])))
    } else {
        found
    }
}

/// Whether the check of `node` asks for no computation: the target of the
/// record exists, the same holds of every record below it, and the records
/// below it are all fresh.
pub open spec fn quiet<Q, V>(table: TableState<Q, V>, node: DepNode) -> bool
    decreases node,
{
    &&& table.has_cell(node.idx)
    &&& forall|i: int|
        0 <= i < node.children.len() ==> quiet(table, #[trigger] node.children[i])
    &&& findings(table, node.children, 0, Invalidation::Fresh) is Fresh
}

/// Steps add up.
pub proof fn lemma_run_adds<Q, V>(walker: WalkerState, table: TableState<Q, V>, a: nat, b: nat)
    ensures
        walker.run(table, a + b) == walker.run(table, a).0.run(walker.run(table, a).1, b),
    decreases a,
{
    if a > 0 {
        let (next, after) = walker.stepped(table);
        lemma_run_adds(next, after, (a - 1) as nat, b);
        assert(walker.run(table, a + b) == next.run(after, (a + b - 1) as nat));
    }
}

/// The machine checks a quiet record as the recursive definition says: it
/// opens the record, checks the records below it, closes it with its
/// finding, and leaves the table as it is. Returns the number of steps that
/// this takes.
pub proof fn lemma_quiet_record<Q, V>(walker: WalkerState, table: TableState<Q, V>) -> (steps: nat)
    requires
        walker.upcoming().len() > 0,
        quiet(table, walker.upcoming()[0]),
    ensures
        walker.run(table, steps) == (
            walker.advanced().folded(finding(table, walker.upcoming()[0])),
            table,
        ),
    decreases walker.upcoming()[0], 0nat,
{
    let node = walker.upcoming()[0];
    let inside = walker.descended();
    assert(walker.stepped(table) == (inside, table));
    assert(inside.upcoming() == node.children);
    assert(node.children.subrange(0, node.children.len() as int) =~= node.children);
    let below = lemma_quiet_records(inside, table, node.children, 0);
    let checked = inside.with_current(Seq::empty(), Invalidation::Fresh);
    assert(inside.run(table, below) == (checked, table));
    assert(checked.stack.last() == (FrameState {
        idx: node.idx,
        rev: node.rev,
        pending: Seq::empty(),
        status: Invalidation::Fresh,
    }));
    assert(checked.phase() is Checking);
    let closed = checked.closed_with(finding(table, node));
    assert(checked.stepped(table) == (closed, table));
    assert(checked.stack.drop_last() =~= walker.advanced().stack);
    assert(closed == walker.advanced().folded(finding(table, node)));
    assert(walker.run(table, 1) == (inside, table)) by {
        assert(inside.run(table, 0) == (inside, table));
    }
    assert(checked.run(table, 1) == (closed, table)) by {
        assert(closed.run(table, 0) == (closed, table));
    }
    lemma_run_adds(walker, table, 1, below);
    lemma_run_adds(walker, table, 1 + below, 1);
    1 + below + 1
}

/// The machine checks a list of quiet records one after the other and
/// combines their findings from left to right. Returns the number of steps
/// that this takes.
pub proof fn lemma_quiet_records<Q, V>(
    walker: WalkerState,
    table: TableState<Q, V>,
    nodes: Seq<DepNode>,
    from: int,
) -> (steps: nat)
    requires
        0 <= from <= nodes.len(),
        walker.upcoming() == nodes.subrange(from, nodes.len() as int),
        forall|i: int| 0 <= i < nodes.len() ==> quiet(table, #[trigger] nodes[i]),
    ensures
        walker.run(table, steps) == (
            walker.with_current(Seq::empty(), findings(table, nodes, from, walker.found())),
            table,
        ),
    decreases nodes, nodes.len() - from,
{
    if from == nodes.len() {
        assert(walker.upcoming() =~= Seq::<DepNode>::empty());
        assert(walker.with_current(Seq::empty(), walker.found()).stack =~= walker.stack);
        assert(walker.with_current(Seq::empty(), walker.found()) == walker);
        0
    } else {
        let node = nodes[from];
        assert(walker.upcoming()[0] == node);
        let first = lemma_quiet_record(walker, table);
        let next = walker.advanced().folded(finding(table, node));
        assert(next.upcoming() =~= nodes.subrange(from + 1, nodes.len() as int));
        assert(next.found() == walker.found().combine(finding(table, node)));
        let rest = lemma_quiet_records(next, table, nodes, from + 1);
        let last = findings(table, nodes, from, walker.found());
        assert(next.with_current(Seq::empty(), last).stack =~= walker.with_current(
            Seq::empty(),
            last,
        ).stack);
        assert(next.with_current(Seq::empty(), last) == walker.with_current(Seq::empty(), last));
        lemma_run_adds(walker, table, first, rest);
        first + rest
    }
}

/// A walk over records of which none asks for a computation comes to its
/// end by itself: after finitely many steps every record was checked, the
/// table is as it was, and the finding is the combined finding of the
/// top-level records. Where nothing below a cached cell has moved on, the
/// finding is `Fresh` and the cell stands without anything being computed.
pub proof fn lemma_quiet_walk<Q, V>(table: TableState<Q, V>, deps: Seq<DepNode>) -> (steps: nat)
    requires
        forall|i: int| 0 <= i < deps.len() ==> quiet(table, #[trigger] deps[i]),
    ensures
        WalkerState::over(deps).run(table, steps) == (
            WalkerState {
                stack: Seq::empty(),
                pending: Seq::empty(),
                status: findings(table, deps, 0, Invalidation::Fresh),
            },
            table,
        ),
        WalkerState::over(deps).run(table, steps).0.phase() is Finished,
{
    let walker = WalkerState::over(deps);
    assert(deps.subrange(0, deps.len() as int) =~= deps);
    lemma_quiet_records(walker, table, deps, 0)
}

/// The check of the record `node` as the recursive definition has it: the
/// records below it are checked first, from left to right, and their
/// findings are combined. Where they are all fresh, the record is compared
/// with the present revision of its target. Where one was re-dated, the
/// target is re-dated and the record counts as re-dated. Where one is
/// outdated, the target is computed anew: the next answer says what the
/// computation gave and what it left of the table, and the target is
/// re-dated where the value is the same and takes the value otherwise.
pub open spec fn check<Q, V>(
    table: TableState<Q, V>,
    node: DepNode,
    answers: spec_fn(nat) -> Answer<Q, V>,
    used: nat,
) -> Outcome<Q, V>
    decreases node, 0nat,
{
    let below = check_all(table, node.children, 0, Invalidation::Fresh, answers, used);
    match below.found {
        Invalidation::Fresh => Outcome {
            table: below.table,
            found: outdated_by(node.idx, node.rev, below.table.cell(node.idx).rev),
            used: below.used,
        },
        Invalidation::Revisioned(rev, caused_by) => Outcome {
            table: below.table.redated(node.idx, caused_by, rev),
            found: Invalidation::Revisioned(rev, caused_by),
            used: below.used,
        },
        Invalidation::Outdated(rev, caused_by) => {
            let answer = answers(below.used);
            if answer.same {
                Outcome {
                    table: answer.table.redated(node.idx, caused_by, rev),
                    found: Invalidation::Revisioned(rev, caused_by),
                    used: below.used + 1,
                }
            } else {
                Outcome {
                    table: answer.table.revalued(node.idx, caused_by, answer.value, rev),
                    found: Invalidation::Outdated(rev, caused_by),
                    used: below.used + 1,
                }
            }
        },
    }
}

/// The check of the records `nodes[from..]`, one after the other, their
/// findings combined from left to right into `found`.
pub open spec fn check_all<Q, V>(
    table: TableState<Q, V>,
    nodes: Seq<DepNode>,
    from: int,
    found: Invalidation,
    answers: spec_fn(nat) -> Answer<Q, V>,
    used: nat,
) -> Outcome<Q, V>
    decreases nodes, nodes.len() - from,
{
    if 0 <= from < nodes.len() {
        let first = check(table, nodes[from], answers, used);
        check_all(first.table, nodes, from + 1, found.combine(first.found), answers, first.used)
    } else {
        Outcome { table, found, used }
    }
}

/// Driven steps add up.
pub proof fn lemma_driven_adds<Q, V>(
    walker: WalkerState,
    table: TableState<Q, V>,
    answers: spec_fn(nat) -> Answer<Q, V>,
    used: nat,
    a: nat,
    b: nat,
)
    ensures
        walker.driven(table, answers, used, a + b) == ({
            let (w, t, u) = walker.driven(table, answers, used, a);
            w.driven(t, answers, u, b)
        }),
    decreases a,
{
    if a > 0 {
        if walker.phase() is Awaiting {
            let answer = answers(used);
            let (next, after) = walker.supplied(answer.table, answer.value, answer.same);
            lemma_driven_adds(next, after, answers, used + 1, (a - 1) as nat, b);
            assert(walker.driven(table, answers, used, a + b) == next.driven(
                after,
                answers,
                used + 1,
                (a + b - 1) as nat,
            ));
        } else {
            let (next, after) = walker.stepped(table);
            lemma_driven_adds(next, after, answers, used, (a - 1) as nat, b);
            assert(walker.driven(table, answers, used, a + b) == next.driven(
                after,
                answers,
                used,
                (a + b - 1) as nat,
            ));
        }
    }
}

/// The machine checks the next record as the recursive definition says.
/// Returns the number of steps that this takes.
pub proof fn lemma_record_checked<Q, V>(
    walker: WalkerState,
    table: TableState<Q, V>,
    answers: spec_fn(nat) -> Answer<Q, V>,
    used: nat,
) -> (steps: nat)
    requires
        walker.upcoming().len() > 0,
    ensures
        walker.driven(table, answers, used, steps) == ({
            let out = check(table, walker.upcoming()[0], answers, used);
            (walker.advanced().folded(out.found), out.table, out.used)
        }),
    decreases walker.upcoming()[0], 0nat,
{
    let node = walker.upcoming()[0];
    let out = check(table, node, answers, used);
    let inside = walker.descended();
    assert(walker.stepped(table) == (inside, table));
    assert(inside.upcoming() == node.children);
    assert(node.children.subrange(0, node.children.len() as int) =~= node.children);
    let k = lemma_records_checked(inside, table, node.children, 0, answers, used);
    let below = check_all(table, node.children, 0, Invalidation::Fresh, answers, used);
    let checked = inside.with_current(Seq::empty(), below.found);
    assert(inside.driven(table, answers, used, k) == (checked, below.table, below.used));
    assert(checked.stack.last() == (FrameState {
        idx: node.idx,
        rev: node.rev,
        pending: Seq::empty(),
        status: below.found,
    }));
    let closed = checked.closed_with(out.found);
    assert(checked.stack.drop_last() =~= walker.advanced().stack);
    assert(closed == walker.advanced().folded(out.found));
    assert(checked.driven(below.table, answers, below.used, 1) == (closed, out.table, out.used))
        by {
        assert(closed.driven(out.table, answers, out.used, 0) == (closed, out.table, out.used));
    }
    assert(walker.driven(table, answers, used, 1) == (inside, table, used)) by {
        assert(inside.driven(table, answers, used, 0) == (inside, table, used));
    }
    lemma_driven_adds(walker, table, answers, used, 1, k);
    lemma_driven_adds(walker, table, answers, used, 1 + k, 1);
    1 + k + 1
}

/// The machine checks a list of records as the recursive definition says.
/// Returns the number of steps that this takes.
pub proof fn lemma_records_checked<Q, V>(
    walker: WalkerState,
    table: TableState<Q, V>,
    nodes: Seq<DepNode>,
    from: int,
    answers: spec_fn(nat) -> Answer<Q, V>,
    used: nat,
) -> (steps: nat)
    requires
        0 <= from <= nodes.len(),
        walker.upcoming() == nodes.subrange(from, nodes.len() as int),
    ensures
        walker.driven(table, answers, used, steps) == ({
            let out = check_all(table, nodes, from, walker.found(), answers, used);
            (walker.with_current(Seq::empty(), out.found), out.table, out.used)
        }),
    decreases nodes, nodes.len() - from,
{
    if from == nodes.len() {
        assert(walker.upcoming() =~= Seq::<DepNode>::empty());
        assert(walker.with_current(Seq::empty(), walker.found()).stack =~= walker.stack);
        assert(walker.with_current(Seq::empty(), walker.found()) == walker);
        0
    } else {
        let node = nodes[from];
        assert(walker.upcoming()[0] == node);
        let first = lemma_record_checked(walker, table, answers, used);
        let one = check(table, node, answers, used);
        let next = walker.advanced().folded(one.found);
        assert(next.upcoming() =~= nodes.subrange(from + 1, nodes.len() as int));
        assert(next.found() == walker.found().combine(one.found));
        let rest = lemma_records_checked(next, one.table, nodes, from + 1, answers, one.used);
        let out = check_all(table, nodes, from, walker.found(), answers, used);
        assert(next.with_current(Seq::empty(), out.found).stack =~= walker.with_current(
            Seq::empty(),
            out.found,
        ).stack);
        assert(next.with_current(Seq::empty(), out.found) == walker.with_current(
            Seq::empty(),
            out.found,
        ));
        lemma_driven_adds(walker, table, answers, used, first, rest);
        first + rest
    }
}

/// The machine and the recursive definition agree. Whatever the
/// computations that a walk asks for give, and whatever they leave of the
/// table, the walk over `deps` comes to its end after finitely many steps,
/// and it ends with the finding and the table that the recursive check of
/// `deps` gives on the same answers, having used as many of them.
pub proof fn lemma_walk_is_the_recursive_check<Q, V>(
    table: TableState<Q, V>,
    deps: Seq<DepNode>,
    answers: spec_fn(nat) -> Answer<Q, V>,
) -> (steps: nat)
    ensures
        WalkerState::over(deps).driven(table, answers, 0, steps) == ({
            let out = check_all(table, deps, 0, Invalidation::Fresh, answers, 0);
            (
                WalkerState { stack: Seq::empty(), pending: Seq::empty(), status: out.found },
                out.table,
                out.used,
            )
        }),
        WalkerState::over(deps).driven(table, answers, 0, steps).0.phase() is Finished,
{
    let walker = WalkerState::over(deps);
    assert(deps.subrange(0, deps.len() as int) =~= deps);
    lemma_records_checked(walker, table, deps, 0, answers, 0)
}

} // verus!
