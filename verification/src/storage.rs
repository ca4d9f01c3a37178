//! The cells of all queries of one type.

use crate::cell::CellState;
use crate::cell::OutputState;
use crate::cell::QueryCell;
use crate::cell::QueryOutput;
use crate::dep::nodes;
use crate::dep::Dep;
use crate::dep::DepIdx;
use crate::dep::DepNode;
use crate::fork::ForkId;
use crate::invalidation::Invalidation;
use crate::reservation::Latch;
use crate::reservation::Reservation;
use crate::revision::Revision;
use crate::shared::share;
use std::any::TypeId;
use std::collections::HashMap;
use std::hash::Hash;
use std::sync::Arc;
use vstd::prelude::*;
use vstd::std_specs::cmp::PartialEqSpec;
use vstd::std_specs::hash::obeys_key_model;

verus! {

broadcast use vstd::std_specs::hash::group_hash_axioms;

/// The cells of the queries of one type: a dense list, and an index from
/// query key to position in it.
pub struct QueryStorage<Q, V> {
    query_type: TypeId,
    queries: HashMap<Arc<Q>, usize>,
    keys: Vec<Arc<Q>>,
    cells: Vec<QueryCell<V>>,
}

/// The mathematical content of a [`QueryStorage`].
pub struct StorageState<Q, V> {
    /// The type of the queries kept here.
    pub query_type: TypeId,
    /// The key of each cell, by position.
    pub keys: Seq<Q>,
    /// The cells, by position.
    pub cells: Seq<CellState<V>>,
}

impl<Q, V> StorageState<Q, V> {
    /// Every key has one cell, every cell knows its place, and a cell that
    /// is being computed holds no dependencies.
    pub open spec fn wf(self) -> bool {
        &&& self.keys.len() == self.cells.len()
        &&& self.keys.len() <= usize::MAX
        &&& self.keys.no_duplicates()
        &&& forall|i: int|
            0 <= i < self.cells.len() ==> (#[trigger] self.cells[i]).idx == (DepIdx {
                query_type: self.query_type,
                query_idx: i as usize,
            })
        &&& forall|i: int|
            0 <= i < self.cells.len() ==> ((#[trigger] self.cells[i]).output is Calculating
                ==> self.cells[i].deps.len() == 0)
    }

    /// Every cell is dated no earlier than any of its top-level dependencies
    /// was observed.
    pub open spec fn dominant(self) -> bool {
        forall|i: int| 0 <= i < self.cells.len() ==> (#[trigger] self.cells[i]).dominates_deps()
    }

    /// The storage of `query_type` that holds no cell.
    pub open spec fn empty(query_type: TypeId) -> StorageState<Q, V> {
        StorageState { query_type, keys: Seq::empty(), cells: Seq::empty() }
    }

    /// Whether a cell exists for `key`.
    pub open spec fn contains(self, key: Q) -> bool {
        self.keys.contains(key)
    }

    /// The position of the cell of `key`.
    pub open spec fn slot_of(self, key: Q) -> int {
        self.keys.index_of(key)
    }

    /// The cell of `key`.
    pub open spec fn cell_of(self, key: Q) -> CellState<V> {
        self.cells[self.slot_of(key)]
    }

    /// Whether `idx` names a cell kept here.
    pub open spec fn has_cell(self, idx: DepIdx) -> bool {
        idx.query_type == self.query_type && idx.query_idx < self.cells.len()
    }

    /// The storage after the cell of `key` was written: a cell that exists
    /// keeps its position and loses what it held; a new one is appended.
    pub open spec fn placed(
        self,
        key: Q,
        output: OutputState<V>,
        rev: Revision,
        deps: Seq<DepNode>,
    ) -> StorageState<Q, V> {
        if self.contains(key) {
            let slot = self.slot_of(key);
            StorageState {
                cells: self.cells.update(
                    slot,
                    CellState { output, idx: self.cells[slot].idx, rev, deps },
                ),
                ..self
            }
        } else {
            StorageState {
                keys: self.keys.push(key),
                cells: self.cells.push(
                    CellState {
                        output,
                        idx: DepIdx {
                            query_type: self.query_type,
                            query_idx: self.keys.len() as usize,
                        },
                        rev,
                        deps,
                    },
                ),
                ..self
            }
        }
    }

    /// What a write leaves behind: the key has a cell, and the cell holds
    /// what was written.
    pub proof fn lemma_placed(self, key: Q, output: OutputState<V>, rev: Revision, deps: Seq<DepNode>)
        requires
            self.keys.len() == self.cells.len(),
            self.keys.no_duplicates(),
        ensures
            self.placed(key, output, rev, deps).keys.len() == self.placed(
                key,
                output,
                rev,
                deps,
            ).cells.len(),
            self.placed(key, output, rev, deps).contains(key),
            self.placed(key, output, rev, deps).cell_of(key).output == output,
            self.placed(key, output, rev, deps).cell_of(key).rev == rev,
            self.placed(key, output, rev, deps).cell_of(key).deps == deps,
            self.placed(key, output, rev, deps).keys.no_duplicates(),
            forall|other: Q|
                other != key && self.contains(other) ==> self.placed(
                    key,
                    output,
                    rev,
                    deps,
                ).contains(other) && #[trigger] self.placed(key, output, rev, deps).cell_of(other)
                    == self.cell_of(other),
    {
        let after = self.placed(key, output, rev, deps);
        if self.contains(key) {
            let slot = self.slot_of(key);
            assert(after.keys[slot] == key);
        } else {
            let slot = self.keys.len() as int;
            assert(after.keys[slot] == key);
            assert forall|i: int, j: int|
                0 <= i < after.keys.len() && 0 <= j < after.keys.len() && i != j implies after.keys[i]
                != after.keys[j] by {
                if i < slot && j < slot {
                    assert(self.keys[i] != self.keys[j]);
                }
            }
        }
        assert(after.keys.no_duplicates());
        assert forall|other: Q| other != key && self.contains(other) implies after.contains(other)
            && #[trigger] after.cell_of(other) == self.cell_of(other) by {
            let i = self.slot_of(other);
            assert(after.keys[i] == other);
            let j = after.slot_of(other);
            assert(after.keys[j] == other);
        }
    }

    /// The storage after `key` was reserved by `fork` at `rev`: its cell is
    /// marked as being computed, dated `rev`, and has no dependencies.
    pub open spec fn reserved(self, key: Q, fork: ForkId, rev: Revision, latch: Latch) -> StorageState<
        Q,
        V,
    > {
        self.placed(key, OutputState::Calculating(fork, rev, latch), rev, Seq::empty())
    }

    /// The storage after the cell at `slot` learnt of a change of
    /// `caused_by` at `rev`.
    pub open spec fn redated(self, slot: int, caused_by: DepIdx, rev: Revision) -> StorageState<
        Q,
        V,
    > {
        StorageState { cells: self.cells.update(slot, self.cells[slot].redated(caused_by, rev)), ..self }
    }

    /// The storage after the cell at `slot` learnt of a change of
    /// `caused_by` at `rev` and was given the value `value`.
    pub open spec fn revalued(self, slot: int, caused_by: DepIdx, value: V, rev: Revision) -> StorageState<
        Q,
        V,
    > {
        StorageState {
            cells: self.cells.update(slot, self.cells[slot].redated(caused_by, rev).with_value(value)),
            ..self
        }
    }
}

impl<Q, V> View for QueryStorage<Q, V> {
    type V = StorageState<Q, V>;

    closed spec fn view(&self) -> StorageState<Q, V> {
        StorageState {
            query_type: self.query_type,
            keys: Seq::new(self.keys@.len(), |i: int| *self.keys@[i]),
            cells: Seq::new(self.cells@.len(), |i: int| self.cells@[i]@),
        }
    }
}

impl<Q: Hash + Eq, V> QueryStorage<Q, V> {
    /// The index agrees with the list of keys, and the content is
    /// well-formed.
    pub closed spec fn wf(&self) -> bool {
        &&& obeys_key_model::<Arc<Q>>()
        &&& self@.wf()
        &&& self.keys@.len() == self.cells@.len()
        &&& forall|i: int|
            0 <= i < self.keys@.len() ==> self.queries@.contains_key(#[trigger] self.keys@[i])
                && self.queries@[self.keys@[i]] == i
        &&& forall|k: Arc<Q>| #[trigger]
            self.queries@.contains_key(k) ==> self.queries@[k] < self.keys@.len()
                && self.keys@[self.queries@[k] as int] == k
    }

    /// A well-formed storage has well-formed content.
    pub proof fn lemma_wf(&self)
        requires
            self.wf(),
        ensures
            self@.wf(),
            obeys_key_model::<Arc<Q>>(),
    {
    }

    /// An empty storage for queries of type `query_type`.
    pub fn new(query_type: TypeId) -> (storage: QueryStorage<Q, V>)
        requires
            obeys_key_model::<Arc<Q>>(),
        ensures
            storage.wf(),
            storage@ == StorageState::<Q, V>::empty(query_type),
    {
        let storage = QueryStorage {
            query_type,
            queries: HashMap::new(),
            keys: Vec::new(),
            cells: Vec::new(),
        };
        assert(storage@.keys =~= Seq::<Q>::empty());
        assert(storage@.cells =~= Seq::<CellState<V>>::empty());
        storage
    }

    /// The type of the queries kept here.
    pub fn query_type(&self) -> (query_type: TypeId)
        ensures
            query_type == self@.query_type,
    {
        self.query_type
    }

    /// The number of cells.
    pub fn len(&self) -> (n: usize)
        requires
            self.wf(),
        ensures
            n == self@.cells.len(),
    {
        self.cells.len()
    }

    /// The position of the cell of `query`, if there is one.
    fn slot(&self, query: &Arc<Q>) -> (slot: Option<usize>)
        requires
            self.wf(),
        ensures
            match slot {
                Some(i) => self@.contains(**query) && i == self@.slot_of(**query) && i
                    < self.keys@.len() && self.keys@[i as int] == *query,
                None => !self@.contains(**query),
            },
    {
        match self.queries.get(query) {
            Some(slot) => {
                proof {
                    let i = *slot as int;
                    assert(self@.keys[i] == **query);
                }
                Some(*slot)
            },
            None => {
                proof {
                    assert forall|i: int| 0 <= i < self@.keys.len() implies self@.keys[i]
                        != **query by {
                        assert(self.queries@.contains_key(self.keys@[i]));
                    }
                }
                None
            },
        }
    }

    /// Whether a cell exists for `query`.
    pub fn contains_query(&self, query: &Arc<Q>) -> (b: bool)
        requires
            self.wf(),
        ensures
            b == self@.contains(**query),
    {
        self.slot(query).is_some()
    }

    /// The cell of `query`.
    pub fn get(&self, query: &Arc<Q>) -> (cell: &QueryCell<V>)
        requires
            self.wf(),
            self@.contains(**query),
        ensures
            cell@ == self@.cell_of(**query),
    {
        let slot = self.slot(query).unwrap();
        &self.cells[slot]
    }

    /// The cell at position `slot`.
    pub fn cell_at(&self, slot: usize) -> (cell: &QueryCell<V>)
        requires
            self.wf(),
            slot < self@.cells.len(),
        ensures
            cell@ == self@.cells[slot as int],
    {
        &self.cells[slot]
    }

    /// Writes the cell of `query`, making it where there is none yet, and
    /// says where it is.
    fn place(&mut self, query: Arc<Q>, output: QueryOutput<V>, rev: Revision, deps: Vec<Dep>) -> (slot:
        usize)
        requires
            old(self).wf(),
            output is Calculating ==> deps@.len() == 0,
        ensures
            final(self).wf(),
            final(self)@ == old(self)@.placed(*query, output@, rev, nodes(deps@)),
            final(self)@.contains(*query),
            slot == final(self)@.slot_of(*query),
            slot < final(self).cells@.len(),
            final(self)@.cells[slot as int].output == output@,
            final(self)@.cells[slot as int].rev == rev,
            final(self)@.cells[slot as int].deps == nodes(deps@),
    {
        match self.slot(&query) {
            None => {
                let idx = self.cells.len();
                let cell = QueryCell::with_output(
                    output,
                    rev,
                    DepIdx::new(self.query_type, idx),
                    deps,
                );
                self.cells.push(cell);
                self.keys.push(share(&query));
                self.queries.insert(query, idx);
                proof {
                    assert(self.keys@.len() == self.keys.len());
                    assert forall|i: int| 0 <= i < old(self).keys@.len() implies old(
                        self,
                    ).keys@[i] != *query by {
                        assert(old(self)@.keys[i] == *old(self).keys@[i]);
                    }
                    assert(self@.keys =~= old(self)@.placed(
                        *query,
                        output@,
                        rev,
                        nodes(deps@),
                    ).keys);
                    assert(self@.cells =~= old(self)@.placed(
                        *query,
                        output@,
                        rev,
                        nodes(deps@),
                    ).cells);
                    assert(self@.keys[idx as int] == *query);
                }
                idx
            },
            Some(idx) => {
                self.cells[idx].overwrite(output, rev, deps);
                proof {
                    assert(self@.keys =~= old(self)@.placed(
                        *query,
                        output@,
                        rev,
                        nodes(deps@),
                    ).keys);
                    assert(self@.cells =~= old(self)@.placed(
                        *query,
                        output@,
                        rev,
                        nodes(deps@),
                    ).cells);
                }
                idx
            },
        }
    }

    /// Marks the cell of `query` as being computed by `fork` since
    /// `current_rev`, making the cell where there is none yet. The cell is
    /// dated `current_rev` and holds no dependencies. Returns the holding end
    /// of the latch that the cell now shows.
    pub fn reserve(&mut self, query: Arc<Q>, fork: ForkId, current_rev: Revision) -> (holder:
        Reservation)
        requires
            old(self).wf(),
        ensures
            final(self).wf(),
            final(self)@ == old(self)@.reserved(*query, fork, current_rev, holder.latch()),
    {
        let (holder, lock) = Reservation::new();
        let _ = self.place(
            query,
            QueryOutput::Calculating(fork, current_rev, lock),
            current_rev,
            Vec::new(),
        );
        proof {
            assert(nodes(Seq::<Dep>::empty()) =~= Seq::<DepNode>::empty());
        }
        holder
    }

    /// Writes a computed value into the cell of `query`, making the cell
    /// where there is none yet, and returns the cell as written.
    pub fn insert_calculated(&mut self, query: Arc<Q>, output: V, rev: Revision, deps: Vec<Dep>) -> (cell:
        QueryCell<V>)
        requires
            old(self).wf(),
        ensures
            final(self).wf(),
            final(self)@ == old(self)@.placed(
                *query,
                OutputState::Calculated(output),
                rev,
                nodes(deps@),
            ),
            final(self)@.contains(*query),
            cell@ == final(self)@.cell_of(*query),
            cell@.output == OutputState::Calculated(output),
            cell@.rev == rev,
            cell@.deps == nodes(deps@),
    {
        let slot = self.place(query, QueryOutput::Calculated(Arc::new(output)), rev, deps);
        self.cells[slot].clone()
    }

    /// Whether `idx` names a cell kept here.
    pub fn has_cell(&self, idx: &DepIdx) -> (b: bool)
        requires
            self.wf(),
        ensures
            b == self@.has_cell(*idx),
    {
        idx.query_type == self.query_type && idx.query_idx < self.cells.len()
    }

    /// Sets the revision of the cell at `idx` to `rev` and makes the change
    /// of `caused_by` known to its dependency records.
    pub fn update_rev(&mut self, idx: usize, caused_by: DepIdx, rev: Revision)
        requires
            old(self).wf(),
            idx < old(self)@.cells.len(),
        ensures
            final(self).wf(),
            final(self)@ == old(self)@.redated(idx as int, caused_by, rev),
    {
        self.cells[idx].update_rev(caused_by, rev);
        proof {
            let want = old(self)@.redated(idx as int, caused_by, rev);
            assert(self@.keys =~= want.keys);
            assert(self@.cells =~= want.cells);
        }
    }

    /// Like [`Self::update_rev`], for the cell that `dep` points at.
    pub fn update_dep_rev(&mut self, dep: &Dep, caused_by: DepIdx, rev: Revision)
        requires
            old(self).wf(),
            dep@.idx.query_idx < old(self)@.cells.len(),
        ensures
            final(self).wf(),
            final(self)@ == old(self)@.redated(dep@.idx.query_idx as int, caused_by, rev),
    {
        self.update_rev(dep.idx.query_idx, caused_by, rev)
    }

    /// The present revision of the cell that `dep` points at.
    pub fn dep_rev(&self, dep: &Dep) -> (rev: Revision)
        requires
            self.wf(),
            dep@.idx.query_idx < self@.cells.len(),
        ensures
            rev == self@.cells[dep@.idx.query_idx as int].rev,
    {
        self.cells[dep.idx.query_idx].rev()
    }

    /// The key of the cell that `dep` points at, for computing it anew.
    pub fn dyn_query(&self, dep: &Dep) -> (query: Arc<Q>)
        requires
            self.wf(),
            dep@.idx.query_idx < self@.cells.len(),
        ensures
            *query == self@.keys[dep@.idx.query_idx as int],
    {
        self.key_at(dep.idx.query_idx)
    }

    /// The key of the cell at position `slot`.
    pub fn key_at(&self, slot: usize) -> (query: Arc<Q>)
        requires
            self.wf(),
            slot < self@.cells.len(),
        ensures
            *query == self@.keys[slot as int],
    {
        share(&self.keys[slot])
    }
}

impl<Q: Hash + Eq, V: PartialEq> QueryStorage<Q, V> {
    /// Takes in the value that a new computation of the cell that `dep`
    /// points at gave. The cell learns of the change of `caused_by` at `rev`.
    /// Where the value equals the one it holds, the cell keeps it and the
    /// finding is `Revisioned`: whoever depends on the cell need not be
    /// computed anew. Otherwise the cell takes the value and the finding is
    /// `Outdated`.
    pub fn update_output(&mut self, dep: &Dep, caused_by: DepIdx, new_value: V, rev: Revision) -> (found:
        Invalidation)
        requires
            old(self).wf(),
            dep@.idx.query_idx < old(self)@.cells.len(),
            old(self)@.cells[dep@.idx.query_idx as int].output is Calculated,
        ensures
            final(self).wf(),
            found == Invalidation::Revisioned(rev, caused_by) || found == Invalidation::Outdated(
                rev,
                caused_by,
            ),
            found is Revisioned ==> final(self)@ == old(self)@.redated(
                dep@.idx.query_idx as int,
                caused_by,
                rev,
            ),
            found is Outdated ==> final(self)@ == old(self)@.revalued(
                dep@.idx.query_idx as int,
                caused_by,
                new_value,
                rev,
            ),
            V::obeys_eq_spec() ==> (found is Revisioned <==> old(self)@.cells[dep@.idx.query_idx as int].output->Calculated_0.eq_spec(
                &new_value,
            )),
    {
        self.update_output_at(dep.idx.query_idx, caused_by, new_value, rev)
    }

    /// Like [`Self::update_output`], for the cell at position `idx`.
    pub fn update_output_at(&mut self, idx: usize, caused_by: DepIdx, new_value: V, rev: Revision) -> (found:
        Invalidation)
        requires
            old(self).wf(),
            idx < old(self)@.cells.len(),
            old(self)@.cells[idx as int].output is Calculated,
        ensures
            final(self).wf(),
            found == Invalidation::Revisioned(rev, caused_by) || found == Invalidation::Outdated(
                rev,
                caused_by,
            ),
            found is Revisioned ==> final(self)@ == old(self)@.redated(idx as int, caused_by, rev),
            found is Outdated ==> final(self)@ == old(self)@.revalued(
                idx as int,
                caused_by,
                new_value,
                rev,
            ),
            V::obeys_eq_spec() ==> (found is Revisioned <==> old(self)@.cells[idx as int].output->Calculated_0.eq_spec(
                &new_value,
            )),
    {
        let ghost want = old(self)@.revalued(idx as int, caused_by, new_value, rev);
        self.update_rev(idx, caused_by, rev);
        assert(self@.cells[idx as int] == self.cells@[idx as int]@);
        assert(old(self)@.cells[idx as int] == old(self).cells@[idx as int]@);
        let differs = **self.cells[idx].value() != new_value;
        if differs {
            let ghost mid = *self;
            self.cells[idx].set_value(new_value);
            proof {
                assert(self@.keys =~= want.keys);
                assert forall|i: int| 0 <= i < self@.cells.len() implies self@.cells[i]
                    == want.cells[i] by {
                    assert(self@.cells[i] == self.cells@[i]@);
                    assert(mid@.cells[i] == mid.cells@[i]@);
                }
                assert(self@.cells =~= want.cells);
            }
            Invalidation::Outdated(rev, caused_by)
        } else {
            Invalidation::Revisioned(rev, caused_by)
        }
    }
}

} // verus!
