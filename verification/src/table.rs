//! The storages of all query types.

use crate::cell::CellState;
use crate::cell::OutputState;
use crate::cell::QueryCell;
use crate::dep::nodes;
use crate::dep::Dep;
use crate::dep::DepIdx;
use crate::dep::DepNode;
use crate::fork::ForkId;
use crate::invalidation::Invalidation;
use crate::laws::lemma_redate_keeps_dominance;
use crate::laws::lemma_revalue_keeps_dominance;
use crate::laws::lemma_writes_keep_dominance;
use crate::reservation::Latch;
use crate::reservation::Reservation;
use crate::revision::Revision;
use crate::storage::QueryStorage;
use crate::storage::StorageState;
use std::any::TypeId;
use std::hash::Hash;
use std::sync::Arc;
use vstd::prelude::*;
use vstd::std_specs::cmp::PartialEqSpec;
use vstd::std_specs::hash::obeys_key_model;

verus! {

/// One storage per query type.
pub struct QueriesMap<Q, V> {
    storages: Vec<QueryStorage<Q, V>>,
}

/// The mathematical content of a [`QueriesMap`]: a map from query type to
/// the content of its storage.
pub struct TableState<Q, V> {
    pub storages: Map<TypeId, StorageState<Q, V>>,
}

impl<Q, V> TableState<Q, V> {
    /// Every storage is well-formed and filed under its own type.
    pub open spec fn wf(self) -> bool {
        forall|t: TypeId| #[trigger]
            self.storages.contains_key(t) ==> self.storages[t].wf() && self.storages[t].query_type
                == t
    }

    /// Every cell of every storage is dated no earlier than any of its
    /// top-level dependencies was observed.
    pub open spec fn dominant(self) -> bool {
        forall|t: TypeId| #[trigger] self.storages.contains_key(t) ==> self.storages[t].dominant()
    }

    /// The storage of `query_type`; the empty one where none was made yet.
    pub open spec fn storage(self, query_type: TypeId) -> StorageState<Q, V> {
        if self.storages.contains_key(query_type) {
            self.storages[query_type]
        } else {
            StorageState::empty(query_type)
        }
    }

    /// The table with a storage for `query_type`.
    pub open spec fn ensured(self, query_type: TypeId) -> TableState<Q, V> {
        TableState { storages: self.storages.insert(query_type, self.storage(query_type)) }
    }

    /// Whether `idx` names a cell of this table.
    pub open spec fn has_cell(self, idx: DepIdx) -> bool {
        self.storages.contains_key(idx.query_type) && idx.query_idx
            < self.storages[idx.query_type].cells.len()
    }

    /// The cell that `idx` names.
    pub open spec fn cell(self, idx: DepIdx) -> CellState<V> {
        self.storages[idx.query_type].cells[idx.query_idx as int]
    }

    /// The key of the cell that `idx` names.
    pub open spec fn key(self, idx: DepIdx) -> Q {
        self.storages[idx.query_type].keys[idx.query_idx as int]
    }

    /// The table after the cell of `key` was written.
    pub open spec fn placed(
        self,
        query_type: TypeId,
        key: Q,
        output: OutputState<V>,
        rev: Revision,
        deps: Seq<DepNode>,
    ) -> TableState<Q, V> {
        TableState {
            storages: self.storages.insert(
                query_type,
                self.storage(query_type).placed(key, output, rev, deps),
            ),
        }
    }

    /// The table after `key` was reserved by `fork` at `rev`.
    pub open spec fn reserved(
        self,
        query_type: TypeId,
        key: Q,
        fork: ForkId,
        rev: Revision,
        latch: Latch,
    ) -> TableState<Q, V> {
        self.placed(query_type, key, OutputState::Calculating(fork, rev, latch), rev, Seq::empty())
    }

    /// The table after the cell `idx` learnt of a change of `caused_by` at
    /// `rev`.
    pub open spec fn redated(self, idx: DepIdx, caused_by: DepIdx, rev: Revision) -> TableState<
        Q,
        V,
    > {
        TableState {
            storages: self.storages.insert(
                idx.query_type,
                self.storages[idx.query_type].redated(idx.query_idx as int, caused_by, rev),
            ),
        }
    }

    /// The table after the cell `idx` learnt of a change of `caused_by` at
    /// `rev` and was given the value `value`.
    pub open spec fn revalued(self, idx: DepIdx, caused_by: DepIdx, value: V, rev: Revision) -> TableState<
        Q,
        V,
    > {
        TableState {
            storages: self.storages.insert(
                idx.query_type,
                self.storages[idx.query_type].revalued(idx.query_idx as int, caused_by, value, rev),
            ),
        }
    }
}

impl<Q, V> QueriesMap<Q, V> {
    /// Where the storage of `query_type` stands in the list.
    closed spec fn index_of(&self, query_type: TypeId) -> int {
        choose|i: int| 0 <= i < self.storages@.len() && (#[trigger] self.storages@[i])@.query_type == query_type
    }

    /// Whether a storage of `query_type` stands in the list.
    closed spec fn lists(&self, query_type: TypeId) -> bool {
        exists|i: int| 0 <= i < self.storages@.len() && (#[trigger] self.storages@[i])@.query_type == query_type
    }
}

impl<Q, V> View for QueriesMap<Q, V> {
    type V = TableState<Q, V>;

    closed spec fn view(&self) -> TableState<Q, V> {
        TableState {
            storages: Map::new(
                |t: TypeId| self.lists(t),
                |t: TypeId| self.storages@[self.index_of(t)]@,
            ),
        }
    }
}

impl<Q: Hash + Eq, V> QueriesMap<Q, V> {
    /// Every storage is well-formed, and no two are of one type.
    pub closed spec fn wf(&self) -> bool {
        &&& obeys_key_model::<Arc<Q>>()
        &&& forall|i: int| 0 <= i < self.storages@.len() ==> (#[trigger] self.storages@[i]).wf()
        &&& forall|i: int, j: int|
            0 <= i < j < self.storages@.len() ==> (#[trigger] self.storages@[i])@.query_type != (
            #[trigger] self.storages@[j])@.query_type
    }

    /// A well-formed table has well-formed content.
    pub proof fn lemma_wf(&self)
        requires
            self.wf(),
        ensures
            self@.wf(),
            obeys_key_model::<Arc<Q>>(),
    {
        assert forall|t: TypeId| #[trigger] self@.storages.contains_key(t) implies self@.storages[t].wf()
            && self@.storages[t].query_type == t by {
            let i = self.index_of(t);
            self.storages@[i].lemma_wf();
        }
    }

    /// What the list holds at each place is what the map holds under the
    /// type found there.
    proof fn lemma_listed(&self, i: int)
        requires
            self.wf(),
            0 <= i < self.storages@.len(),
        ensures
            self@.storages.contains_key(self.storages@[i]@.query_type),
            self.index_of(self.storages@[i]@.query_type) == i,
            self@.storages[self.storages@[i]@.query_type] == self.storages@[i]@,
    {
        let t = self.storages@[i]@.query_type;
        assert(self.lists(t));
        let j = self.index_of(t);
        assert(self.storages@[j]@.query_type == t);
        if i < j {
            assert(self.storages@[i]@.query_type != self.storages@[j]@.query_type);
        }
        if j < i {
            assert(self.storages@[j]@.query_type != self.storages@[i]@.query_type);
        }
    }

    /// A table without storages.
    pub fn new() -> (table: QueriesMap<Q, V>)
        requires
            obeys_key_model::<Arc<Q>>(),
        ensures
            table.wf(),
            table@.storages == Map::<TypeId, StorageState<Q, V>>::empty(),
    {
        let table = QueriesMap { storages: Vec::new() };
        assert(table@.storages =~= Map::<TypeId, StorageState<Q, V>>::empty());
        table
    }

    /// Where the storage of `query_type` stands, if there is one.
    fn position(&self, query_type: &TypeId) -> (at: Option<usize>)
        requires
            self.wf(),
        ensures
            match at {
                Some(i) => i < self.storages@.len() && self.storages@[i as int]@.query_type
                    == *query_type && self@.storages.contains_key(*query_type)
                    && self@.storages[*query_type] == self.storages@[i as int]@,
                None => !self@.storages.contains_key(*query_type),
            },
    {
        let mut i: usize = 0;
        while i < self.storages.len()
            invariant
                self.wf(),
                i <= self.storages.len(),
                forall|j: int| 0 <= j < i ==> (#[trigger] self.storages@[j])@.query_type != *query_type,
            decreases self.storages.len() - i,
        {
            if self.storages[i].query_type() == *query_type {
                proof {
                    self.lemma_listed(i as int);
                }
                return Some(i);
            }
            i += 1;
        }
        None
    }

    /// Where the storage of `query_type` stands; makes it where there is
    /// none.
    fn ensure(&mut self, query_type: TypeId) -> (at: usize)
        requires
            old(self).wf(),
        ensures
            final(self).wf(),
            final(self)@ == old(self)@.ensured(query_type),
            at < final(self).storages@.len(),
            final(self).storages@[at as int]@ == old(self)@.storage(query_type),
            final(self).storages@[at as int]@.query_type == query_type,
    {
        match self.position(&query_type) {
            Some(at) => {
                proof {
                    self.lemma_wf();
                    assert(self@.storages =~= old(self)@.ensured(query_type).storages);
                }
                at
            },
            None => {
                let at = self.storages.len();
                self.storages.push(QueryStorage::new(query_type));
                proof {
                    assert forall|i: int, j: int| 0 <= i < j < self.storages@.len() implies (
                    #[trigger] self.storages@[i])@.query_type != (#[trigger] self.storages@[j])@.query_type by {
                        if j == at {
                            if self.storages@[i]@.query_type == query_type {
                                old(self).lemma_listed(i);
                            }
                        }
                    }
                    self.lemma_listed(at as int);
                    assert forall|t: TypeId| #[trigger] self@.storages.contains_key(t) implies old(self)@.ensured(query_type).storages.contains_key(t) && self@.storages[t] == old(self)@.ensured(query_type).storages[t] by {
                        let i = self.index_of(t);
                        self.lemma_listed(i);
                        if i < at {
                            old(self).lemma_listed(i);
                        }
                    }
                    assert forall|t: TypeId| #[trigger]
                        old(self)@.ensured(query_type).storages.contains_key(
                            t,
                        ) implies self@.storages.contains_key(t) by {
                        if t != query_type {
                            let i = old(self).index_of(t);
                            assert(self.storages@[i] == old(self).storages@[i]);
                            self.lemma_listed(i);
                        }
                    }
                    assert(self@.storages =~= old(self)@.ensured(query_type).storages);
                }
                at
            },
        }
    }

    /// What the table holds after one storage was changed in place.
    proof fn lemma_replaced(before: &Self, after: &Self, at: int)
        requires
            before.wf(),
            0 <= at < before.storages@.len(),
            after.storages@.len() == before.storages@.len(),
            forall|i: int|
                0 <= i < before.storages@.len() && i != at ==> after.storages@[i]
                    == before.storages@[i],
            after.storages@[at].wf(),
            after.storages@[at]@.query_type == before.storages@[at]@.query_type,
        ensures
            after.wf(),
            after@.storages == before@.storages.insert(
                before.storages@[at]@.query_type,
                after.storages@[at]@,
            ),
    {
        let t = before.storages@[at]@.query_type;
        assert forall|i: int, j: int| 0 <= i < j < after.storages@.len() implies (
        #[trigger] after.storages@[i])@.query_type != (#[trigger] after.storages@[j])@.query_type by {
            assert(before.storages@[i]@.query_type != before.storages@[j]@.query_type);
        }
        let want = before@.storages.insert(t, after.storages@[at]@);
        assert forall|u: TypeId| #[trigger] after@.storages.contains_key(u) implies want.contains_key(
            u,
        ) && after@.storages[u] == want[u] by {
            let i = after.index_of(u);
            after.lemma_listed(i);
            before.lemma_listed(i);
        }
        assert forall|u: TypeId| #[trigger] want.contains_key(u) implies after@.storages.contains_key(
            u,
        ) by {
            if u == t {
                after.lemma_listed(at);
            } else {
                let i = before.index_of(u);
                before.lemma_listed(i);
                after.lemma_listed(i);
            }
        }
        assert(after@.storages =~= want);
    }

    /// Whether a cell exists for `query` of type `query_type`.
    pub fn contains_query(&self, query_type: &TypeId, query: &Arc<Q>) -> (b: bool)
        requires
            self.wf(),
        ensures
            b == self@.storage(*query_type).contains(**query),
    {
        match self.position(query_type) {
            Some(at) => self.storages[at].contains_query(query),
            None => false,
        }
    }

    /// The cell of `query` of type `query_type`.
    pub fn get(&self, query_type: &TypeId, query: &Arc<Q>) -> (cell: &QueryCell<V>)
        requires
            self.wf(),
            self@.storage(*query_type).contains(**query),
        ensures
            cell@ == self@.storage(*query_type).cell_of(**query),
    {
        let at = self.position(query_type).unwrap();
        self.storages[at].get(query)
    }

    /// Marks the cell of `query` as being computed by `fork` since
    /// `current_rev`; makes the storage and the cell where there is none yet.
    pub fn reserve(&mut self, query_type: TypeId, query: Arc<Q>, fork: ForkId, current_rev: Revision) -> (holder:
        Reservation)
        requires
            old(self).wf(),
        ensures
            final(self).wf(),
            final(self)@ == old(self)@.reserved(
                query_type,
                *query,
                fork,
                current_rev,
                holder.latch(),
            ),
            old(self)@.dominant() ==> final(self)@.dominant(),
    {
        let at = self.ensure(query_type);
        let ghost mid = *self;
        let holder = self.storages[at].reserve(query, fork, current_rev);
        proof {
            old(self).lemma_wf();
            assert forall|key: Q| old(self)@.dominant() implies (#[trigger] old(self)@.placed(
                query_type,
                key,
                OutputState::Calculating(fork, current_rev, holder.latch()),
                current_rev,
                Seq::empty(),
            )).dominant() by {
                lemma_writes_keep_dominance(
                    old(self)@,
                    query_type,
                    key,
                    OutputState::Calculating(fork, current_rev, holder.latch()),
                    current_rev,
                    Seq::empty(),
                );
            }
            Self::lemma_replaced(&mid, self, at as int);
            assert(self@.storages =~= old(self)@.reserved(
                query_type,
                *query,
                fork,
                current_rev,
                holder.latch(),
            ).storages);
        }
        holder
    }

    /// Writes a computed value into the cell of `query`; makes the storage
    /// and the cell where there is none yet. Returns the cell as written.
    pub fn insert_calculated(
        &mut self,
        query_type: TypeId,
        query: Arc<Q>,
        output: V,
        rev: Revision,
        deps: Vec<Dep>,
    ) -> (cell: QueryCell<V>)
        requires
            old(self).wf(),
        ensures
            final(self).wf(),
            final(self)@ == old(self)@.placed(
                query_type,
                *query,
                OutputState::Calculated(output),
                rev,
                nodes(deps@),
            ),
            final(self)@.storage(query_type).contains(*query),
            cell@ == final(self)@.storage(query_type).cell_of(*query),
            cell@.output == OutputState::Calculated(output),
            cell@.rev == rev,
            cell@.deps == nodes(deps@),
            old(self)@.dominant() && (forall|i: int|
                0 <= i < deps@.len() ==> (#[trigger] nodes(deps@)[i]).rev@ <= rev@)
                ==> final(self)@.dominant(),
    {
        let at = self.ensure(query_type);
        let ghost mid = *self;
        let cell = self.storages[at].insert_calculated(query, output, rev, deps);
        proof {
            old(self).lemma_wf();
            assert forall|key: Q|
                old(self)@.dominant() && (forall|i: int|
                    0 <= i < deps@.len() ==> (#[trigger] nodes(deps@)[i]).rev@
                        <= rev@) implies (#[trigger] old(self)@.placed(
                query_type,
                key,
                OutputState::Calculated(output),
                rev,
                nodes(deps@),
            )).dominant() by {
                lemma_writes_keep_dominance(
                    old(self)@,
                    query_type,
                    key,
                    OutputState::Calculated(output),
                    rev,
                    nodes(deps@),
                );
            }
            Self::lemma_replaced(&mid, self, at as int);
            assert(self@.storages =~= old(self)@.placed(
                query_type,
                *query,
                OutputState::Calculated(output),
                rev,
                nodes(deps@),
            ).storages);
        }
        cell
    }

    /// Whether `idx` names a cell of this table.
    pub fn has_cell(&self, idx: &DepIdx) -> (b: bool)
        requires
            self.wf(),
        ensures
            b == self@.has_cell(*idx),
    {
        match self.position(&idx.query_type) {
            Some(at) => idx.query_idx < self.storages[at].len(),
            None => false,
        }
    }

    /// The cell that `idx` names.
    pub fn cell(&self, idx: &DepIdx) -> (cell: &QueryCell<V>)
        requires
            self.wf(),
            self@.has_cell(*idx),
        ensures
            cell@ == self@.cell(*idx),
    {
        let at = self.position(&idx.query_type).unwrap();
        self.storages[at].cell_at(idx.query_idx)
    }

    /// The key of the cell that `idx` names.
    pub fn key(&self, idx: &DepIdx) -> (query: Arc<Q>)
        requires
            self.wf(),
            self@.has_cell(*idx),
        ensures
            *query == self@.key(*idx),
    {
        let at = self.position(&idx.query_type).unwrap();
        self.storages[at].key_at(idx.query_idx)
    }

    /// The present revision of the cell that `dep` points at.
    pub fn dep_rev(&self, dep: &Dep) -> (rev: Revision)
        requires
            self.wf(),
            self@.has_cell(dep@.idx),
        ensures
            rev == self@.cell(dep@.idx).rev,
    {
        let at = self.position(&dep.idx.query_type).unwrap();
        self.storages[at].dep_rev(dep)
    }

    /// The key of the cell that `dep` points at, for computing it anew.
    pub fn dyn_query(&self, dep: &Dep) -> (query: Arc<Q>)
        requires
            self.wf(),
            self@.has_cell(dep@.idx),
        ensures
            *query == self@.key(dep@.idx),
    {
        let at = self.position(&dep.idx.query_type).unwrap();
        self.storages[at].dyn_query(dep)
    }

    /// Sets the revision of the cell `idx` of type `query_type` to `rev` and
    /// makes the change of `caused_by` known to its dependency records.
    pub fn update_rev(&mut self, query_type: TypeId, idx: usize, caused_by: DepIdx, rev: Revision)
        requires
            old(self).wf(),
            old(self)@.has_cell(DepIdx { query_type, query_idx: idx }),
        ensures
            final(self).wf(),
            final(self)@ == old(self)@.redated(
                DepIdx { query_type, query_idx: idx },
                caused_by,
                rev,
            ),
            old(self)@.dominant() && old(self)@.cell(DepIdx { query_type, query_idx: idx }).rev@
                <= rev@ ==> final(self)@.dominant(),
    {
        let at = self.position(&query_type).unwrap();
        self.storages[at].update_rev(idx, caused_by, rev);
        proof {
            old(self).lemma_wf();
            let slot = DepIdx { query_type, query_idx: idx };
            if old(self)@.dominant() && old(self)@.cell(slot).rev@ <= rev@ {
                lemma_redate_keeps_dominance(old(self)@, slot, caused_by, rev);
            }
            Self::lemma_replaced(old(self), self, at as int);
        }
    }

    /// Like [`Self::update_rev`], for the cell that `dep` points at.
    pub fn update_dep_rev(&mut self, dep: &Dep, caused_by: DepIdx, rev: Revision)
        requires
            old(self).wf(),
            old(self)@.has_cell(dep@.idx),
        ensures
            final(self).wf(),
            final(self)@ == old(self)@.redated(dep@.idx, caused_by, rev),
            old(self)@.dominant() && old(self)@.cell(dep@.idx).rev@ <= rev@ ==> final(self)@.dominant(),
    {
        self.update_rev(dep.idx.query_type, dep.idx.query_idx, caused_by, rev)
    }
}

impl<Q: Hash + Eq, V: PartialEq> QueriesMap<Q, V> {
    /// Takes in the value that a new computation of the cell that `dep`
    /// points at gave. The cell learns of the change of `caused_by` at `rev`.
    /// Where the value equals the one it holds, the cell keeps it and the
    /// finding is `Revisioned`; otherwise the cell takes the value and the
    /// finding is `Outdated`.
    pub fn update_output(&mut self, dep: &Dep, caused_by: DepIdx, new_value: V, rev: Revision) -> (found:
        Invalidation)
        requires
            old(self).wf(),
            old(self)@.has_cell(dep@.idx),
            old(self)@.cell(dep@.idx).output is Calculated,
        ensures
            final(self).wf(),
            found == Invalidation::Revisioned(rev, caused_by) || found == Invalidation::Outdated(
                rev,
                caused_by,
            ),
            found is Revisioned ==> final(self)@ == old(self)@.redated(dep@.idx, caused_by, rev),
            found is Outdated ==> final(self)@ == old(self)@.revalued(
                dep@.idx,
                caused_by,
                new_value,
                rev,
            ),
            V::obeys_eq_spec() ==> (found is Revisioned <==> old(self)@.cell(
                dep@.idx,
            ).output->Calculated_0.eq_spec(&new_value)),
            old(self)@.dominant() && old(self)@.cell(dep@.idx).rev@ <= rev@ ==> final(self)@.dominant(),
    {
        self.update_output_at(dep.idx, caused_by, new_value, rev)
    }

    /// Like [`Self::update_output`], for the cell that `idx` names.
    pub fn update_output_at(&mut self, idx: DepIdx, caused_by: DepIdx, new_value: V, rev: Revision) -> (found:
        Invalidation)
        requires
            old(self).wf(),
            old(self)@.has_cell(idx),
            old(self)@.cell(idx).output is Calculated,
        ensures
            final(self).wf(),
            found == Invalidation::Revisioned(rev, caused_by) || found == Invalidation::Outdated(
                rev,
                caused_by,
            ),
            found is Revisioned ==> final(self)@ == old(self)@.redated(idx, caused_by, rev),
            found is Outdated ==> final(self)@ == old(self)@.revalued(
                idx,
                caused_by,
                new_value,
                rev,
            ),
            V::obeys_eq_spec() ==> (found is Revisioned <==> old(self)@.cell(
                idx,
            ).output->Calculated_0.eq_spec(&new_value)),
            old(self)@.dominant() && old(self)@.cell(idx).rev@ <= rev@ ==> final(self)@.dominant(),
    {
        let at = self.position(&idx.query_type).unwrap();
        let found = self.storages[at].update_output_at(idx.query_idx, caused_by, new_value, rev);
        proof {
            old(self).lemma_wf();
            if old(self)@.dominant() && old(self)@.cell(idx).rev@ <= rev@ {
                lemma_redate_keeps_dominance(old(self)@, idx, caused_by, rev);
                lemma_revalue_keeps_dominance(old(self)@, idx, caused_by, new_value, rev);
            }
            Self::lemma_replaced(old(self), self, at as int);
        }
        found
    }
}

} // verus!
