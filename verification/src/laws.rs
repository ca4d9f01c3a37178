//! What holds of the engine across its steps.

use crate::cell::CellState;
use crate::cell::OutputState;
use crate::dep::DepIdx;
use crate::dep::DepNode;
use crate::fork::ForkId;
use crate::reservation::Latch;
use crate::revision::ticked;
use crate::revision::Revision;
use crate::runtime::Plan;
use crate::storage::StorageState;
use crate::table::TableState;
use std::any::TypeId;
use vstd::prelude::*;

verus! {

/// A cell that learns of a change at a revision not older than its own
/// stays dated no earlier than its dependencies were observed.
pub proof fn lemma_redated_cell_dominates<V>(cell: CellState<V>, caused_by: DepIdx, rev: Revision)
    requires
        cell.dominates_deps(),
        cell.rev@ <= rev@,
    ensures
        cell.redated(caused_by, rev).dominates_deps(),
        cell.redated(caused_by, rev).output == cell.output,
        cell.redated(caused_by, rev).idx == cell.idx,
        cell.redated(caused_by, rev).deps.len() == cell.deps.len(),
{
    let after = cell.redated(caused_by, rev);
    assert forall|i: int| 0 <= i < after.deps.len() implies (#[trigger] after.deps[i]).rev@
        <= after.rev@ by {
        assert(cell.deps[i].rev@ <= cell.rev@);
    }
}

/// A write keeps a well-formed storage well-formed, provided that a cell
/// marked as being computed is written without dependencies. It keeps every
/// cell dated no earlier than its dependencies were observed, provided that
/// this holds of what is written.
pub proof fn lemma_placed_storage<Q, V>(
    storage: StorageState<Q, V>,
    key: Q,
    output: OutputState<V>,
    rev: Revision,
    deps: Seq<DepNode>,
)
    requires
        storage.wf(),
        output is Calculating ==> deps.len() == 0,
    ensures
        storage.keys.len() < usize::MAX ==> storage.placed(key, output, rev, deps).wf(),
        storage.placed(key, output, rev, deps).query_type == storage.query_type,
        (storage.dominant() && forall|i: int| 0 <= i < deps.len() ==> (#[trigger] deps[i]).rev@
            <= rev@) ==> storage.placed(key, output, rev, deps).dominant(),
{
    storage.lemma_placed(key, output, rev, deps);
    let after = storage.placed(key, output, rev, deps);
    if storage.contains(key) {
        let slot = storage.slot_of(key);
        assert forall|i: int| 0 <= i < after.cells.len() implies (#[trigger] after.cells[i]).idx == (
        DepIdx { query_type: after.query_type, query_idx: i as usize }) by {
            assert(storage.cells[i].idx == (DepIdx {
                query_type: storage.query_type,
                query_idx: i as usize,
            }));
        }
        assert forall|i: int| 0 <= i < after.cells.len() implies ((#[trigger] after.cells[i]).output is Calculating
            ==> after.cells[i].deps.len() == 0) by {
            if i != slot {
                assert(storage.cells[i].output is Calculating ==> storage.cells[i].deps.len() == 0);
            }
        }
    } else {
        assert forall|i: int| 0 <= i < after.cells.len() implies (#[trigger] after.cells[i]).idx == (
        DepIdx { query_type: after.query_type, query_idx: i as usize }) by {
            if i < storage.cells.len() {
                assert(storage.cells[i].idx == (DepIdx {
                    query_type: storage.query_type,
                    query_idx: i as usize,
                }));
            }
        }
        assert forall|i: int| 0 <= i < after.cells.len() implies ((#[trigger] after.cells[i]).output is Calculating
            ==> after.cells[i].deps.len() == 0) by {
            if i < storage.cells.len() {
                assert(storage.cells[i].output is Calculating ==> storage.cells[i].deps.len() == 0);
            }
        }
    }
    if storage.dominant() && forall|i: int|
        0 <= i < deps.len() ==> (#[trigger] deps[i]).rev@ <= rev@ {
        assert forall|i: int| 0 <= i < after.cells.len() implies (#[trigger] after.cells[i]).dominates_deps() by {
            if i < storage.cells.len() {
                assert(storage.cells[i].dominates_deps());
            }
        }
    }
}

/// A storage in which a cell learns of a change at a revision not older
/// than its own keeps every cell dated no earlier than its dependencies
/// were observed. The values and the keys stay as they are.
pub proof fn lemma_redated_storage<Q, V>(
    storage: StorageState<Q, V>,
    slot: int,
    caused_by: DepIdx,
    rev: Revision,
)
    requires
        storage.wf(),
        0 <= slot < storage.cells.len(),
    ensures
        storage.redated(slot, caused_by, rev).wf(),
        storage.redated(slot, caused_by, rev).keys == storage.keys,
        forall|i: int|
            0 <= i < storage.cells.len() ==> (#[trigger] storage.redated(
                slot,
                caused_by,
                rev,
            ).cells[i]).output == storage.cells[i].output,
        storage.dominant() && storage.cells[slot].rev@ <= rev@ ==> storage.redated(
            slot,
            caused_by,
            rev,
        ).dominant(),
{
    let after = storage.redated(slot, caused_by, rev);
    assert forall|i: int| 0 <= i < after.cells.len() implies (#[trigger] after.cells[i]).idx == (
    DepIdx { query_type: after.query_type, query_idx: i as usize }) by {
        assert(storage.cells[i].idx == (DepIdx {
            query_type: storage.query_type,
            query_idx: i as usize,
        }));
    }
    assert forall|i: int| 0 <= i < after.cells.len() implies ((#[trigger] after.cells[i]).output is Calculating
        ==> after.cells[i].deps.len() == 0) by {
        assert(storage.cells[i].output is Calculating ==> storage.cells[i].deps.len() == 0);
    }
    if storage.dominant() && storage.cells[slot].rev@ <= rev@ {
        assert forall|i: int| 0 <= i < after.cells.len() implies (#[trigger] after.cells[i]).dominates_deps() by {
            assert(storage.cells[i].dominates_deps());
            if i == slot {
                lemma_redated_cell_dominates(storage.cells[slot], caused_by, rev);
            }
        }
    }
}

/// Whatever the engine writes, every cell stays dated no earlier than any
/// of its top-level dependencies was observed: a reservation and an input
/// carry no dependencies, and a computed cell is dated by
/// [`crate::dep::completion_rev`].
pub proof fn lemma_writes_keep_dominance<Q, V>(
    table: TableState<Q, V>,
    query_type: TypeId,
    key: Q,
    output: OutputState<V>,
    rev: Revision,
    deps: Seq<DepNode>,
)
    requires
        table.wf(),
        table.dominant(),
        output is Calculating ==> deps.len() == 0,
        forall|i: int| 0 <= i < deps.len() ==> (#[trigger] deps[i]).rev@ <= rev@,
    ensures
        table.storage(query_type).keys.len() < usize::MAX ==> table.placed(
            query_type,
            key,
            output,
            rev,
            deps,
        ).wf(),
        table.placed(query_type, key, output, rev, deps).dominant(),
{
    let before = table.storage(query_type);
    assert(before.wf() && before.dominant() && before.query_type == query_type);
    lemma_placed_storage(before, key, output, rev, deps);
}

/// A cell that learns of a change at a revision not older than its own
/// leaves every cell of the table dated no earlier than its dependencies
/// were observed.
pub proof fn lemma_redate_keeps_dominance<Q, V>(
    table: TableState<Q, V>,
    idx: DepIdx,
    caused_by: DepIdx,
    rev: Revision,
)
    requires
        table.wf(),
        table.dominant(),
        table.has_cell(idx),
        table.cell(idx).rev@ <= rev@,
    ensures
        table.redated(idx, caused_by, rev).wf(),
        table.redated(idx, caused_by, rev).dominant(),
{
    lemma_redated_storage(table.storages[idx.query_type], idx.query_idx as int, caused_by, rev);
}

/// A cell that learns of a change at a revision not older than its own and
/// takes a new value leaves every cell of the table dated no earlier than
/// its dependencies were observed.
pub proof fn lemma_revalue_keeps_dominance<Q, V>(
    table: TableState<Q, V>,
    idx: DepIdx,
    caused_by: DepIdx,
    value: V,
    rev: Revision,
)
    requires
        table.wf(),
        table.dominant(),
        table.has_cell(idx),
        table.cell(idx).rev@ <= rev@,
    ensures
        table.revalued(idx, caused_by, value, rev).dominant(),
{
    let storage = table.storages[idx.query_type];
    let slot = idx.query_idx as int;
    let after = storage.revalued(slot, caused_by, value, rev);
    assert forall|i: int| 0 <= i < after.cells.len() implies (#[trigger] after.cells[i]).dominates_deps() by {
        assert(storage.cells[i].dominates_deps());
        if i == slot {
            lemma_redated_cell_dominates(storage.cells[slot], caused_by, rev);
        }
    }
}

/// An input that was set is read back: the demand of its key is ready at
/// once, at any revision and from any lineage, and shows the value and the
/// revision that were set. Setting it again replaces both.
pub proof fn lemma_input_round_trip<Q, V>(
    table: TableState<Q, V>,
    query_type: TypeId,
    key: Q,
    value: V,
    rev: Revision,
    again: V,
    later: Revision,
    fork: ForkId,
    at: Revision,
)
    requires
        table.wf(),
    ensures
        ({
            let once = table.placed(
                query_type,
                key,
                OutputState::Calculated(value),
                rev,
                Seq::empty(),
            );
            let twice = once.placed(
                query_type,
                key,
                OutputState::Calculated(again),
                later,
                Seq::empty(),
            );
            &&& once.plan(query_type, key, fork, at) is Ready
            &&& once.storage(query_type).cell_of(key).output == OutputState::Calculated(value)
            &&& once.storage(query_type).cell_of(key).rev == rev
            &&& twice.plan(query_type, key, fork, at) is Ready
            &&& twice.storage(query_type).cell_of(key).output == OutputState::Calculated(again)
            &&& twice.storage(query_type).cell_of(key).rev == later
        }),
{
    let before = table.storage(query_type);
    before.lemma_placed(key, OutputState::Calculated(value), rev, Seq::empty());
    let once = before.placed(key, OutputState::Calculated(value), rev, Seq::empty());
    once.lemma_placed(key, OutputState::Calculated(again), later, Seq::empty());
}

/// The clock only moves forward: short of the end of the machine word a
/// tick gives a later reading, and two ticks move the clock on by two.
pub proof fn lemma_ticks_advance(before: nat)
    ensures
        before < usize::MAX ==> ticked(before) > before,
        before + 2 <= usize::MAX ==> ticked(ticked(before)) == before + 2,
{
}

/// Cells are never destroyed, and they never move: whatever the engine
/// writes, a cell that exists keeps its place, its key and its identity.
pub proof fn lemma_cells_stay<Q, V>(
    table: TableState<Q, V>,
    idx: DepIdx,
    query_type: TypeId,
    key: Q,
    output: OutputState<V>,
    rev: Revision,
    deps: Seq<DepNode>,
    target: DepIdx,
    caused_by: DepIdx,
    value: V,
)
    requires
        table.wf(),
        table.has_cell(idx),
    ensures
        table.ensured(query_type).has_cell(idx),
        table.ensured(query_type).cell(idx) == table.cell(idx),
        table.placed(query_type, key, output, rev, deps).has_cell(idx),
        table.placed(query_type, key, output, rev, deps).key(idx) == table.key(idx),
        table.placed(query_type, key, output, rev, deps).cell(idx).idx == table.cell(idx).idx,
        !(idx.query_type == query_type && table.key(idx) == key) ==> table.placed(
            query_type,
            key,
            output,
            rev,
            deps,
        ).cell(idx) == table.cell(idx),
        table.has_cell(target) ==> {
            &&& table.redated(target, caused_by, rev).has_cell(idx)
            &&& table.redated(target, caused_by, rev).key(idx) == table.key(idx)
            &&& target != idx ==> table.redated(target, caused_by, rev).cell(idx) == table.cell(idx)
            &&& table.revalued(target, caused_by, value, rev).has_cell(idx)
            &&& table.revalued(target, caused_by, value, rev).key(idx) == table.key(idx)
            &&& target != idx ==> table.revalued(target, caused_by, value, rev).cell(idx)
                == table.cell(idx)
        },
{
    let storage = table.storages[idx.query_type];
    let slot = idx.query_idx as int;
    if idx.query_type == query_type {
        storage.lemma_placed(key, output, rev, deps);
        if storage.contains(key) {
            assert(storage.keys[storage.slot_of(key)] == key);
        }
    }
}

/// While a cell is reserved at a revision, no second computation of it
/// starts at that revision: a demand from the reserving lineage is a cycle,
/// a demand from any other lineage waits on the latch of the reservation.
pub proof fn lemma_reservation_is_exclusive<Q, V>(
    table: TableState<Q, V>,
    query_type: TypeId,
    key: Q,
    fork: ForkId,
    rev: Revision,
    latch: Latch,
    other: ForkId,
)
    requires
        table.wf(),
    ensures
        ({
            let after = table.reserved(query_type, key, fork, rev, latch);
            &&& other == fork ==> after.plan(query_type, key, other, rev) is Cycle
            &&& other != fork ==> after.plan(query_type, key, other, rev) == Plan::Wait(latch)
        }),
{
    table.storage(query_type).lemma_placed(
        key,
        OutputState::Calculating(fork, rev, latch),
        rev,
        Seq::empty(),
    );
}

/// A reservation that was taken at another revision was given up: a demand
/// at the present revision computes the cell anew.
pub proof fn lemma_stale_reservation_is_retaken<Q, V>(
    table: TableState<Q, V>,
    query_type: TypeId,
    key: Q,
    fork: ForkId,
    rev: Revision,
    latch: Latch,
    other: ForkId,
    now: Revision,
)
    requires
        table.wf(),
        now != rev,
    ensures
        table.reserved(query_type, key, fork, rev, latch).plan(query_type, key, other, now)
            is Compute,
{
    table.storage(query_type).lemma_placed(
        key,
        OutputState::Calculating(fork, rev, latch),
        rev,
        Seq::empty(),
    );
}

/// A demand of a cached value changes nothing that a second demand would
/// see: after the first step the plan, the cell and the table are what they
/// were, and no computation is asked for.
pub proof fn lemma_query_is_idempotent<Q, V>(
    table: TableState<Q, V>,
    query_type: TypeId,
    key: Q,
    fork: ForkId,
    rev: Revision,
)
    requires
        table.wf(),
        table.plan(query_type, key, fork, rev) is Ready || table.plan(query_type, key, fork, rev)
            is Validate,
    ensures
        table.ensured(query_type) == table,
        table.storage(query_type).cell_of(key).output is Calculated,
        !(table.plan(query_type, key, fork, rev) is Compute),
{
    assert(table.storages.contains_key(query_type)) by {
        if !table.storages.contains_key(query_type) {
            assert(!StorageState::<Q, V>::empty(query_type).keys.contains(key));
        }
    }
    assert(table.ensured(query_type).storages =~= table.storages);
}

/// Early cutoff: a cell that is only re-dated keeps its value, and a demand
/// of its key is answered from the cache as before.
pub proof fn lemma_early_cutoff<Q, V>(
    table: TableState<Q, V>,
    query_type: TypeId,
    key: Q,
    fork: ForkId,
    now: Revision,
    caused_by: DepIdx,
    rev: Revision,
)
    requires
        table.wf(),
        table.plan(query_type, key, fork, now) is Ready || table.plan(query_type, key, fork, now)
            is Validate,
    ensures
        ({
            let slot = table.storage(query_type).slot_of(key);
            let idx = DepIdx { query_type, query_idx: slot as usize };
            let after = table.redated(idx, caused_by, rev);
            &&& table.has_cell(idx)
            &&& after.plan(query_type, key, fork, now) == table.plan(query_type, key, fork, now)
            &&& after.storage(query_type).cell_of(key).output == table.storage(
                query_type,
            ).cell_of(key).output
            &&& after.storage(query_type).cell_of(key).rev == rev
        }),
{
    lemma_query_is_idempotent(table, query_type, key, fork, now);
    let storage = table.storages[query_type];
    let slot = storage.slot_of(key);
    lemma_redated_storage(storage, slot, caused_by, rev);
    let idx = DepIdx { query_type, query_idx: slot as usize };
    let after = table.redated(idx, caused_by, rev);
    assert(after.storage(query_type) == storage.redated(slot, caused_by, rev));
    assert(after.storage(query_type).cells[slot].output == storage.cells[slot].output);
}

} // verus!
