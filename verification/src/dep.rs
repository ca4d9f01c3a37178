//! Dependency records: what one evaluation consulted, and when.

use crate::invalidation::Invalidation;
use crate::revision::Revision;
use std::any::TypeId;
use vstd::prelude::*;

verus! {

/// `std::any::TypeId`, the token of a query type. Nothing is known of what
/// is inside.
#[verifier::external_type_specification]
#[verifier::external_body]
pub struct ExTypeId(std::any::TypeId);

/// `TypeId`'s `==` holds of two identifiers exactly when they are the same
/// identifier: the comparison reads nothing but the two values.
pub assume_specification[ <TypeId as PartialEq>::eq ](a: &TypeId, b: &TypeId) -> (r: bool)
    ensures
        r == (*a == *b),
;

/// The identity of one cell: the type of the query and the cell's position in
/// that type's storage.
#[derive(Clone, Copy, Debug)]
pub struct DepIdx {
    pub query_type: TypeId,
    pub query_idx: usize,
}

impl DepIdx {
    pub fn new(query_type: TypeId, query_idx: usize) -> (idx: DepIdx)
        ensures
            idx == (DepIdx { query_type, query_idx }),
    {
        DepIdx { query_type, query_idx }
    }

    /// Whether both name the same cell.
    pub fn same(&self, other: &DepIdx) -> (b: bool)
        ensures
            b == (*self == *other),
    {
        self.query_idx == other.query_idx && self.query_type == other.query_type
    }
}

/// One consulted sub-query: the target cell, the revision the target had when
/// it was consulted, and the target's own dependencies at that moment.
pub struct Dep {
    pub idx: DepIdx,
    pub query_rev: Revision,
    pub query_deps: Vec<Dep>,
}

/// The mathematical shape of a [`Dep`]: a finite tree.
pub struct DepNode {
    pub idx: DepIdx,
    pub rev: Revision,
    pub children: Seq<DepNode>,
}

/// The tree that a record and the records below it form.
pub open spec fn tree(dep: Dep) -> DepNode
    decreases dep,
{
    DepNode {
        idx: dep.idx,
        rev: dep.query_rev,
        children: Seq::new(
            dep.query_deps@.len(),
            |i: int|
                if 0 <= i < dep.query_deps@.len() {
                    tree(dep.query_deps@[i])
                } else {
                    arbitrary()
                },
        ),
    }
}

impl View for Dep {
    type V = DepNode;

    open spec fn view(&self) -> DepNode {
        tree(*self)
    }
}

/// The trees of a list of records, in order.
pub open spec fn nodes(deps: Seq<Dep>) -> Seq<DepNode> {
    Seq::new(deps.len(), |i: int| deps[i]@)
}

/// Whether `rev` is the newest revision observed by the top-level records in
/// `deps`: one of them observed it, and none observed a later one.
pub open spec fn is_last_rev(deps: Seq<DepNode>, rev: Revision) -> bool {
    &&& exists|i: int| 0 <= i < deps.len() && (#[trigger] deps[i]).rev == rev
    &&& forall|i: int| 0 <= i < deps.len() ==> (#[trigger] deps[i]).rev@ <= rev@
}

/// The newest revision observed by the top-level records in `deps`, if there
/// is any record.
pub open spec fn last_rev_of(deps: Seq<DepNode>) -> Option<Revision> {
    if deps.len() == 0 {
        None
    } else {
        Some(choose|rev: Revision| is_last_rev(deps, rev))
    }
}

/// What a record of `idx` that observed `observed` is found to be once the
/// cell shows `current`: outdated when the cell has moved on, fresh
/// otherwise.
pub open spec fn outdated_by(idx: DepIdx, observed: Revision, current: Revision) -> Invalidation {
    if observed@ < current@ {
        Invalidation::Outdated(current, idx)
    } else {
        Invalidation::Fresh
    }
}

impl DepNode {
    /// Whether this record, or a record below it, points at `caused_by`.
    pub open spec fn touches(self, caused_by: DepIdx) -> bool
        decreases self,
    {
        self.idx == caused_by || exists|i: int|
            0 <= i < self.children.len() && (#[trigger] self.children[i]).touches(caused_by)
    }

    /// This tree after a change of `caused_by` became known at `rev`: every
    /// record that points at `caused_by`, or has such a record below it, now
    /// observes `rev`; the others are as they were.
    pub open spec fn redated(self, caused_by: DepIdx, rev: Revision) -> DepNode
        decreases self,
    {
        DepNode {
            idx: self.idx,
            rev: if self.touches(caused_by) {
                rev
            } else {
                self.rev
            },
            children: Seq::new(
                self.children.len(),
                |i: int|
                    if 0 <= i < self.children.len() {
                        self.children[i].redated(caused_by, rev)
                    } else {
                        arbitrary()
                    },
            ),
        }
    }

    /// What a check of this record against the target's present revision
    /// finds: the record is outdated when the target has moved on.
    pub open spec fn check_outdated(self, current_rev: Revision) -> Invalidation {
        outdated_by(self.idx, self.rev, current_rev)
    }
}

impl Dep {
    pub fn new(idx: DepIdx, query_rev: Revision, query_deps: Vec<Dep>) -> (dep: Dep)
        ensures
            dep@.idx == idx,
            dep@.rev == query_rev,
            dep@.children == nodes(query_deps@),
    {
        let dep = Dep { idx, query_rev, query_deps };
        assert(dep@.children =~= nodes(query_deps@));
        dep
    }

    /// The type of the query this record points at.
    pub fn query_type(&self) -> (t: TypeId)
        ensures
            t == self@.idx.query_type,
    {
        self.idx.query_type
    }

    /// Compares the revision this record observed with the revision its
    /// target has now.
    pub fn check_outdated(&self, current_rev: Revision) -> (inv: Invalidation)
        ensures
            inv == self@.check_outdated(current_rev),
    {
        if self.query_rev.precedes(current_rev) {
            Invalidation::Outdated(current_rev, self.idx)
        } else {
            Invalidation::Fresh
        }
    }

    /// The target's own dependencies as they were when this record was made.
    pub fn deps(&self) -> (children: &[Dep])
        ensures
            nodes(children@) == self@.children,
    {
        let children = self.query_deps.as_slice();
        assert(nodes(children@) =~= self@.children);
        children
    }

    /// Makes a change of `caused_by` at `rev` known to this record and the
    /// records below it. Says whether any of them points at `caused_by`.
    pub fn redate(&mut self, caused_by: DepIdx, rev: Revision) -> (touched: bool)
        ensures
            final(self)@ == old(self)@.redated(caused_by, rev),
            touched == old(self)@.touches(caused_by),
        decreases *old(self),
    {
        let mut changed = false;
        let mut i: usize = 0;
        while i < self.query_deps.len()
            invariant
                i <= self.query_deps.len(),
                self.query_deps.len() == old(self).query_deps.len(),
                self.idx == old(self).idx,
                self.query_rev == old(self).query_rev,
                forall|j: int| 0 <= j < i ==> (#[trigger] self.query_deps[j])@ == old(self).query_deps[j]@.redated(caused_by, rev),
                forall|j: int| i <= j < self.query_deps.len() ==> (#[trigger] self.query_deps[j]) == old(self).query_deps[j],
                changed == exists|j: int| 0 <= j < i && (#[trigger] old(self).query_deps[j])@.touches(caused_by),
            decreases self.query_deps.len() - i,
        {
            let child_touched = self.query_deps[i].redate(caused_by, rev);
            changed = changed || child_touched;
            i += 1;
        }
        let touched = changed || self.idx.same(&caused_by);
        if touched {
            self.query_rev = rev;
        }
        proof {
            let before = old(self)@;
            assert forall|j: int| 0 <= j < before.children.len() implies before.children[j]
                == old(self).query_deps[j]@ by {}
            if changed {
                let j = choose|j: int|
                    0 <= j < i && (#[trigger] old(self).query_deps[j])@.touches(caused_by);
                assert(before.children[j].touches(caused_by));
            }
            if before.touches(caused_by) && before.idx != caused_by {
                let j = choose|j: int|
                    0 <= j < before.children.len() && (#[trigger] before.children[j]).touches(
                        caused_by,
                    );
                assert(old(self).query_deps[j]@.touches(caused_by));
            }
            assert(self@.children =~= before.redated(caused_by, rev).children);
        }
        touched
    }
}

impl Clone for Dep {
    /// A deep copy of this record.
    fn clone(&self) -> (copy: Dep)
        ensures
            copy@ == self@,
        decreases self,
    {
        let mut children: Vec<Dep> = Vec::new();
        let mut i: usize = 0;
        while i < self.query_deps.len()
            invariant
                i <= self.query_deps.len(),
                children.len() == i,
                forall|j: int| 0 <= j < i ==> (#[trigger] children[j])@ == self.query_deps[j]@,
            decreases self.query_deps.len() - i,
        {
            let child = self.query_deps[i].clone();
            children.push(child);
            i += 1;
        }
        let copy = Dep { idx: self.idx, query_rev: self.query_rev, query_deps: children };
        assert(copy@.children =~= self@.children);
        copy
    }
}

/// A deep copy of a list of records.
pub fn duplicate_deps(deps: &[Dep]) -> (copy: Vec<Dep>)
    ensures
        nodes(copy@) == nodes(deps@),
{
    let mut copy: Vec<Dep> = Vec::new();
    let mut i: usize = 0;
    while i < deps.len()
        invariant
            i <= deps.len(),
            copy.len() == i,
            forall|j: int| 0 <= j < i ==> (#[trigger] copy[j])@ == deps[j]@,
        decreases deps.len() - i,
    {
        copy.push(deps[i].clone());
        i += 1;
    }
    assert(nodes(copy@) =~= nodes(deps@));
    copy
}

/// There is at most one newest revision.
pub proof fn lemma_last_rev_unique(deps: Seq<DepNode>, a: Revision, b: Revision)
    requires
        is_last_rev(deps, a),
        is_last_rev(deps, b),
    ensures
        a == b,
{
    Revision::lemma_view_injective(a, b);
}

/// The revision a computed cell is dated with: the newest revision that its
/// dependencies observed, and `current` where it has none.
pub open spec fn completion_rev(deps: Seq<DepNode>, current: Revision) -> Revision {
    match last_rev_of(deps) {
        Some(rev) => rev,
        None => current,
    }
}

/// A computed cell is dated no earlier than any of its dependencies was
/// observed.
pub proof fn lemma_completion_rev_dominates(deps: Seq<DepNode>, current: Revision)
    ensures
        forall|i: int|
            0 <= i < deps.len() ==> (#[trigger] deps[i]).rev@ <= completion_rev(deps, current)@,
        deps.len() == 0 ==> completion_rev(deps, current) == current,
        deps.len() > 0 ==> is_last_rev(deps, completion_rev(deps, current)),
{
    if deps.len() > 0 {
        lemma_last_rev_exists(deps, deps.len() as int);
        assert(deps.subrange(0, deps.len() as int) =~= deps);
        let rev = choose|rev: Revision| is_last_rev(deps, rev);
        assert(is_last_rev(deps, rev));
    }
}

/// Among the first `n` records one observed a revision that none of them
/// exceeds.
proof fn lemma_last_rev_exists(deps: Seq<DepNode>, n: int)
    requires
        0 < n <= deps.len(),
    ensures
        exists|rev: Revision| is_last_rev(deps.subrange(0, n), rev),
    decreases n,
{
    let head = deps.subrange(0, n);
    if n == 1 {
        assert(head[0].rev == deps[0].rev);
        assert(is_last_rev(head, deps[0].rev));
    } else {
        lemma_last_rev_exists(deps, n - 1);
        let before = deps.subrange(0, n - 1);
        let best = choose|rev: Revision| is_last_rev(before, rev);
        let w = choose|i: int| 0 <= i < before.len() && (#[trigger] before[i]).rev == best;
        let last = deps[n - 1].rev;
        if best@ < last@ {
            assert(head[n - 1].rev == last);
            assert forall|i: int| 0 <= i < head.len() implies (#[trigger] head[i]).rev@ <= last@ by {
                if i < n - 1 {
                    assert(before[i].rev@ <= best@);
                }
            }
            assert(is_last_rev(head, last));
        } else {
            assert(head[w].rev == best);
            assert forall|i: int| 0 <= i < head.len() implies (#[trigger] head[i]).rev@ <= best@ by {
                if i < n - 1 {
                    assert(before[i].rev@ <= best@);
                }
            }
            assert(is_last_rev(head, best));
        }
    }
}

/// The newest revision observed by the top-level records, if there is any.
pub fn last_rev(deps: &[Dep]) -> (last: Option<Revision>)
    ensures
        last == last_rev_of(nodes(deps@)),
        last matches Some(rev) ==> is_last_rev(nodes(deps@), rev),
{
    if deps.len() == 0 {
        return None;
    }
    let mut best: Revision = deps[0].query_rev;
    let mut i: usize = 1;
    while i < deps.len()
        invariant
            1 <= i <= deps.len(),
            exists|j: int| 0 <= j < i && (#[trigger] deps[j]).query_rev == best,
            forall|j: int| 0 <= j < i ==> (#[trigger] deps[j]).query_rev@ <= best@,
        decreases deps.len() - i,
    {
        if best.precedes(deps[i].query_rev) {
            best = deps[i].query_rev;
        }
        i += 1;
    }
    proof {
        let ns = nodes(deps@);
        let w = choose|j: int| 0 <= j < deps.len() && (#[trigger] deps[j]).query_rev == best;
        assert(ns[w].rev == best);
        assert forall|j: int| 0 <= j < ns.len() implies (#[trigger] ns[j]).rev@ <= best@ by {
            assert(deps[j].query_rev@ <= best@);
        }
        assert(is_last_rev(ns, best));
        lemma_last_rev_unique(ns, best, last_rev_of(ns)->Some_0);
    }
    Some(best)
}

} // verus!
