//! The three-valued summary of how stale a dependency subtree is.

use crate::dep::DepIdx;
use crate::revision::Revision;
use vstd::prelude::*;

verus! {

/// What a walk over a dependency subtree found.
#[derive(Clone, Copy, Debug)]
pub enum Invalidation {
    /// A dependency has a new revision and a new output: the parent must be
    /// recomputed.
    Outdated(Revision, DepIdx),
    /// A dependency has a new revision but the same output: the parent keeps
    /// its output and is only re-dated.
    Revisioned(Revision, DepIdx),
    /// Nothing changed.
    Fresh,
}

impl Invalidation {
    /// How severe the finding is: `Fresh` below `Revisioned` below `Outdated`.
    pub open spec fn rank(self) -> nat {
        match self {
            Invalidation::Fresh => 0,
            Invalidation::Revisioned(..) => 1,
            Invalidation::Outdated(..) => 2,
        }
    }

    /// The revision the finding carries; `Fresh` carries none and counts as 0.
    pub open spec fn revision(self) -> nat {
        match self {
            Invalidation::Fresh => 0,
            Invalidation::Revisioned(rev, _) => rev@,
            Invalidation::Outdated(rev, _) => rev@,
        }
    }

    /// Whether this finding strictly outweighs `other`: it is more severe, or
    /// as severe and newer.
    pub open spec fn outweighs(self, other: Invalidation) -> bool {
        self.rank() > other.rank() || (self.rank() == other.rank() && self.revision()
            > other.revision())
    }

    /// The combination of two findings: the weightier one, and the right one
    /// where neither outweighs the other.
    pub open spec fn combine(self, rhs: Invalidation) -> Invalidation {
        if self.outweighs(rhs) {
            self
        } else {
            rhs
        }
    }

    /// Folds `rhs` into `self`.
    pub fn add_assign(&mut self, rhs: Invalidation)
        ensures
            *final(self) == old(self).combine(rhs),
    {
        *self = *self + rhs;
    }

    /// `Fresh` is neutral on both sides.
    pub proof fn lemma_fresh_is_neutral(x: Invalidation)
        ensures
            Invalidation::Fresh.combine(x) == x,
            x.combine(Invalidation::Fresh) == x,
    {
    }

    /// Combining is associative, so a fold over children may be grouped in
    /// any way.
    pub proof fn lemma_combine_associative(a: Invalidation, b: Invalidation, c: Invalidation)
        ensures
            a.combine(b).combine(c) == a.combine(b.combine(c)),
    {
    }

    /// Combining is commutative in what it finds: the severity and the
    /// revision of the result do not depend on the order; where one operand
    /// outweighs the other, neither does the result itself.
    pub proof fn lemma_combine_commutative(a: Invalidation, b: Invalidation)
        ensures
            a.combine(b).rank() == b.combine(a).rank(),
            a.combine(b).revision() == b.combine(a).revision(),
            a.outweighs(b) || b.outweighs(a) || a == b ==> a.combine(b) == b.combine(a),
    {
    }

    /// The result is one of the operands, and nothing outweighs it:
    /// `Outdated` dominates `Revisioned`, which dominates `Fresh`.
    pub proof fn lemma_combine_is_upper_bound(a: Invalidation, b: Invalidation)
        ensures
            a.combine(b) == a || a.combine(b) == b,
            !a.outweighs(a.combine(b)),
            !b.outweighs(a.combine(b)),
            (a is Outdated || b is Outdated) <==> a.combine(b) is Outdated,
            (a is Fresh && b is Fresh) <==> a.combine(b) is Fresh,
    {
    }
}

impl core::ops::Add for Invalidation {
    type Output = Invalidation;

    fn add(self, rhs: Invalidation) -> (sum: Invalidation) {
        match (self, rhs) {
            (Invalidation::Outdated(l, idx_l), Invalidation::Outdated(r, idx_r)) => {
                if r.precedes(l) {
                    Invalidation::Outdated(l, idx_l)
                } else {
                    Invalidation::Outdated(r, idx_r)
                }
            },
            (_, Invalidation::Outdated(r, idx)) => Invalidation::Outdated(r, idx),
            (Invalidation::Outdated(l, idx), _) => Invalidation::Outdated(l, idx),
            (Invalidation::Revisioned(l, idx_l), Invalidation::Revisioned(r, idx_r)) => {
                if r.precedes(l) {
                    Invalidation::Revisioned(l, idx_l)
                } else {
                    Invalidation::Revisioned(r, idx_r)
                }
            },
            (_, Invalidation::Revisioned(r, idx)) => Invalidation::Revisioned(r, idx),
            (Invalidation::Revisioned(l, idx), _) => Invalidation::Revisioned(l, idx),
            (Invalidation::Fresh, Invalidation::Fresh) => Invalidation::Fresh,
        }
    }
}

impl vstd::std_specs::ops::AddSpecImpl for Invalidation {
    open spec fn obeys_add_spec() -> bool {
        true
    }

    open spec fn add_req(self, rhs: Invalidation) -> bool {
        true
    }

    open spec fn add_spec(self, rhs: Invalidation) -> Invalidation {
        self.combine(rhs)
    }
}

} // verus!
