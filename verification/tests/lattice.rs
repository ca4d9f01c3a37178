use guacamole::dep::DepIdx;
use guacamole::Invalidation;
use guacamole::Revision;
use std::any::TypeId;

fn idx(n: usize) -> DepIdx {
    DepIdx::new(TypeId::of::<u8>(), n)
}

fn outdated(rev: usize, n: usize) -> Invalidation {
    Invalidation::Outdated(Revision::at(rev), idx(n))
}

fn revisioned(rev: usize, n: usize) -> Invalidation {
    Invalidation::Revisioned(Revision::at(rev), idx(n))
}

fn same(a: Invalidation, b: Invalidation) -> bool {
    match (a, b) {
        (Invalidation::Fresh, Invalidation::Fresh) => true,
        (Invalidation::Revisioned(r, i), Invalidation::Revisioned(s, j)) => r == s && i.same(&j),
        (Invalidation::Outdated(r, i), Invalidation::Outdated(s, j)) => r == s && i.same(&j),
        _ => false,
    }
}

fn samples() -> Vec<Invalidation> {
    vec![
        Invalidation::Fresh,
        revisioned(1, 0),
        revisioned(1, 1),
        revisioned(2, 2),
        outdated(1, 3),
        outdated(1, 4),
        outdated(3, 5),
    ]
}

#[test]
fn the_table_of_combinations() {
    let fresh = Invalidation::Fresh;
    assert!(same(fresh + fresh, fresh));
    assert!(same(fresh + revisioned(2, 1), revisioned(2, 1)));
    assert!(same(fresh + outdated(2, 1), outdated(2, 1)));
    assert!(same(revisioned(2, 1) + fresh, revisioned(2, 1)));
    assert!(same(revisioned(2, 1) + outdated(1, 2), outdated(1, 2)));
    assert!(same(outdated(2, 1) + fresh, outdated(2, 1)));
    assert!(same(outdated(1, 1) + revisioned(9, 2), outdated(1, 1)));
}

#[test]
fn among_findings_of_one_kind_the_newer_wins_and_a_tie_goes_right() {
    assert!(same(revisioned(3, 1) + revisioned(2, 2), revisioned(3, 1)));
    assert!(same(revisioned(2, 1) + revisioned(3, 2), revisioned(3, 2)));
    assert!(same(revisioned(2, 1) + revisioned(2, 2), revisioned(2, 2)));
    assert!(same(outdated(3, 1) + outdated(2, 2), outdated(3, 1)));
    assert!(same(outdated(2, 1) + outdated(3, 2), outdated(3, 2)));
    assert!(same(outdated(2, 1) + outdated(2, 2), outdated(2, 2)));
}

#[test]
fn add_assign_folds_into_the_left_operand() {
    let mut found = Invalidation::Fresh;
    found.add_assign(revisioned(1, 1));
    assert!(same(found, revisioned(1, 1)));
    found.add_assign(outdated(1, 2));
    assert!(same(found, outdated(1, 2)));
    found.add_assign(revisioned(7, 3));
    assert!(same(found, outdated(1, 2)));
    found.add_assign(Invalidation::Fresh);
    assert!(same(found, outdated(1, 2)));
}

#[test]
fn combining_is_associative() {
    for a in samples() {
        for b in samples() {
            for c in samples() {
                assert!(same((a + b) + c, a + (b + c)));
            }
        }
    }
}

#[test]
fn combining_is_commutative_in_kind_and_revision() {
    let weight = |x: Invalidation| match x {
        Invalidation::Fresh => (0, 0),
        Invalidation::Revisioned(rev, _) => (1, rev.value()),
        Invalidation::Outdated(rev, _) => (2, rev.value()),
    };
    for a in samples() {
        for b in samples() {
            assert_eq!(weight(a + b), weight(b + a));
            if weight(a) != weight(b) {
                assert!(same(a + b, b + a));
            }
        }
    }
}

#[test]
fn fresh_is_neutral() {
    for a in samples() {
        assert!(same(Invalidation::Fresh + a, a));
        assert!(same(a + Invalidation::Fresh, a));
    }
}
