use guacamole::ForkId;
use guacamole::Revision;
use guacamole::Runtime;
use std::sync::atomic::AtomicUsize;
use std::sync::atomic::Ordering;
use std::sync::Arc;

#[test]
fn new_ticks_and_current_does_not() {
    let counter = Arc::new(AtomicUsize::new(0));
    assert_eq!(Revision::current(&counter).value(), 0);
    assert_eq!(Revision::new(&counter).value(), 1);
    assert_eq!(Revision::new(&counter).value(), 2);
    assert_eq!(Revision::current(&counter).value(), 2);
    assert_eq!(Revision::current(&counter).value(), 2);
    assert_eq!(counter.load(Ordering::SeqCst), 2);
}

#[test]
fn revisions_are_ordered_by_their_reading() {
    let older = Revision::at(3);
    let newer = Revision::at(4);
    assert!(older.precedes(newer));
    assert!(!newer.precedes(older));
    assert!(!older.precedes(older));
    assert!(older < newer);
    assert_eq!(older, Revision::at(3));
}

#[test]
fn following_is_the_next_reading_and_wraps_with_the_counter() {
    assert_eq!(Revision::following(0).value(), 1);
    assert_eq!(Revision::following(41).value(), 42);
    assert_eq!(Revision::following(usize::MAX).value(), 0);
    let counter = Arc::new(AtomicUsize::new(usize::MAX));
    assert_eq!(Revision::new(&counter).value(), 0);
    assert_eq!(Revision::current(&counter).value(), 0);
}

#[test]
fn labels_are_a_letter_and_the_decimal_number() {
    assert_eq!(Revision::at(0).label(), "R0");
    assert_eq!(Revision::at(1).label(), "R1");
    assert_eq!(Revision::at(10).label(), "R10");
    assert_eq!(Revision::at(1905).label(), "R1905");
    assert_eq!(ForkId::default().label(), "F1");
    assert_eq!(ForkId::following(122).label(), "F123");
}

#[test]
fn fork_ids_come_from_their_own_counter() {
    let counter = Arc::new(AtomicUsize::new(0));
    assert_eq!(ForkId::new(&counter).value(), 1);
    assert_eq!(ForkId::new(&counter).value(), 2);
    assert_eq!(ForkId::default().value(), 1);
    assert_eq!(ForkId::following(usize::MAX).value(), 0);
}

#[test]
fn forks_share_the_clocks_and_differ_in_lineage() {
    let root = Runtime::new();
    assert_eq!(root.fork_id().value(), 1);
    assert_eq!(root.current_rev().value(), 0);

    let same = root.fork_no_inc();
    assert_eq!(same.fork_id(), root.fork_id());

    let first = root.fork_inner();
    let second = first.fork_inner();
    let third = root.fork_inner();
    assert_eq!(first.fork_id().value(), 1);
    assert_eq!(second.fork_id().value(), 2);
    assert_eq!(third.fork_id().value(), 3);
    assert_eq!(second.fork_no_inc().fork_id().value(), 2);
    assert_eq!(root.forked_as(ForkId::following(8)).fork_id().value(), 9);
}
