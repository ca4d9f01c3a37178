//! A one-shot latch that marks a cell as being computed.

use crate::shared::share;
use futures::task::AtomicWaker;
use std::sync::atomic::AtomicBool;
use std::sync::atomic::Ordering;
use std::sync::Arc;
use std::task::Waker;
use vstd::prelude::*;

verus! {

/// `futures::task::AtomicWaker`, a cell for the waker of one waiting task.
/// Nothing is known of what is inside.
#[verifier::external_type_specification]
#[verifier::external_body]
pub struct ExAtomicWaker(futures::task::AtomicWaker);

/// `std::task::Waker`, the handle by which a waiting task is woken. Nothing
/// is known of what is inside.
#[verifier::external_type_specification]
#[verifier::external_body]
pub struct ExWaker(std::task::Waker);

/// `AtomicWaker::new` makes a cell that holds no waker. Nothing is stated of
/// it.
pub assume_specification[ AtomicWaker::new ]() -> AtomicWaker;

/// `AtomicWaker::register` stores a waker to be woken by the next `wake`.
/// What the cell holds afterwards depends on the other threads, so nothing is
/// stated.
pub assume_specification[ AtomicWaker::register ](cell: &AtomicWaker, waker: &Waker);

/// `AtomicWaker::wake` wakes the waker that was registered last, if any.
pub assume_specification[ AtomicWaker::wake ](cell: &AtomicWaker);

/// What the holder and the readers of one latch share.
pub struct Latch {
    waker: AtomicWaker,
    ready: AtomicBool,
}

/// The holding end of a latch. Whoever holds it is computing; releasing it
/// lets every reader through.
pub struct Reservation(Arc<Latch>);

/// The waiting end of a latch. It can be copied freely.
pub struct ReservationReader(Arc<Latch>);

impl Reservation {
    /// The latch this end belongs to.
    pub closed spec fn latch(&self) -> Latch {
        *self.0
    }

    /// Makes a closed latch and returns its two ends.
    pub fn new() -> (ends: (Reservation, ReservationReader))
        ensures
            ends.1.latch() == ends.0.latch(),
    {
        let inner = Arc::new(Latch { waker: AtomicWaker::new(), ready: AtomicBool::new(false) });
        let reader = ReservationReader(share(&inner));
        (Reservation(inner), reader)
    }

    /// Opens the latch and wakes the reader that waits on it. The runtime
    /// calls this when the holder goes away, however the computation ended.
    pub fn release(&self) {
        self.0.ready.store(true, Ordering::Relaxed);
        self.0.waker.wake();
    }
}

impl ReservationReader {
    /// The latch this end belongs to.
    pub closed spec fn latch(&self) -> Latch {
        *self.0
    }

    /// Whether the latch has been opened.
    pub fn is_ready(&self) -> bool {
        self.0.ready.load(Ordering::Relaxed)
    }

    /// One poll of the latch: `true` when it is open. When it is closed the
    /// waker is registered first and the latch is read once more, so that an
    /// opening between the two reads is not missed.
    pub fn poll(&self, waker: &Waker) -> bool {
        if self.0.ready.load(Ordering::Relaxed) {
            return true;
        }
        self.0.waker.register(waker);
        self.0.ready.load(Ordering::Relaxed)
    }
}

impl Clone for ReservationReader {
    /// Another reader of the same latch.
    fn clone(&self) -> (other: ReservationReader)
        ensures
            other == *self,
    {
        ReservationReader(share(&self.0))
    }
}

} // verus!
