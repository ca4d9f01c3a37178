//! The global clock of the engine.

use std::sync::atomic::AtomicUsize;
use std::sync::atomic::Ordering;
use std::sync::Arc;
use vstd::prelude::*;

verus! {

/// A point on the engine's monotone clock. Every input mutation mints a new
/// one; memoized results are stamped with the revision they are valid at.
#[derive(Clone, Copy, Debug, PartialEq, Eq, PartialOrd, Ord, Hash, Structural)]
pub struct Revision(usize);

impl View for Revision {
    type V = nat;

    closed spec fn view(&self) -> nat {
        self.0 as nat
    }
}

/// The value a counter holds after one tick from `before`. The counter is a
/// machine word and wraps where the word ends.
pub open spec fn ticked(before: nat) -> nat {
    if before < usize::MAX {
        before + 1
    } else {
        0
    }
}

/// The character of a decimal digit.
pub open spec fn digit(d: nat) -> char {
    if d == 0 {
        '0'
    } else if d == 1 {
        '1'
    } else if d == 2 {
        '2'
    } else if d == 3 {
        '3'
    } else if d == 4 {
        '4'
    } else if d == 5 {
        '5'
    } else if d == 6 {
        '6'
    } else if d == 7 {
        '7'
    } else if d == 8 {
        '8'
    } else {
        '9'
    }
}

/// A number in decimal, without leading zeros.
pub open spec fn decimal(n: nat) -> Seq<char>
    decreases n,
{
    if n < 10 {
        seq![digit(n)]
    } else {
        decimal(n / 10).push(digit(n % 10))
    }
}

/// Formats `tag` and `n` with `format!`: the tag, then the number as
/// `Display` writes an unsigned integer, in decimal without leading zeros.
#[verifier::external_body]
pub(crate) fn tagged(tag: char, n: usize) -> (text: String)
    ensures
        text@ == seq![tag] + decimal(n as nat),
{
    format!("{}{}", tag, n)
}

impl Revision {
    /// Two revisions with one reading are one revision.
    pub proof fn lemma_view_injective(a: Revision, b: Revision)
        requires
            a@ == b@,
        ensures
            a == b,
    {
    }

    /// The revision that follows the counter reading `before`.
    pub fn following(before: usize) -> (r: Revision)
        ensures
            r@ == ticked(before as nat),
    {
        Revision(before.wrapping_add(1))
    }

    /// The revision with the given counter reading.
    pub fn at(reading: usize) -> (r: Revision)
        ensures
            r@ == reading,
    {
        Revision(reading)
    }

    /// Ticks the shared counter and returns the revision it then shows.
    pub fn new(counter: &Arc<AtomicUsize>) -> (r: Revision) {
        let id = counter.fetch_add(1, Ordering::SeqCst);
        Revision::following(id)
    }

    /// Reads the shared counter without ticking it.
    pub fn current(counter: &Arc<AtomicUsize>) -> (r: Revision) {
        let id = counter.load(Ordering::SeqCst);
        Revision::at(id)
    }

    /// The counter reading this revision stands for.
    pub fn value(&self) -> (n: usize)
        ensures
            n == self@,
    {
        self.0
    }

    /// The name of the revision: `R` and its reading.
    pub fn label(&self) -> (text: String)
        ensures
            text@ == seq!['R'] + decimal(self@),
    {
        tagged('R', self.0)
    }

    /// Whether this revision is strictly older than `other`.
    pub fn precedes(&self, other: Revision) -> (b: bool)
        ensures
            b == (self@ < other@),
    {
        self.0 < other.0
    }
}

} // verus!
