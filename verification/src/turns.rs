//! Turns that are taken one after the other.
use std::sync::atomic::AtomicUsize;

use vstd::prelude::*;

verus! {

/// Counts the turns that are taken, from any thread.
pub struct Turns {
    taken: AtomicUsize,
}

/// A turn that was taken. Only the counter makes one.
pub struct Turn {
    count: usize,
}

impl Turn {
    /// How many turns were taken before this one.
    pub closed spec fn number(&self) -> usize {
        self.count
    }

    /// How many turns were taken before this one.
    pub fn count(&self) -> (r: usize)
        ensures
            r == self.number(),
    {
        self.count
    }
}

impl Turns {
    /// A counter from which no turn was taken yet.
    pub(crate) fn new() -> Turns {
        Turns { taken: AtomicUsize::new(0) }
    }

    /// Takes the next turn. The numbers wrap where they do not fit.
    pub(crate) fn take(&self) -> Turn {
        Turn { count: self.taken.fetch_add(1, std::sync::atomic::Ordering::Relaxed) }
    }
}

} // verus!
