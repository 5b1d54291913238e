//! The counter from which the handles of a pool draw their tickets.
//!
//! The cell is private to this module, and of the two operations on it only [`Counter::draw`] writes
//! to it: by adding one. No code outside can set the counter to a value, or count it down.

use crate::handle::{drawn, seen, starts_at_zero};
use std::sync::atomic::{AtomicUsize, Ordering};
use std::sync::Arc;
use vstd::prelude::*;

verus! {

/// A counter that is shared by its clones. It starts at zero and only counts up, by one at a time.
pub struct Counter {
    cell: Arc<AtomicUsize>,
}

impl Clone for Counter {
    /// The same counter once more.
    fn clone(&self) -> (copy: Self)
        ensures
            copy == *self,
    {
        Counter { cell: self.cell.clone() }
    }
}

impl Counter {
    /// The cell that holds the value.
    pub closed spec fn cell(self) -> Arc<AtomicUsize> {
        self.cell
    }

    /// A counter that stands at zero.
    pub(crate) fn new() -> (counter: Self)
        ensures
            starts_at_zero(*counter.cell()),
    {
        Counter { cell: Arc::new(AtomicUsize::new(0)) }
    }

    /// Draws the next ticket: the value of the counter, which counts up by one for it.
    pub(crate) fn draw(&self) -> (ticket: usize)
        ensures
            drawn(*self.cell(), ticket),
    {
        self.cell.fetch_add(1, Ordering::Relaxed)
    }

    /// The value of the counter.
    pub(crate) fn read(&self) -> (ticket: usize)
        ensures
            seen(*self.cell(), ticket),
    {
        self.cell.load(Ordering::Relaxed)
    }
}

} // verus!
