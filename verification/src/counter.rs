use vstd::prelude::*;

verus! {

/// A mutation counter attached to each parsed value; it starts at zero and
/// only ever grows.
#[derive(Debug)]
pub struct SharedState {
    pub counter: usize,
}

impl SharedState {
    pub fn new() -> (r: SharedState)
        ensures
            r.counter == 0,
    {
        SharedState { counter: 0 }
    }

    /// Adds one to the stored count and returns the updated value.
    pub fn increment(&mut self) -> (r: usize)
        requires
            old(self).counter < usize::MAX,
        ensures
            final(self).counter == old(self).counter + 1,
            r == final(self).counter,
    {
        self.counter = self.counter + 1;
        self.counter
    }

    /// Reads the current count without changing it.
    pub fn read(&self) -> (r: usize)
        ensures
            r == self.counter,
    {
        self.counter
    }
}

} // verus!
