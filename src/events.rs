use vstd::prelude::*;

verus! {

/// A record of the allocator's activity.
#[derive(Clone, Copy, Debug, PartialEq, Eq, Structural)]
pub enum Event {
    Alloc { addr: usize, size: usize },
    Mark,
    Freed { addr: usize, size: usize },
}

} // verus!
