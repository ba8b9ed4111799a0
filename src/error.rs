use vstd::prelude::*;

verus! {

/// Why a mutation that needs storage could not be carried out.
#[derive(Debug, PartialEq, Eq)]
pub enum Error<T> {
    /// A request for room as a whole (growth by several slots, merging two
    /// containers) could not be met; no single value was turned away.
    CapacityExceeded,
    /// One value could not be stored; it is handed back untouched.
    InsertFailed(T),
}

/// A reservation of extra room failed.
#[derive(Debug, Clone, Copy, PartialEq, Eq)]
pub struct CapacityError;

} // verus!
