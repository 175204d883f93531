//! The failures an allocation can surface.

use vstd::prelude::*;
use crate::store::BackendError;

verus! {

/// Why a piece could not be added.
#[derive(Debug)]
pub enum AllocationError {
    /// The piece exceeds the per-sector capacity outright: no sector could
    /// ever hold it, regardless of current occupancy.
    Overflow { piece_bytes: u64, max_bytes: u64 },
    /// The storage backend failed while creating a sector access handle or
    /// while writing; carried through without interpretation.
    Backend(BackendError),
    /// The backend reported a different byte count than the padded piece
    /// required; the destination sector's records are left unchanged.
    IncompleteWrite { actual: u64, expected: u64 },
    /// A selected or provisioned sector id was absent from state: the caller
    /// broke the exclusive-access assumption, or the state invariant does not
    /// hold. Fatal; never retried.
    UnrecoverableState,
}

} // verus!
