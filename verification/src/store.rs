//! The storage backend as the allocator sees it, and an in-memory store for
//! exercising the allocator deterministically.

use vstd::prelude::*;

verus! {

/// An error surfaced by the storage backend; the allocator carries it through
/// opaquely and never interprets it.
#[derive(Debug)]
pub struct BackendError {
    pub message: String,
}

/// The storage backend: per-sector capacity, staging-sector creation, and the
/// write-and-preprocess operation.
///
/// Implementations promise only that the capacity report is a fixed function
/// of the store. Handle creation and writes may fail, and a write may report
/// any byte count; the allocator states what holds for every outcome.
pub trait SectorStore {
    /// The per-sector capacity this store reports, in unpadded bytes.
    spec fn spec_max_unsealed_bytes(&self) -> u64;

    /// Reports the maximum number of unpadded bytes a sector can hold.
    fn max_unsealed_bytes_per_sector(&self) -> (r: u64)
        ensures
            r == self.spec_max_unsealed_bytes(),
    ;

    /// Allocates a new staging location and returns its access handle.
    fn new_staging_sector_access(&self) -> (r: Result<String, BackendError>);

    /// Writes `data` to the location named by `sector_access` and returns the
    /// byte count the backend reports as written.
    fn write_and_preprocess(&self, sector_access: &String, data: &Vec<u8>) -> (r: Result<
        u64,
        BackendError,
    >);
}

/// An in-memory store: a fixed capacity, an optional injected failure of
/// handle creation, and an optional shortfall subtracted from every write
/// report. Every behaviour is deterministic, so allocation runs against it
/// are reproducible.
pub struct MemorySectorStore {
    /// The capacity reported for every sector.
    pub max_unsealed_bytes: u64,
    /// When set, handle creation fails.
    pub deny_staging_access: bool,
    /// Bytes withheld from each write report; zero means every write is
    /// reported complete.
    pub write_shortfall: u64,
}

impl SectorStore for MemorySectorStore {
    open spec fn spec_max_unsealed_bytes(&self) -> u64 {
        self.max_unsealed_bytes
    }

    fn max_unsealed_bytes_per_sector(&self) -> (r: u64) {
        self.max_unsealed_bytes
    }

    fn new_staging_sector_access(&self) -> (r: Result<String, BackendError>)
        ensures
            r is Err <==> self.deny_staging_access,
    {
        if self.deny_staging_access {
            Err(BackendError { message: "staging sector access denied".to_string() })
        } else {
            Ok("staged".to_string())
        }
    }

    fn write_and_preprocess(&self, sector_access: &String, data: &Vec<u8>) -> (r: Result<
        u64,
        BackendError,
    >)
        ensures
            r matches Ok(n) && n == if self.write_shortfall <= data@.len() {
                (data@.len() - self.write_shortfall) as u64
            } else {
                0u64
            },
    {
        let len = data.len() as u64;
        if self.write_shortfall <= len {
            Ok(len - self.write_shortfall)
        } else {
            Ok(0)
        }
    }
}

} // verus!
