//! A piece-to-sector allocation engine: decides which staged sector a newly
//! submitted piece is written into, computes the padding that keeps sector
//! contents aligned, delegates the write to a storage backend, verifies the
//! reported byte count, and records the piece only on success.

pub mod allocator;
pub mod errors;
pub mod metadata;
pub mod pieces;
pub mod state;
pub mod store;
