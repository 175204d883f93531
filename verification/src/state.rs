//! The allocator's state: the staged sectors keyed by id, and the nonce that
//! issues fresh sector ids. The caller owns this state and serializes access
//! to it; the allocator only assumes exclusive mutation for the span of one
//! call.

use std::collections::HashMap;
use vstd::prelude::*;
use crate::metadata::StagedSectorMetadata;
use crate::metadata::StagedSectorMetadataView;
use crate::pieces::spec_sum_piece_lengths;

verus! {

broadcast use vstd::std_specs::hash::group_hash_axioms;

/// The allocator's state.
pub struct StagedState {
    /// The staged sectors, keyed by sector id.
    pub sectors: HashMap<u64, StagedSectorMetadata>,
    /// Monotonically increasing counter; the sole source of fresh sector ids.
    /// The next issued id is one more than this value.
    pub sector_id_nonce: u64,
}

/// Mathematical model of the allocator's state.
pub struct StagedStateView {
    pub sectors: Map<u64, StagedSectorMetadataView>,
    pub sector_id_nonce: u64,
}

impl View for StagedState {
    type V = StagedStateView;

    open spec fn view(&self) -> StagedStateView {
        StagedStateView {
            sectors: self.sectors@.map_values(|s: StagedSectorMetadata| s@),
            sector_id_nonce: self.sector_id_nonce,
        }
    }
}

/// The state invariant: every record is keyed by its own sector id, no id
/// exceeds the nonce, and every recorded length sum fits a machine word.
pub open spec fn state_wf(st: StagedStateView) -> bool {
    forall|id: u64| st.sectors.contains_key(id) ==> {
        &&& (#[trigger] st.sectors[id]).sector_id == id
        &&& id <= st.sector_id_nonce
        &&& spec_sum_piece_lengths(st.sectors[id].pieces) <= u64::MAX
    }
}

impl Default for StagedState {
    /// An empty state: no sectors, nonce zero.
    fn default() -> (r: Self)
        ensures
            r@.sectors == Map::<u64, StagedSectorMetadataView>::empty(),
            r@.sector_id_nonce == 0,
            state_wf(r@),
    {
        let r = StagedState { sectors: HashMap::new(), sector_id_nonce: 0 };
        proof {
            assert(r@.sectors =~= Map::<u64, StagedSectorMetadataView>::empty());
        }
        r
    }
}

/// Mapping every record of an inserted map to its model commutes with the
/// insertion.
pub proof fn lemma_view_insert(
    m: Map<u64, StagedSectorMetadata>,
    k: u64,
    v: StagedSectorMetadata,
)
    ensures
        m.insert(k, v).map_values(|s: StagedSectorMetadata| s@) == m.map_values(
            |s: StagedSectorMetadata| s@,
        ).insert(k, v@),
{
    assert(m.insert(k, v).map_values(|s: StagedSectorMetadata| s@) =~= m.map_values(
        |s: StagedSectorMetadata| s@,
    ).insert(k, v@));
}

/// Mapping every record of a map to its model commutes with removal.
pub proof fn lemma_view_remove(m: Map<u64, StagedSectorMetadata>, k: u64)
    ensures
        m.remove(k).map_values(|s: StagedSectorMetadata| s@) == m.map_values(
            |s: StagedSectorMetadata| s@,
        ).remove(k),
{
    assert(m.remove(k).map_values(|s: StagedSectorMetadata| s@) =~= m.map_values(
        |s: StagedSectorMetadata| s@,
    ).remove(k));
}

} // verus!
