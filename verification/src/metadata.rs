//! Records kept for staged sectors and the pieces written into them.

use vstd::prelude::*;

verus! {

/// Whether a staged sector is still accepting pieces. Only `Pending` sectors
/// are candidates for allocation; the transition out of `Pending` happens in a
/// collaborator outside this crate.
#[derive(Clone, Copy, PartialEq, Eq, Structural, Debug)]
pub enum SealStatus {
    Pending,
    Sealing,
    Sealed,
}

/// A unit of caller data recorded inside a sector after a verified write.
pub struct PieceMetadata {
    /// Caller-supplied identifier, carried through for later retrieval.
    pub piece_key: String,
    /// Unpadded length in bytes, as declared by the caller.
    pub num_bytes: u64,
    /// Proof-system digest; absent at insertion time, populated later by a
    /// collaborator outside this crate.
    pub comm_p: Option<[u8; 32]>,
}

/// Mathematical model of a piece record.
pub struct PieceMetadataView {
    pub piece_key: Seq<char>,
    pub num_bytes: u64,
    pub comm_p: Option<Seq<u8>>,
}

impl View for PieceMetadata {
    type V = PieceMetadataView;

    open spec fn view(&self) -> PieceMetadataView {
        PieceMetadataView {
            piece_key: self.piece_key@,
            num_bytes: self.num_bytes,
            comm_p: match self.comm_p {
                Some(digest) => Some(digest@),
                None => None,
            },
        }
    }
}

impl Clone for PieceMetadata {
    fn clone(&self) -> (r: Self)
        ensures
            r@ == self@,
    {
        PieceMetadata {
            piece_key: self.piece_key.clone(),
            num_bytes: self.num_bytes,
            comm_p: self.comm_p,
        }
    }
}

/// The model of a sequence of piece records.
pub open spec fn pieces_view(pieces: Seq<PieceMetadata>) -> Seq<PieceMetadataView> {
    pieces.map_values(|p: PieceMetadata| p@)
}

/// A storage unit accepting pieces: its identity, the backend's access handle,
/// the pieces recorded so far (insertion order gives the physical layout), and
/// its status.
pub struct StagedSectorMetadata {
    pub sector_id: u64,
    pub sector_access: String,
    pub pieces: Vec<PieceMetadata>,
    pub seal_status: SealStatus,
}

/// Mathematical model of a staged sector record.
pub struct StagedSectorMetadataView {
    pub sector_id: u64,
    pub sector_access: Seq<char>,
    pub pieces: Seq<PieceMetadataView>,
    pub seal_status: SealStatus,
}

impl View for StagedSectorMetadata {
    type V = StagedSectorMetadataView;

    open spec fn view(&self) -> StagedSectorMetadataView {
        StagedSectorMetadataView {
            sector_id: self.sector_id,
            sector_access: self.sector_access@,
            pieces: pieces_view(self.pieces@),
            seal_status: self.seal_status,
        }
    }
}

impl Clone for StagedSectorMetadata {
    fn clone(&self) -> (r: Self)
        ensures
            r@ == self@,
    {
        let pieces = self.pieces.clone();
        proof {
            assert(pieces_view(pieces@) =~= pieces_view(self.pieces@)) by {
                assert forall|i: int| 0 <= i < pieces@.len() implies pieces@[i]@
                    == self.pieces@[i]@ by {
                    assert(cloned(self.pieces@[i], pieces@[i]));
                }
            }
        }
        StagedSectorMetadata {
            sector_id: self.sector_id,
            sector_access: self.sector_access.clone(),
            pieces,
            seal_status: self.seal_status,
        }
    }
}

impl Default for StagedSectorMetadata {
    /// A fresh record: id zero, empty access handle, no pieces, `Pending`.
    fn default() -> (r: Self)
        ensures
            r@.sector_id == 0,
            r@.sector_access == Seq::<char>::empty(),
            r@.pieces == Seq::<PieceMetadataView>::empty(),
            r@.seal_status == SealStatus::Pending,
    {
        let r = StagedSectorMetadata {
            sector_id: 0,
            sector_access: String::new(),
            pieces: Vec::new(),
            seal_status: SealStatus::Pending,
        };
        proof {
            assert(pieces_view(r.pieces@) =~= Seq::<PieceMetadataView>::empty());
        }
        r
    }
}

} // verus!
