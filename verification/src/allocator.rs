//! The allocation engine: first-fit sector selection, provisioning of fresh
//! sectors, and the orchestrated `add_piece` operation.

use vstd::prelude::*;
use crate::errors::AllocationError;
use crate::metadata::PieceMetadata;
use crate::metadata::PieceMetadataView;
use crate::metadata::SealStatus;
use crate::metadata::StagedSectorMetadata;
use crate::metadata::StagedSectorMetadataView;
use crate::pieces::get_piece_padding;
use crate::pieces::spec_left_padding;
use crate::pieces::spec_piece_fits;
use crate::pieces::spec_right_padding;
use crate::pieces::spec_sum_piece_lengths;
use crate::pieces::sum_piece_lengths;
use crate::state::StagedState;
use crate::state::StagedStateView;
use crate::state::state_wf;
use crate::store::BackendError;
use crate::store::SectorStore;

verus! {

broadcast use vstd::std_specs::hash::group_hash_axioms;

/// The model of a sequence of sector records.
pub open spec fn sectors_view(sectors: Seq<StagedSectorMetadata>) -> Seq<
    StagedSectorMetadataView,
> {
    sectors.map_values(|s: StagedSectorMetadata| s@)
}

/// Whether a piece of `piece` bytes fits the candidate sector `s` under
/// capacity `cap`, by the occupied length recorded in its pieces.
pub open spec fn spec_sector_fits(s: StagedSectorMetadataView, cap: u64, piece: u64) -> bool {
    spec_piece_fits(spec_sum_piece_lengths(s.pieces), piece, cap)
}

/// First-fit selection: the id of the first candidate, in input order, that
/// fits; `None` when no candidate fits.
pub open spec fn spec_select_sector(
    candidates: Seq<StagedSectorMetadataView>,
    cap: u64,
    piece: u64,
) -> Option<u64>
    decreases candidates.len(),
{
    if candidates.len() == 0 {
        None
    } else if spec_sector_fits(candidates[0], cap, piece) {
        Some(candidates[0].sector_id)
    } else {
        spec_select_sector(candidates.drop_first(), cap, piece)
    }
}

/// Given a list of staged sectors which are accepting data, returns the id of
/// the first staged sector into which the piece will fit, or `None` when none
/// qualifies; fails with `Overflow` when the piece exceeds the per-sector
/// capacity outright. Free of side effects.
pub fn compute_destination_sector_id(
    candidate_sectors: &Vec<StagedSectorMetadata>,
    max_bytes_per_sector: u64,
    num_bytes_in_piece: u64,
) -> (r: Result<Option<u64>, AllocationError>)
    requires
        num_bytes_in_piece <= max_bytes_per_sector ==> forall|i: int|
            0 <= i < candidate_sectors@.len() ==> spec_sum_piece_lengths(
                (#[trigger] candidate_sectors@[i])@.pieces,
            ) <= u64::MAX,
        num_bytes_in_piece <= max_bytes_per_sector ==> num_bytes_in_piece
            <= 0x8000_0000_0000_0000u64,
    ensures
        num_bytes_in_piece > max_bytes_per_sector ==> r == Err::<Option<u64>, AllocationError>(
            (AllocationError::Overflow {
                piece_bytes: num_bytes_in_piece,
                max_bytes: max_bytes_per_sector,
            }),
        ),
        num_bytes_in_piece <= max_bytes_per_sector ==> r == Ok::<Option<u64>, AllocationError>(
            spec_select_sector(
                sectors_view(candidate_sectors@),
                max_bytes_per_sector,
                num_bytes_in_piece,
            ),
        ),
{
    if num_bytes_in_piece > max_bytes_per_sector {
        return Err(
            AllocationError::Overflow {
                piece_bytes: num_bytes_in_piece,
                max_bytes: max_bytes_per_sector,
            },
        );
    }
    let ghost model = sectors_view(candidate_sectors@);
    let mut i: usize = 0;
    proof {
        assert(model.skip(0) =~= model);
    }
    while i < candidate_sectors.len()
        invariant
            0 <= i <= candidate_sectors@.len(),
            model == sectors_view(candidate_sectors@),
            model.len() == candidate_sectors@.len(),
            num_bytes_in_piece <= 0x8000_0000_0000_0000u64,
            forall|j: int| 0 <= j < candidate_sectors@.len() ==> spec_sum_piece_lengths(
                (#[trigger] candidate_sectors@[j])@.pieces,
            ) <= u64::MAX,
            spec_select_sector(model, max_bytes_per_sector, num_bytes_in_piece)
                == spec_select_sector(
                model.skip(i as int),
                max_bytes_per_sector,
                num_bytes_in_piece,
            ),
        decreases candidate_sectors@.len() - i,
    {
        let staged_sector = &candidate_sectors[i];
        proof {
            assert(model[i as int] == candidate_sectors@[i as int]@);
        }
        let sector_length = sum_piece_lengths(&staged_sector.pieces);
        let (left_padding, right_padding) = get_piece_padding(sector_length, num_bytes_in_piece);
        let total: u128 = sector_length as u128 + left_padding as u128 + num_bytes_in_piece as u128
            + right_padding as u128;
        proof {
            assert(model.skip(i as int)[0] == model[i as int]);
        }
        if total <= max_bytes_per_sector as u128 {
            proof {
                assert(spec_sector_fits(model[i as int], max_bytes_per_sector, num_bytes_in_piece));
            }
            return Ok(Some(staged_sector.sector_id));
        }
        proof {
            assert(!spec_sector_fits(model[i as int], max_bytes_per_sector, num_bytes_in_piece));
            assert(model.skip(i as int).drop_first() =~= model.skip(i as int + 1));
        }
        i = i + 1;
    }
    proof {
        assert(model.skip(candidate_sectors@.len() as int) =~= Seq::<
            StagedSectorMetadataView,
        >::empty());
    }
    Ok(None)
}

/// What first-fit selection means, spelled out: the result is `None` exactly
/// when no candidate fits, and a returned id is the id of the first
/// candidate, in input order, that fits.
pub proof fn lemma_select_sector_first_fit(
    candidates: Seq<StagedSectorMetadataView>,
    cap: u64,
    piece: u64,
)
    ensures
        spec_select_sector(candidates, cap, piece) is None <==> (forall|i: int|
            0 <= i < candidates.len() ==> !spec_sector_fits(
                #[trigger] candidates[i],
                cap,
                piece,
            )),
        spec_select_sector(candidates, cap, piece) matches Some(id) ==> exists|i: int|
            {
                &&& 0 <= i < candidates.len()
                &&& (#[trigger] candidates[i]).sector_id == id
                &&& spec_sector_fits(candidates[i], cap, piece)
                &&& forall|j: int| 0 <= j < i ==> !spec_sector_fits(
                    #[trigger] candidates[j],
                    cap,
                    piece,
                )
            },
    decreases candidates.len(),
{
    if candidates.len() == 0 {
    } else if spec_sector_fits(candidates[0], cap, piece) {
        let id = candidates[0].sector_id;
        assert(0 <= 0 < candidates.len() && candidates[0].sector_id == id && spec_sector_fits(
            candidates[0],
            cap,
            piece,
        ) && (forall|j: int| 0 <= j < 0 ==> !spec_sector_fits(
            #[trigger] candidates[j],
            cap,
            piece,
        )));
    } else {
        let rest = candidates.drop_first();
        lemma_select_sector_first_fit(rest, cap, piece);
        assert(forall|i: int| 0 <= i < rest.len() ==> rest[i] == candidates[i + 1]);
        if spec_select_sector(candidates, cap, piece) is None {
            assert forall|i: int| 0 <= i < candidates.len() implies !spec_sector_fits(
                candidates[i],
                cap,
                piece,
            ) by {
                if i > 0 {
                    assert(!spec_sector_fits(rest[i - 1], cap, piece));
                }
            }
        }
        if spec_select_sector(candidates, cap, piece) is Some {
            let id = spec_select_sector(candidates, cap, piece).unwrap();
            let k = choose|k: int|
                {
                    &&& 0 <= k < rest.len()
                    &&& (#[trigger] rest[k]).sector_id == id
                    &&& spec_sector_fits(rest[k], cap, piece)
                    &&& forall|j: int| 0 <= j < k ==> !spec_sector_fits(
                        #[trigger] rest[j],
                        cap,
                        piece,
                    )
                };
            let i = k + 1;
            assert forall|j: int| 0 <= j < i implies !spec_sector_fits(
                candidates[j],
                cap,
                piece,
            ) by {
                if j > 0 {
                    assert(!spec_sector_fits(rest[j - 1], cap, piece));
                }
            }
            assert(0 <= i < candidates.len() && candidates[i].sector_id == id
                && spec_sector_fits(candidates[i], cap, piece) && (forall|j: int|
                0 <= j < i ==> !spec_sector_fits(#[trigger] candidates[j], cap, piece)));
        }
    }
}

/// Monotonic uniqueness of issued ids: a provisioning attempt made from a
/// state whose nonce is no older issues a strictly larger id, so ids issued
/// across any sequence of attempts are pairwise distinct. No step of the
/// allocator ever decreases the nonce.
pub proof fn lemma_issued_ids_strictly_increase(
    st0: StagedStateView,
    st1: StagedStateView,
    id1: u64,
    st2: StagedStateView,
    st3: StagedStateView,
    id2: u64,
)
    requires
        spec_provision_issued(st0, st1, id1),
        spec_provision_issued(st2, st3, id2),
        st1.sector_id_nonce <= st2.sector_id_nonce,
    ensures
        id1 < id2,
        id1 != id2,
{
}

/// The `Pending` sectors of `st` with ids below `bound`, in ascending id
/// order. Candidate order is what makes first-fit selection deterministic and
/// allocation runs reproducible.
pub open spec fn spec_pending_candidates_below(st: StagedStateView, bound: int) -> Seq<
    StagedSectorMetadataView,
>
    decreases bound,
{
    if bound <= 0 {
        Seq::empty()
    } else {
        let id = (bound - 1) as u64;
        let prefix = spec_pending_candidates_below(st, bound - 1);
        if st.sectors.contains_key(id) && st.sectors[id].seal_status == SealStatus::Pending {
            prefix.push(st.sectors[id])
        } else {
            prefix
        }
    }
}

/// The candidate list one `add_piece` call works with: every `Pending` sector
/// whose id the nonce has issued so far, in ascending id order.
pub open spec fn spec_pending_candidates(st: StagedStateView) -> Seq<StagedSectorMetadataView> {
    spec_pending_candidates_below(st, st.sector_id_nonce + 1)
}

/// Every candidate is a `Pending` record of the state, found again under its
/// own sector id.
pub proof fn lemma_candidates_in_state(st: StagedStateView, bound: int)
    requires
        state_wf(st),
        bound <= u64::MAX + 1,
    ensures
        forall|i: int| 0 <= i < spec_pending_candidates_below(st, bound).len() ==> {
            let c = #[trigger] spec_pending_candidates_below(st, bound)[i];
            &&& st.sectors.contains_key(c.sector_id)
            &&& st.sectors[c.sector_id] == c
            &&& c.seal_status == SealStatus::Pending
        },
    decreases bound,
{
    if bound > 0 {
        lemma_candidates_in_state(st, bound - 1);
        let id = (bound - 1) as u64;
        if st.sectors.contains_key(id) && st.sectors[id].seal_status == SealStatus::Pending {
            assert(st.sectors[id].sector_id == id);
        }
    }
}

/// Collects the `Pending` sectors of the state into a candidate list, in
/// ascending id order.
fn collect_pending_candidates(staged_state: &StagedState) -> (r: Vec<StagedSectorMetadata>)
    requires
        state_wf(staged_state@),
        staged_state.sector_id_nonce < u64::MAX,
    ensures
        sectors_view(r@) == spec_pending_candidates(staged_state@),
{
    let mut candidates: Vec<StagedSectorMetadata> = Vec::new();
    let mut id: u64 = 0;
    proof {
        assert(sectors_view(candidates@) =~= spec_pending_candidates_below(staged_state@, 0));
    }
    while id <= staged_state.sector_id_nonce
        invariant
            staged_state.sector_id_nonce < u64::MAX,
            0 <= id <= staged_state.sector_id_nonce + 1,
            sectors_view(candidates@) == spec_pending_candidates_below(staged_state@, id as int),
        decreases staged_state.sector_id_nonce + 1 - id,
    {
        match staged_state.sectors.get(&id) {
            Some(s) => {
                if s.seal_status == SealStatus::Pending {
                    let copied = s.clone();
                    proof {
                        assert(staged_state@.sectors.contains_key(id));
                        assert(copied@ == staged_state@.sectors[id]);
                        assert(sectors_view(candidates@.push(copied)) =~= sectors_view(
                            candidates@,
                        ).push(copied@));
                    }
                    candidates.push(copied);
                } else {
                    proof {
                        assert(staged_state@.sectors.contains_key(id));
                        assert(staged_state@.sectors[id].seal_status != SealStatus::Pending);
                    }
                }
            },
            None => {
                proof {
                    assert(!staged_state@.sectors.contains_key(id));
                }
            },
        }
        id = id + 1;
    }
    candidates
}

/// One provisioning step issued id `id`, taking the nonce from `st0` to
/// `st1`: the id is one past the old nonce, and becomes the new nonce. An id
/// is consumed by the attempt, whether or not the backend cooperated.
pub open spec fn spec_provision_issued(st0: StagedStateView, st1: StagedStateView, id: u64) -> bool {
    &&& id == st0.sector_id_nonce + 1
    &&& st1.sector_id_nonce == id
}

/// `st1` is `st0` with a fresh, empty, `Pending` sector carrying the backend
/// handle `access`, installed under the previously unused id `id`.
pub open spec fn spec_sector_provisioned(
    st0: StagedStateView,
    st1: StagedStateView,
    id: u64,
    access: Seq<char>,
) -> bool {
    &&& !st0.sectors.contains_key(id)
    &&& st1.sectors.contains_key(id)
    &&& st1.sectors.remove(id) == st0.sectors
    &&& st1.sectors[id].sector_id == id
    &&& st1.sectors[id].sector_access == access
    &&& st1.sectors[id].pieces == Seq::<PieceMetadataView>::empty()
    &&& st1.sectors[id].seal_status == SealStatus::Pending
}

/// Files the outcome of one provisioning attempt. A granted handle installs
/// a fresh sector under `sector_id` carrying exactly that handle; a refusal
/// is handed back as it came, leaving the sectors untouched. Taking the
/// backend's outcome as an argument, this step is verified for every value
/// of it.
pub fn install_provisioned_sector(
    staged_state: &mut StagedState,
    sector_id: u64,
    access_result: Result<String, BackendError>,
) -> (r: Result<u64, BackendError>)
    requires
        !old(staged_state)@.sectors.contains_key(sector_id),
    ensures
        final(staged_state)@.sector_id_nonce == old(staged_state)@.sector_id_nonce,
        match access_result {
            Ok(access) => r == Ok::<u64, BackendError>(sector_id) && spec_sector_provisioned(
                old(staged_state)@,
                final(staged_state)@,
                sector_id,
                access@,
            ),
            Err(e) => r == Err::<u64, BackendError>(e) && final(staged_state)@.sectors == old(
                staged_state,
            )@.sectors,
        },
{
    let access = match access_result {
        Ok(a) => a,
        Err(e) => {
            return Err(e);
        },
    };
    let meta = StagedSectorMetadata {
        sector_id,
        sector_access: access,
        pieces: Vec::new(),
        seal_status: SealStatus::Pending,
    };
    proof {
        assert(meta@.pieces =~= Seq::<PieceMetadataView>::empty());
    }
    let ghost sectors0 = staged_state.sectors@;
    staged_state.sectors.insert(sector_id, meta);
    proof {
        crate::state::lemma_view_insert(sectors0, sector_id, meta);
        assert(staged_state@.sectors.remove(sector_id) =~= old(staged_state)@.sectors);
    }
    Ok(sector_id)
}

/// Verifies the byte count a write reported against the padded expectation:
/// exactly the mismatches are refused, and a refusal carries the reported
/// count. Taking the backend's count as an argument, this step is verified
/// for every value of it.
pub fn verify_write_count(num_bytes_written: u64, expected_num_bytes: u64) -> (r: Result<
    (),
    AllocationError,
>)
    ensures
        r is Ok <==> num_bytes_written == expected_num_bytes,
        r matches Err(e) ==> e == (AllocationError::IncompleteWrite {
            actual: num_bytes_written,
            expected: expected_num_bytes,
        }),
{
    if num_bytes_written != expected_num_bytes {
        Err(
            AllocationError::IncompleteWrite {
                actual: num_bytes_written,
                expected: expected_num_bytes,
            },
        )
    } else {
        Ok(())
    }
}

/// Provisions a new staged sector and returns its id. Not a pure function:
/// it increments the sector id nonce, asks the backend for a sector access
/// handle, and installs a fresh record. The nonce is consumed even when the
/// backend fails, so a failed attempt permanently uses up an id.
pub fn provision_new_staged_sector<S: SectorStore>(
    sector_store: &S,
    staged_state: &mut StagedState,
) -> (r: Result<u64, BackendError>)
    requires
        state_wf(old(staged_state)@),
        old(staged_state).sector_id_nonce < u64::MAX,
    ensures
        state_wf(final(staged_state)@),
        spec_provision_issued(old(staged_state)@, final(staged_state)@, (old(
            staged_state,
        ).sector_id_nonce + 1) as u64),
        match r {
            Ok(id) => {
                &&& id == old(staged_state)@.sector_id_nonce + 1
                &&& exists|access: Seq<char>| spec_sector_provisioned(
                    old(staged_state)@,
                    final(staged_state)@,
                    id,
                    access,
                )
            },
            Err(_) => final(staged_state)@.sectors == old(staged_state)@.sectors,
        },
{
    let sector_id = staged_state.sector_id_nonce + 1;
    staged_state.sector_id_nonce = sector_id;
    proof {
        assert(!staged_state@.sectors.contains_key(sector_id)) by {
            if staged_state@.sectors.contains_key(sector_id) {
                assert(old(staged_state)@.sectors[sector_id].sector_id == sector_id);
            }
        }
    }
    let access_result = sector_store.new_staging_sector_access();
    let ghost outcome = access_result;
    let r = install_provisioned_sector(staged_state, sector_id, access_result);
    proof {
        match outcome {
            Ok(a) => {
                assert(spec_sector_provisioned(old(staged_state)@, staged_state@, sector_id, a@));
            },
            Err(_) => {},
        }
        assert(state_wf(staged_state@)) by {
            assert forall|id: u64| staged_state@.sectors.contains_key(id) implies {
                &&& (#[trigger] staged_state@.sectors[id]).sector_id == id
                &&& id <= staged_state@.sector_id_nonce
                &&& spec_sum_piece_lengths(staged_state@.sectors[id].pieces) <= u64::MAX
            } by {
                if id != sector_id {
                    assert(staged_state@.sectors[id] == old(staged_state)@.sectors[id]);
                    assert(old(staged_state)@.sectors[id].sector_id == id);
                }
            }
        }
    }
    r
}

/// `st1` is `st0` with one piece of `piece_len` bytes under `piece_key`
/// appended to the records of sector `id`; nothing else moved.
pub open spec fn spec_piece_appended(
    st0: StagedStateView,
    st1: StagedStateView,
    id: u64,
    piece_key: Seq<char>,
    piece_len: u64,
) -> bool {
    &&& st0.sectors.contains_key(id)
    &&& st1.sectors.contains_key(id)
    &&& st1.sectors.remove(id) == st0.sectors.remove(id)
    &&& st1.sectors[id].sector_id == st0.sectors[id].sector_id
    &&& st1.sectors[id].sector_access == st0.sectors[id].sector_access
    &&& st1.sectors[id].seal_status == st0.sectors[id].seal_status
    &&& st1.sectors[id].pieces == st0.sectors[id].pieces.push(
        (PieceMetadataView { piece_key, num_bytes: piece_len, comm_p: None }),
    )
}

/// Round-trip accounting: a successful add — whose outcome is exactly a
/// `spec_piece_appended` step — raises the destination sector's recorded
/// length sum by exactly the piece length.
pub proof fn lemma_appended_sum_grows_by_piece(
    st0: StagedStateView,
    st1: StagedStateView,
    id: u64,
    piece_key: Seq<char>,
    piece_len: u64,
)
    requires
        spec_piece_appended(st0, st1, id, piece_key, piece_len),
    ensures
        spec_sum_piece_lengths(st1.sectors[id].pieces) == spec_sum_piece_lengths(
            st0.sectors[id].pieces,
        ) + piece_len,
{
    crate::pieces::lemma_sum_after_append(
        st0.sectors[id].pieces,
        (PieceMetadataView { piece_key, num_bytes: piece_len, comm_p: None }),
    );
}

/// The padded byte length a write must report for a piece of `piece` bytes
/// entering a sector holding `occupied` bytes of pieces.
pub open spec fn spec_expected_bytes(occupied: int, piece: u64) -> int {
    spec_left_padding(occupied as nat, piece as nat) + piece + spec_right_padding(piece as nat)
}

/// Adds a piece to a staged sector and returns the destination sector's id.
///
/// Selects the first `Pending` sector (in ascending id order) with enough
/// padding-inclusive room; provisions a fresh sector when none fits; streams
/// left padding, the piece bytes, and right padding to the backend; verifies
/// the reported byte count; and records the piece only after that
/// verification. Failures mutate nothing — except that a provisioning step
/// that already succeeded keeps its fresh sector, and an attempted
/// provisioning keeps its consumed id: the nonce never rolls back.
pub fn add_piece<S: SectorStore>(
    sector_store: &S,
    staged_state: &mut StagedState,
    piece_key: String,
    piece_bytes_amount: u64,
    piece_bytes: Vec<u8>,
) -> (r: Result<u64, AllocationError>)
    requires
        state_wf(old(staged_state)@),
        old(staged_state).sector_id_nonce < u64::MAX,
        piece_bytes@.len() == piece_bytes_amount,
        piece_bytes_amount <= sector_store.spec_max_unsealed_bytes() ==> piece_bytes_amount
            <= 0x8000_0000_0000_0000u64,
    ensures
        state_wf(final(staged_state)@),
        old(staged_state)@.sector_id_nonce <= final(staged_state)@.sector_id_nonce,
        ({
            let st0 = old(staged_state)@;
            let st1 = final(staged_state)@;
            let cap = sector_store.spec_max_unsealed_bytes();
            let selection = spec_select_sector(
                spec_pending_candidates(st0),
                cap,
                piece_bytes_amount,
            );
            &&& piece_bytes_amount > cap ==> {
                &&& r == Err::<u64, AllocationError>(
                    (AllocationError::Overflow {
                        piece_bytes: piece_bytes_amount,
                        max_bytes: cap,
                    }),
                )
                &&& st1 == st0
            }
            &&& (piece_bytes_amount <= cap && selection is Some) ==> {
                let id = selection.unwrap();
                let occupied = spec_sum_piece_lengths(st0.sectors[id].pieces);
                &&& st1.sector_id_nonce == st0.sector_id_nonce
                &&& match r {
                    Ok(rid) => rid == id && spec_piece_appended(
                        st0,
                        st1,
                        id,
                        piece_key@,
                        piece_bytes_amount,
                    ),
                    Err(e) => match e {
                        AllocationError::Backend(_) => st1 == st0,
                        AllocationError::IncompleteWrite { actual, expected } => {
                            &&& st1 == st0
                            &&& expected == spec_expected_bytes(occupied, piece_bytes_amount)
                            &&& actual != expected
                        },
                        _ => false,
                    },
                }
            }
            &&& (piece_bytes_amount <= cap && selection is None) ==> {
                let nid = (st0.sector_id_nonce + 1) as u64;
                &&& st1.sector_id_nonce == nid
                &&& spec_provision_issued(st0, st1, nid)
                &&& match r {
                    Ok(rid) => {
                        &&& rid == nid
                        &&& !st0.sectors.contains_key(nid)
                        &&& st1.sectors.contains_key(nid)
                        &&& st1.sectors.remove(nid) == st0.sectors
                        &&& st1.sectors[nid].sector_id == nid
                        &&& st1.sectors[nid].seal_status == SealStatus::Pending
                        &&& st1.sectors[nid].pieces == Seq::<PieceMetadataView>::empty().push(
                            (PieceMetadataView {
                                piece_key: piece_key@,
                                num_bytes: piece_bytes_amount,
                                comm_p: None,
                            }),
                        )
                    },
                    Err(e) => match e {
                        AllocationError::Backend(_) => st1.sectors == st0.sectors || exists|
                            access: Seq<char>,
                        | spec_sector_provisioned(st0, st1, nid, access),
                        AllocationError::IncompleteWrite { actual, expected } => {
                            &&& exists|access: Seq<char>| spec_sector_provisioned(
                                st0,
                                st1,
                                nid,
                                access,
                            )
                            &&& expected == spec_expected_bytes(0, piece_bytes_amount)
                            &&& actual != expected
                        },
                        _ => false,
                    },
                }
            }
        }),
{
    let ghost st0 = staged_state@;
    let ghost cap = sector_store.spec_max_unsealed_bytes();
    let sector_max = sector_store.max_unsealed_bytes_per_sector();

    let candidates = collect_pending_candidates(staged_state);
    proof {
        lemma_candidates_in_state(st0, st0.sector_id_nonce + 1);
        assert forall|i: int| 0 <= i < candidates@.len() implies spec_sum_piece_lengths(
            (#[trigger] candidates@[i])@.pieces,
        ) <= u64::MAX by {
            let c = sectors_view(candidates@)[i];
            assert(st0.sectors[c.sector_id] == c);
        }
    }
    let opt_dest_sector_id = match compute_destination_sector_id(
        &candidates,
        sector_max,
        piece_bytes_amount,
    ) {
        Ok(o) => o,
        Err(e) => {
            return Err(e);
        },
    };
    let ghost selection = spec_select_sector(spec_pending_candidates(st0), cap, piece_bytes_amount);
    proof {
        assert(opt_dest_sector_id == selection);
        lemma_select_sector_first_fit(spec_pending_candidates(st0), cap, piece_bytes_amount);
    }

    let dest_sector_id: u64 = match opt_dest_sector_id {
        Some(id) => id,
        None => match provision_new_staged_sector(sector_store, staged_state) {
            Ok(id) => id,
            Err(e) => {
                return Err(AllocationError::Backend(e));
            },
        },
    };
    // The state the write step starts from: unchanged, or with the fresh
    // sector installed.
    let ghost st_base = staged_state@;
    proof {
        if selection is Some {
            let c = choose|i: int|
                {
                    &&& 0 <= i < spec_pending_candidates(st0).len()
                    &&& (#[trigger] spec_pending_candidates(st0)[i]).sector_id
                        == selection.unwrap()
                    &&& spec_sector_fits(
                        spec_pending_candidates(st0)[i],
                        cap,
                        piece_bytes_amount,
                    )
                    &&& forall|j: int| 0 <= j < i ==> !spec_sector_fits(
                        #[trigger] spec_pending_candidates(st0)[j],
                        cap,
                        piece_bytes_amount,
                    )
                };
            assert(st0.sectors[spec_pending_candidates(st0)[c].sector_id]
                == spec_pending_candidates(st0)[c]);
            assert(st_base.sectors.contains_key(dest_sector_id));
            assert(spec_sector_fits(st_base.sectors[dest_sector_id], cap, piece_bytes_amount));
        } else {
            let access = choose|access: Seq<char>|
                spec_sector_provisioned(st0, st_base, dest_sector_id, access);
            assert(spec_sector_provisioned(st0, st_base, dest_sector_id, access));
        }
    }

    let ghost sectors_pre = staged_state.sectors@;
    let removed = staged_state.sectors.remove(&dest_sector_id);
    proof {
        crate::state::lemma_view_remove(sectors_pre, dest_sector_id);
    }
    match removed {
        Some(mut s) => {
            proof {
                assert(s@ == st_base.sectors[dest_sector_id]);
                assert(staged_state@.sectors == st_base.sectors.remove(dest_sector_id));
                if selection is None {
                    assert(s@.pieces =~= Seq::<PieceMetadataView>::empty());
                }
                crate::pieces::lemma_sum_nonneg(s@.pieces);
            }
            let sector_length = sum_piece_lengths(&s.pieces);
            let (left_padding, right_padding) = get_piece_padding(
                sector_length,
                piece_bytes_amount,
            );
            proof {
                crate::pieces::lemma_alignment_unit_bounds(piece_bytes_amount as nat);
                if selection is None {
                    let unit = crate::pieces::spec_alignment_unit(piece_bytes_amount as nat);
                    vstd::arithmetic::div_mod::lemma_small_mod(0, unit);
                    vstd::arithmetic::div_mod::lemma_mod_self_0(unit as int);
                    assert(left_padding == 0);
                }
            }
            let expected_num_bytes_written = left_padding + piece_bytes_amount + right_padding;

            // The write stream: left padding zeroes, the piece, right padding
            // zeroes.
            let data = crate::pieces::build_padded_stream(
                left_padding,
                &piece_bytes,
                right_padding,
            );
            proof {
                assert(data@.len() == expected_num_bytes_written);
            }

            let write_result = sector_store.write_and_preprocess(&s.sector_access, &data);
            match write_result {
                Ok(num_bytes_written) => {
                    match verify_write_count(num_bytes_written, expected_num_bytes_written) {
                        Err(count_error) => {
                            let ghost sectors_mid = staged_state.sectors@;
                            staged_state.sectors.insert(dest_sector_id, s);
                            proof {
                                crate::state::lemma_view_insert(sectors_mid, dest_sector_id, s);
                                assert(staged_state@.sectors =~= st_base.sectors);
                                assert(staged_state@ == st_base);
                            }
                            Err(count_error)
                        },
                        Ok(()) => {
                            s.pieces.push(
                                PieceMetadata {
                                    piece_key,
                                    num_bytes: piece_bytes_amount,
                                    comm_p: None,
                                },
                            );
                            let ghost sectors_mid = staged_state.sectors@;
                            proof {
                                assert(s@.pieces =~= st_base.sectors[dest_sector_id].pieces.push(
                                    (PieceMetadataView {
                                        piece_key: piece_key@,
                                        num_bytes: piece_bytes_amount,
                                        comm_p: None,
                                    }),
                                ));
                            }
                            staged_state.sectors.insert(dest_sector_id, s);
                            proof {
                                crate::state::lemma_view_insert(sectors_mid, dest_sector_id, s);
                                assert(staged_state@.sectors.remove(dest_sector_id)
                                    =~= st_base.sectors.remove(dest_sector_id));
                                crate::pieces::lemma_sum_after_append(
                                    st_base.sectors[dest_sector_id].pieces,
                                    (PieceMetadataView {
                                        piece_key: piece_key@,
                                        num_bytes: piece_bytes_amount,
                                        comm_p: None,
                                    }),
                                );
                                assert(state_wf(staged_state@)) by {
                                    assert forall|id: u64|
                                        staged_state@.sectors.contains_key(id) implies {
                                        &&& (#[trigger] staged_state@.sectors[id]).sector_id == id
                                        &&& id <= staged_state@.sector_id_nonce
                                        &&& spec_sum_piece_lengths(staged_state@.sectors[id].pieces)
                                            <= u64::MAX
                                    } by {
                                        if id != dest_sector_id {
                                            assert(st_base.sectors.contains_key(id));
                                            assert(staged_state@.sectors[id] == st_base.sectors[id]);
                                        }
                                    }
                                }
                            }
                            Ok(dest_sector_id)
                        },
                    }
                },
                Err(e) => {
                    let ghost sectors_mid = staged_state.sectors@;
                    staged_state.sectors.insert(dest_sector_id, s);
                    proof {
                        crate::state::lemma_view_insert(sectors_mid, dest_sector_id, s);
                        assert(staged_state@.sectors =~= st_base.sectors);
                        assert(staged_state@ == st_base);
                    }
                    Err(AllocationError::Backend(e))
                },
            }
        },
        None => {
            // Under the state invariant every selected or provisioned id
            // resolves, so this arm is provably unreachable; it stays as the
            // fatal-error surface for callers that hand in a state the
            // invariant does not hold of.
            proof {
                assert(false);
            }
            Err(AllocationError::UnrecoverableState)
        },
    }
}

} // verus!
