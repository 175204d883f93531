use sector_builder::allocator::add_piece;
use sector_builder::allocator::compute_destination_sector_id;
use sector_builder::allocator::install_provisioned_sector;
use sector_builder::allocator::provision_new_staged_sector;
use sector_builder::allocator::verify_write_count;
use sector_builder::errors::AllocationError;
use sector_builder::metadata::PieceMetadata;
use sector_builder::metadata::SealStatus;
use sector_builder::metadata::StagedSectorMetadata;
use sector_builder::pieces::sum_piece_lengths;
use sector_builder::state::StagedState;
use sector_builder::store::BackendError;
use sector_builder::store::MemorySectorStore;
use sector_builder::store::SectorStore;

fn store_of_capacity(max_unsealed_bytes: u64) -> MemorySectorStore {
    MemorySectorStore {
        max_unsealed_bytes,
        deny_staging_access: false,
        write_shortfall: 0,
    }
}

fn add(store: &MemorySectorStore, state: &mut StagedState, n: u64) -> Result<u64, AllocationError> {
    add_piece(store, state, String::from("k"), n, vec![7u8; n as usize])
}

#[test]
fn fills_a_sector_to_the_brim() {
    // a sector holding one 128-byte piece takes a second one exactly to 256
    let store = store_of_capacity(256);
    let mut state = StagedState::default();
    assert_eq!(add(&store, &mut state, 128).unwrap(), 1);
    assert_eq!(add(&store, &mut state, 128).unwrap(), 1);
    let sector = state.sectors.get(&1).unwrap();
    assert_eq!(sum_piece_lengths(&sector.pieces), 256);
    assert_eq!(sector.pieces.len(), 2);
}

#[test]
fn skips_full_sectors() {
    // sector 1 is full at 256/256, sector 2 holds one 128-byte piece: the
    // next 128-byte piece lands in sector 2
    let store = store_of_capacity(256);
    let mut state = StagedState::default();
    assert_eq!(add(&store, &mut state, 128).unwrap(), 1);
    assert_eq!(add(&store, &mut state, 128).unwrap(), 1);
    assert_eq!(add(&store, &mut state, 128).unwrap(), 2);
    assert_eq!(add(&store, &mut state, 128).unwrap(), 2);
}

#[test]
fn provisions_when_every_sector_is_full() {
    // both sectors are full, so the next piece gets a fresh id never issued
    // before
    let store = store_of_capacity(256);
    let mut state = StagedState::default();
    for expected in [1u64, 1, 2, 2] {
        assert_eq!(add(&store, &mut state, 128).unwrap(), expected);
    }
    let candidates: Vec<StagedSectorMetadata> = state
        .sectors
        .values()
        .filter(|s| s.seal_status == SealStatus::Pending)
        .cloned()
        .collect();
    assert!(matches!(
        compute_destination_sector_id(&candidates, 256, 128),
        Ok(None)
    ));
    assert_eq!(add(&store, &mut state, 128).unwrap(), 3);
    assert_eq!(state.sectors.len(), 3);
    assert_eq!(state.sector_id_nonce, 3);
}

#[test]
fn oversized_piece_touches_nothing() {
    let store = store_of_capacity(256);
    let mut state = StagedState::default();
    assert_eq!(add(&store, &mut state, 128).unwrap(), 1);
    match add(&store, &mut state, 257) {
        Err(AllocationError::Overflow {
            piece_bytes,
            max_bytes,
        }) => {
            assert_eq!(piece_bytes, 257);
            assert_eq!(max_bytes, 256);
        }
        _ => panic!(),
    }
    assert_eq!(state.sectors.len(), 1);
    assert_eq!(state.sector_id_nonce, 1);
    assert_eq!(state.sectors.get(&1).unwrap().pieces.len(), 1);
}

#[test]
fn short_write_leaves_metadata_unchanged() {
    // the backend reports one byte fewer than the padded piece requires
    let store = MemorySectorStore {
        max_unsealed_bytes: 256,
        deny_staging_access: false,
        write_shortfall: 1,
    };
    let mut state = StagedState::default();
    match add(&store, &mut state, 128) {
        Err(AllocationError::IncompleteWrite { actual, expected }) => {
            assert_eq!(actual, 127);
            assert_eq!(expected, 128);
        }
        _ => panic!(),
    }
    // the provisioned sector stays, its piece list untouched, and the id it
    // consumed is never reissued
    assert_eq!(state.sector_id_nonce, 1);
    assert_eq!(state.sectors.get(&1).unwrap().pieces.len(), 0);
}

#[test]
fn short_write_records_padded_expectation() {
    // a 100-byte piece pads to its 128-byte alignment unit
    let store = MemorySectorStore {
        max_unsealed_bytes: 256,
        deny_staging_access: false,
        write_shortfall: 5,
    };
    let mut state = StagedState::default();
    match add(&store, &mut state, 100) {
        Err(AllocationError::IncompleteWrite { actual, expected }) => {
            assert_eq!(expected, 128);
            assert_eq!(actual, 123);
        }
        _ => panic!(),
    }
}

#[test]
fn short_write_into_existing_sector_changes_nothing() {
    // fill sector 1 halfway with a reliable store, then retry against a
    // store that under-reports: the selected sector's records stay put
    let good = store_of_capacity(256);
    let mut state = StagedState::default();
    assert_eq!(add(&good, &mut state, 128).unwrap(), 1);
    let flaky = MemorySectorStore {
        max_unsealed_bytes: 256,
        deny_staging_access: false,
        write_shortfall: 1,
    };
    match add(&flaky, &mut state, 128) {
        Err(AllocationError::IncompleteWrite { actual, expected }) => {
            assert_eq!(actual, 127);
            assert_eq!(expected, 128);
        }
        _ => panic!(),
    }
    // no provisioning happened, so not even the nonce moved
    assert_eq!(state.sector_id_nonce, 1);
    assert_eq!(state.sectors.len(), 1);
    assert_eq!(state.sectors.get(&1).unwrap().pieces.len(), 1);
}

#[test]
fn backend_failure_still_consumes_an_id() {
    let store = MemorySectorStore {
        max_unsealed_bytes: 256,
        deny_staging_access: true,
        write_shortfall: 0,
    };
    let mut state = StagedState::default();
    assert!(matches!(
        add(&store, &mut state, 128),
        Err(AllocationError::Backend(_))
    ));
    // the nonce never rolls back, even though no sector was installed
    assert_eq!(state.sector_id_nonce, 1);
    assert_eq!(state.sectors.len(), 0);
}

#[test]
fn missing_destination_is_unrecoverable() {
    // a record filed under the wrong key breaks the state invariant: the
    // selector returns the record's own id, which the state cannot resolve
    let store = store_of_capacity(256);
    let mut state = StagedState::default();
    state.sector_id_nonce = 5;
    let mut stray: StagedSectorMetadata = Default::default();
    stray.sector_id = 9;
    state.sectors.insert(3, stray);
    assert!(matches!(
        add(&store, &mut state, 128),
        Err(AllocationError::UnrecoverableState)
    ));
}

#[test]
fn recorded_piece_carries_key_and_no_commitment() {
    let store = store_of_capacity(256);
    let mut state = StagedState::default();
    let r = add_piece(&store, &mut state, String::from("my-piece"), 3, vec![1, 2, 3]);
    assert_eq!(r.unwrap(), 1);
    let piece: &PieceMetadata = &state.sectors.get(&1).unwrap().pieces[0];
    assert_eq!(piece.piece_key, "my-piece");
    assert_eq!(piece.num_bytes, 3);
    assert!(piece.comm_p.is_none());
    assert_eq!(state.sectors.get(&1).unwrap().seal_status, SealStatus::Pending);
}

#[test]
fn write_count_verification_is_exact() {
    assert!(verify_write_count(256, 256).is_ok());
    match verify_write_count(255, 256) {
        Err(AllocationError::IncompleteWrite { actual, expected }) => {
            assert_eq!(actual, 255);
            assert_eq!(expected, 256);
        }
        _ => panic!(),
    }
}

#[test]
fn installed_sector_carries_the_granted_handle() {
    let mut state = StagedState::default();
    state.sector_id_nonce = 4;
    let r = install_provisioned_sector(&mut state, 4, Ok(String::from("handle-a")));
    assert_eq!(r.unwrap(), 4);
    let sector = state.sectors.get(&4).unwrap();
    assert_eq!(sector.sector_access, "handle-a");
    assert_eq!(sector.sector_id, 4);
    assert_eq!(sector.pieces.len(), 0);
    assert_eq!(sector.seal_status, SealStatus::Pending);
}

#[test]
fn refused_handle_comes_back_as_it_went_in() {
    let mut state = StagedState::default();
    state.sector_id_nonce = 1;
    let refusal = BackendError {
        message: String::from("no space"),
    };
    match install_provisioned_sector(&mut state, 1, Err(refusal)) {
        Err(e) => assert_eq!(e.message, "no space"),
        _ => panic!(),
    }
    assert_eq!(state.sectors.len(), 0);
    assert_eq!(state.sector_id_nonce, 1);
}

#[test]
fn provisioned_ids_strictly_increase() {
    let store = store_of_capacity(256);
    let mut state = StagedState::default();
    let first = provision_new_staged_sector(&store, &mut state).unwrap();
    let second = provision_new_staged_sector(&store, &mut state).unwrap();
    let third = provision_new_staged_sector(&store, &mut state).unwrap();
    assert!(first < second && second < third);
    assert_eq!((first, second, third), (1, 2, 3));
    assert_eq!(state.sectors.len(), 3);
    assert_eq!(state.sector_id_nonce, 3);
}

#[test]
fn sealed_sectors_are_never_candidates() {
    let store = store_of_capacity(256);
    let mut state = StagedState::default();
    assert_eq!(add(&store, &mut state, 128).unwrap(), 1);
    state.sectors.get_mut(&1).unwrap().seal_status = SealStatus::Sealed;
    // sector 1 has room, but only Pending sectors accept pieces
    assert_eq!(add(&store, &mut state, 128).unwrap(), 2);
}

#[test]
fn store_reports_its_capacity() {
    let store = store_of_capacity(1024);
    assert_eq!(store.max_unsealed_bytes_per_sector(), 1024);
}
