use sector_builder::allocator::compute_destination_sector_id;
use sector_builder::errors::AllocationError;
use sector_builder::metadata::PieceMetadata;
use sector_builder::metadata::StagedSectorMetadata;

#[test]
fn test_alpha() {
    let mut sealed_sector_a: StagedSectorMetadata = Default::default();

    sealed_sector_a.pieces.push(PieceMetadata {
        piece_key: String::from("x"),
        num_bytes: 128,
        comm_p: None,
    });

    sealed_sector_a.pieces.push(PieceMetadata {
        piece_key: String::from("x"),
        num_bytes: 128,
        comm_p: None,
    });

    let mut sealed_sector_b: StagedSectorMetadata = Default::default();

    sealed_sector_b.pieces.push(PieceMetadata {
        piece_key: String::from("x"),
        num_bytes: 128,
        comm_p: None,
    });

    let staged_sectors = vec![sealed_sector_a.clone(), sealed_sector_b.clone()];

    // piece takes up all remaining space in first sector
    match compute_destination_sector_id(&staged_sectors, 256, 128) {
        Ok(Some(destination_sector_id)) => {
            assert_eq!(destination_sector_id, sealed_sector_a.sector_id)
        }
        _ => panic!(),
    }

    // piece doesn't fit into the first, but does the second
    match compute_destination_sector_id(&staged_sectors, 256, 128) {
        Ok(Some(destination_sector_id)) => {
            assert_eq!(destination_sector_id, sealed_sector_b.sector_id)
        }
        _ => panic!(),
    }

    // piece doesn't fit into any in the list
    match compute_destination_sector_id(&staged_sectors, 256, 256) {
        Ok(None) => (),
        _ => panic!(),
    }

    // piece is over max
    match compute_destination_sector_id(&staged_sectors, 256, 257) {
        Err(_) => (),
        _ => panic!(),
    }
}

#[test]
fn overflow_reports_both_amounts() {
    let staged_sectors: Vec<StagedSectorMetadata> = Vec::new();
    match compute_destination_sector_id(&staged_sectors, 256, 257) {
        Err(AllocationError::Overflow {
            piece_bytes,
            max_bytes,
        }) => {
            assert_eq!(piece_bytes, 257);
            assert_eq!(max_bytes, 256);
        }
        _ => panic!(),
    }
}

#[test]
fn overflow_regardless_of_candidates() {
    // an entirely empty candidate would have plenty of room, yet an oversized
    // piece still overflows
    let empty: StagedSectorMetadata = Default::default();
    let staged_sectors = vec![empty];
    assert!(matches!(
        compute_destination_sector_id(&staged_sectors, 256, 257),
        Err(AllocationError::Overflow { .. })
    ));
}

#[test]
fn first_fit_takes_input_order() {
    let mut roomy_late: StagedSectorMetadata = Default::default();
    roomy_late.sector_id = 7;

    let mut tight_early: StagedSectorMetadata = Default::default();
    tight_early.sector_id = 9;
    tight_early.pieces.push(PieceMetadata {
        piece_key: String::from("a"),
        num_bytes: 128,
        comm_p: None,
    });

    // both fit, so the first in input order wins even though the other has
    // more room
    let staged_sectors = vec![tight_early.clone(), roomy_late.clone()];
    match compute_destination_sector_id(&staged_sectors, 256, 128) {
        Ok(Some(destination_sector_id)) => assert_eq!(destination_sector_id, 9),
        _ => panic!(),
    }
}

#[test]
fn selection_is_side_effect_free() {
    let mut sector: StagedSectorMetadata = Default::default();
    sector.sector_id = 3;
    let staged_sectors = vec![sector];
    let _ = compute_destination_sector_id(&staged_sectors, 256, 128);
    let _ = compute_destination_sector_id(&staged_sectors, 256, 128);
    assert_eq!(staged_sectors.len(), 1);
    assert_eq!(staged_sectors[0].sector_id, 3);
    assert_eq!(staged_sectors[0].pieces.len(), 0);
}
