use sector_builder::metadata::PieceMetadata;
use sector_builder::pieces::build_padded_stream;
use sector_builder::pieces::get_piece_padding;
use sector_builder::pieces::sum_piece_lengths;

#[test]
fn padding_aligned_piece_needs_none() {
    // 128 is already a power of two and the sector holds a multiple of it
    assert_eq!(get_piece_padding(0, 128), (0, 0));
    assert_eq!(get_piece_padding(128, 128), (0, 0));
    assert_eq!(get_piece_padding(256, 128), (0, 0));
}

#[test]
fn padding_rounds_up_to_alignment_unit() {
    // a 100-byte piece aligns to 128: right padding fills the unit, left
    // padding advances the occupied length to the next multiple of 128
    assert_eq!(get_piece_padding(0, 100), (0, 28));
    assert_eq!(get_piece_padding(100, 100), (28, 28));
    assert_eq!(get_piece_padding(130, 100), (126, 28));
}

#[test]
fn padding_of_empty_piece() {
    // the alignment unit is never smaller than one byte
    assert_eq!(get_piece_padding(0, 0), (0, 1));
    assert_eq!(get_piece_padding(5, 0), (0, 1));
}

#[test]
fn padded_stream_is_zeroes_piece_zeroes() {
    let piece = vec![9u8, 8, 7];
    assert_eq!(build_padded_stream(2, &piece, 3), vec![0, 0, 9, 8, 7, 0, 0, 0]);
    assert_eq!(build_padded_stream(0, &piece, 0), vec![9, 8, 7]);
    let empty: Vec<u8> = Vec::new();
    assert_eq!(build_padded_stream(1, &empty, 2), vec![0, 0, 0]);
}

#[test]
fn sum_of_piece_lengths() {
    let mut pieces: Vec<PieceMetadata> = Vec::new();
    assert_eq!(sum_piece_lengths(&pieces), 0);
    for n in [128u64, 100, 1] {
        pieces.push(PieceMetadata {
            piece_key: String::from("k"),
            num_bytes: n,
            comm_p: None,
        });
    }
    assert_eq!(sum_piece_lengths(&pieces), 229);
}
