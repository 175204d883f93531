//! The padding rules that keep sector contents aligned, and the summation of
//! recorded piece lengths.
//!
//! A piece is padded on the right up to its alignment unit — the smallest
//! power of two that is at least the piece length — and on the left by
//! whatever advances the occupied length to a multiple of that unit.

use vstd::prelude::*;
use crate::metadata::PieceMetadata;
use crate::metadata::PieceMetadataView;
use crate::metadata::pieces_view;

verus! {

/// How far `unit` still is from reaching `piece`; the doubling measure.
pub open spec fn align_gap(unit: nat, piece: nat) -> nat {
    if unit >= piece {
        0
    } else {
        ((piece - unit) as nat)
    }
}

/// Doubles `unit` until it reaches `piece`. Starting from one, this yields
/// the smallest power of two that is at least `piece` (and at least one).
pub open spec fn align_from(unit: nat, piece: nat) -> nat
    decreases align_gap(unit, piece),
{
    if unit < 1 {
        1
    } else if unit >= piece {
        unit
    } else {
        align_from(unit * 2, piece)
    }
}

/// The alignment unit of a piece: the smallest power of two that is at least
/// `piece`, and at least one.
pub open spec fn spec_alignment_unit(piece: nat) -> nat {
    align_from(1, piece)
}

/// Left padding: the bytes that advance `occupied` to the next multiple of
/// the piece's alignment unit.
pub open spec fn spec_left_padding(occupied: nat, piece: nat) -> nat {
    let unit = spec_alignment_unit(piece);
    (((unit - occupied % unit) % (unit as int)) as nat)
}

/// Right padding: the bytes that extend the piece to its alignment unit.
pub open spec fn spec_right_padding(piece: nat) -> nat {
    ((spec_alignment_unit(piece) - piece) as nat)
}

pub proof fn lemma_align_from_bounds(unit: nat, piece: nat)
    requires
        1 <= unit,
    ensures
        align_from(unit, piece) >= unit,
        align_from(unit, piece) >= piece,
        unit < piece ==> align_from(unit, piece) < 2 * piece,
    decreases align_gap(unit, piece),
{
    if unit < piece {
        lemma_align_from_bounds(unit * 2, piece);
    }
}

/// The alignment unit is at least one, at least the piece length, and less
/// than twice the piece length (for pieces of at least one byte).
pub proof fn lemma_alignment_unit_bounds(piece: nat)
    ensures
        spec_alignment_unit(piece) >= 1,
        spec_alignment_unit(piece) >= piece,
        piece <= 1 ==> spec_alignment_unit(piece) == 1,
        piece >= 2 ==> spec_alignment_unit(piece) < 2 * piece,
{
    lemma_align_from_bounds(1, piece);
}

/// Computes the alignment unit of a piece.
fn alignment_unit(piece: u64) -> (r: u64)
    requires
        piece <= 0x8000_0000_0000_0000u64,
    ensures
        r == spec_alignment_unit(piece as nat),
{
    let mut unit: u64 = 1;
    while unit < piece
        invariant
            1 <= unit,
            piece <= 0x8000_0000_0000_0000u64,
            align_from(unit as nat, piece as nat) == spec_alignment_unit(piece as nat),
        decreases align_gap(unit as nat, piece as nat),
    {
        unit = unit * 2;
    }
    unit
}

/// Returns the `(left, right)` padding byte lengths for a piece of
/// `piece_length` bytes entering a sector already holding `occupied_length`
/// bytes of pieces.
pub fn get_piece_padding(occupied_length: u64, piece_length: u64) -> (r: (u64, u64))
    requires
        piece_length <= 0x8000_0000_0000_0000u64,
    ensures
        r.0 == spec_left_padding(occupied_length as nat, piece_length as nat),
        r.1 == spec_right_padding(piece_length as nat),
{
    let unit = alignment_unit(piece_length);
    proof {
        lemma_alignment_unit_bounds(piece_length as nat);
    }
    let rem = occupied_length % unit;
    let left = (unit - rem) % unit;
    let right = unit - piece_length;
    (left, right)
}

/// The byte stream a padded write must carry: `left` zero bytes, then the
/// piece, then `right` zero bytes.
pub open spec fn spec_padded_stream(left: nat, piece: Seq<u8>, right: nat) -> Seq<u8> {
    Seq::new(left, |i: int| 0u8) + piece + Seq::new(right, |i: int| 0u8)
}

/// Builds the write stream for a padded piece: exactly `left` zero bytes,
/// the piece bytes, and `right` zero bytes, in that order.
pub fn build_padded_stream(left: u64, piece: &Vec<u8>, right: u64) -> (data: Vec<u8>)
    ensures
        data@ == spec_padded_stream(left as nat, piece@, right as nat),
        data@.len() == left + piece@.len() + right,
{
    let mut data: Vec<u8> = Vec::new();
    let mut i: u64 = 0;
    while i < left
        invariant
            i <= left,
            data@.len() == i,
            forall|m: int| 0 <= m < i ==> data@[m] == 0u8,
        decreases left - i,
    {
        data.push(0u8);
        i = i + 1;
    }
    let mut j: usize = 0;
    while j < piece.len()
        invariant
            j <= piece@.len(),
            data@.len() == left + j,
            forall|m: int| 0 <= m < left ==> data@[m] == 0u8,
            forall|m: int| 0 <= m < j ==> data@[left + m] == piece@[m],
        decreases piece@.len() - j,
    {
        data.push(piece[j]);
        j = j + 1;
    }
    let mut k: u64 = 0;
    while k < right
        invariant
            k <= right,
            data@.len() == left + piece@.len() + k,
            forall|m: int| 0 <= m < left ==> data@[m] == 0u8,
            forall|m: int| 0 <= m < piece@.len() ==> data@[left + m] == piece@[m],
            forall|m: int| 0 <= m < k ==> #[trigger] data@[left + piece@.len() + m] == 0u8,
        decreases right - k,
    {
        data.push(0u8);
        k = k + 1;
    }
    proof {
        let model = spec_padded_stream(left as nat, piece@, right as nat);
        assert forall|idx: int| 0 <= idx < data@.len() implies data@[idx] == model[idx] by {
            if idx < left {
            } else if idx < left + piece@.len() {
                assert(data@[left + (idx - left)] == piece@[idx - left]);
            } else {
                assert(data@[left + piece@.len() + (idx - left - piece@.len())] == 0u8);
            }
        }
        assert(data@ =~= model);
    }
    data
}

/// The total unpadded length of a sequence of piece records.
pub open spec fn spec_sum_piece_lengths(pieces: Seq<PieceMetadataView>) -> int
    decreases pieces.len(),
{
    if pieces.len() == 0 {
        0
    } else {
        spec_sum_piece_lengths(pieces.drop_last()) + pieces.last().num_bytes
    }
}

pub proof fn lemma_sum_nonneg(pieces: Seq<PieceMetadataView>)
    ensures
        spec_sum_piece_lengths(pieces) >= 0,
    decreases pieces.len(),
{
    if pieces.len() > 0 {
        lemma_sum_nonneg(pieces.drop_last());
    }
}

pub proof fn lemma_sum_take_succ(pieces: Seq<PieceMetadataView>, i: int)
    requires
        0 <= i < pieces.len(),
    ensures
        spec_sum_piece_lengths(pieces.take(i + 1)) == spec_sum_piece_lengths(pieces.take(i))
            + pieces[i].num_bytes,
{
    assert(pieces.take(i + 1).drop_last() =~= pieces.take(i));
    assert(pieces.take(i + 1).last() == pieces[i]);
}

pub proof fn lemma_sum_take_le(pieces: Seq<PieceMetadataView>, i: int)
    requires
        0 <= i <= pieces.len(),
    ensures
        spec_sum_piece_lengths(pieces.take(i)) <= spec_sum_piece_lengths(pieces),
    decreases pieces.len() - i,
{
    if i == pieces.len() {
        assert(pieces.take(i) =~= pieces);
    } else {
        lemma_sum_take_succ(pieces, i);
        lemma_sum_take_le(pieces, i + 1);
    }
}

/// Round-trip accounting: appending a piece of `n` bytes raises the recorded
/// sum by exactly `n`.
pub proof fn lemma_sum_after_append(pieces: Seq<PieceMetadataView>, piece: PieceMetadataView)
    ensures
        spec_sum_piece_lengths(pieces.push(piece)) == spec_sum_piece_lengths(pieces)
            + piece.num_bytes,
{
    assert(pieces.push(piece).drop_last() =~= pieces);
}

/// Sums the declared lengths of the given piece records.
pub fn sum_piece_lengths(pieces: &Vec<PieceMetadata>) -> (r: u64)
    requires
        spec_sum_piece_lengths(pieces_view(pieces@)) <= u64::MAX,
    ensures
        r == spec_sum_piece_lengths(pieces_view(pieces@)),
{
    let ghost model = pieces_view(pieces@);
    let mut total: u64 = 0;
    let mut i: usize = 0;
    proof {
        assert(model.take(0) =~= Seq::<PieceMetadataView>::empty());
    }
    while i < pieces.len()
        invariant
            0 <= i <= pieces.len(),
            model == pieces_view(pieces@),
            model.len() == pieces@.len(),
            spec_sum_piece_lengths(model) <= u64::MAX,
            total == spec_sum_piece_lengths(model.take(i as int)),
        decreases pieces.len() - i,
    {
        proof {
            lemma_sum_take_succ(model, i as int);
            lemma_sum_take_le(model, i as int + 1);
            lemma_sum_nonneg(model.take(i as int));
            assert(model[i as int] == pieces@[i as int]@);
        }
        total = total + pieces[i].num_bytes;
        i = i + 1;
    }
    proof {
        assert(model.take(pieces@.len() as int) =~= model);
    }
    total
}

/// Whether a piece of `piece` bytes fits a sector already holding `occupied`
/// bytes of pieces, under the per-sector capacity `cap`: the occupied length
/// plus both paddings plus the piece must stay within the capacity.
pub open spec fn spec_piece_fits(occupied: int, piece: u64, cap: u64) -> bool
    recommends
        occupied >= 0,
{
    occupied + spec_left_padding(occupied as nat, piece as nat) + piece + spec_right_padding(
        piece as nat,
    ) <= cap
}

} // verus!
