//! Material counting.
use vstd::prelude::*;
use crate::bits::{bit, has_bit, lemma_bit_ops, popcnt, popcount, sum_squares};
use crate::board::{consistent, Color, PieceKind, Position};

verus! {

pub const BISHOP_PAIR_BONUS: i32 = 30;

/// The value of a piece in centipawns (the king counts nothing).
pub open spec fn spec_piece_value(p: PieceKind) -> int {
    match p {
        PieceKind::Pawn => 100,
        PieceKind::Knight => 300,
        PieceKind::Bishop => 330,
        PieceKind::Rook => 500,
        PieceKind::Queen => 900,
        PieceKind::King => 0,
    }
}

/// The value of a piece in centipawns.
pub fn piece_value(p: PieceKind) -> (r: i32)
    ensures
        r == spec_piece_value(p),
        0 <= r <= 900,
{
    match p {
        PieceKind::Pawn => 100,
        PieceKind::Knight => 300,
        PieceKind::Bishop => 330,
        PieceKind::Rook => 500,
        PieceKind::Queen => 900,
        PieceKind::King => 0,
    }
}

/// `v` for a white piece, `-v` otherwise.
pub open spec fn signed_for(c: Option<Color>, v: int) -> int {
    if c == Some(Color::White) {
        v
    } else {
        -v
    }
}

/// The material on a square, signed by colour.
pub open spec fn material_term(p: Position) -> spec_fn(u64) -> int {
    |sq: u64|
        match p.spec_piece_on(sq) {
            Some(pc) => signed_for(p.spec_color_on(sq), spec_piece_value(pc)),
            None => 0,
        }
}

/// White's material minus Black's.
pub open spec fn spec_material_score(p: Position) -> int {
    sum_squares(p.occupied, material_term(p), 64)
}

/// The colour of an occupied square of a consistent position.
pub proof fn lemma_occupied_colored(p: Position, sq: u64)
    requires
        consistent(p),
        sq < 64,
        bit(p.occupied, sq),
    ensures
        p.spec_color_on(sq).is_some(),
{
    lemma_bit_ops(p.white, p.black, sq);
}

/// White's material minus Black's, summed over the occupied squares.
pub fn material_score(p: &Position) -> (r: i32)
    requires
        consistent(*p),
    ensures
        r == spec_material_score(*p),
        -64 * 900 <= r <= 64 * 900,
{
    let mut score: i32 = 0;
    let mut i: u64 = 0;
    while i < 64
        invariant
            i <= 64,
            consistent(*p),
            score == sum_squares(p.occupied, material_term(*p), i as int),
            -900 * i <= score <= 900 * i,
        decreases 64 - i,
    {
        if has_bit(p.occupied, i) {
            if let Some(piece) = p.piece_on(i) {
                let v = piece_value(piece);
                proof {
                    lemma_occupied_colored(*p, i);
                }
                let color = p.color_on(i).unwrap();
                score = match color {
                    Color::White => score + v,
                    Color::Black => score - v,
                };
            }
        }
        i = i + 1;
    }
    score
}

/// A bonus for each side that has two or more bishops.
pub open spec fn spec_bishop_pair_score(p: Position) -> int {
    (if popcount(p.white & p.bishops) >= 2 {
        BISHOP_PAIR_BONUS as int
    } else {
        0
    }) - (if popcount(p.black & p.bishops) >= 2 {
        BISHOP_PAIR_BONUS as int
    } else {
        0
    })
}

/// The bishop-pair bonus of White minus that of Black.
pub fn bishop_pair_score(p: &Position) -> (r: i32)
    ensures
        r == spec_bishop_pair_score(*p),
{
    let white_bishops = popcnt(p.white & p.bishops);
    let black_bishops = popcnt(p.black & p.bishops);
    let mut score: i32 = 0;
    if white_bishops >= 2 {
        score = score + BISHOP_PAIR_BONUS;
    }
    if black_bishops >= 2 {
        score = score - BISHOP_PAIR_BONUS;
    }
    score
}

} // verus!
