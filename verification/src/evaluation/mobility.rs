//! Mobility: how many squares each piece attacks that its own side does not occupy.
use vstd::prelude::*;
use crate::bits::{has_bit, popcnt, popcount, sum_squares};
use crate::board::{
    bishop_attacks, consistent, king_attacks, knight_attacks, rook_attacks, spec_bishop_attacks,
    spec_king_attacks, spec_knight_attacks, spec_rook_attacks, Color, PieceKind, Position,
};
use crate::evaluation::material::{lemma_occupied_colored, signed_for};

verus! {

/// The squares a piece of kind `pc` on `sq` attacks (pawns count none).
pub open spec fn spec_piece_attacks(pc: PieceKind, sq: u8, occupied: u64) -> u64 {
    match pc {
        PieceKind::Knight => spec_knight_attacks(sq),
        PieceKind::Bishop => spec_bishop_attacks(sq, occupied),
        PieceKind::Rook => spec_rook_attacks(sq, occupied),
        PieceKind::Queen => spec_bishop_attacks(sq, occupied) | spec_rook_attacks(sq, occupied),
        PieceKind::King => spec_king_attacks(sq),
        PieceKind::Pawn => 0,
    }
}

/// The squares a piece attacks.
pub fn piece_attacks(pc: PieceKind, sq: u8, occupied: u64) -> (r: u64)
    requires
        sq < 64,
    ensures
        r == spec_piece_attacks(pc, sq, occupied),
{
    match pc {
        PieceKind::Knight => knight_attacks(sq),
        PieceKind::Bishop => bishop_attacks(sq, occupied),
        PieceKind::Rook => rook_attacks(sq, occupied),
        PieceKind::Queen => bishop_attacks(sq, occupied) | rook_attacks(sq, occupied),
        PieceKind::King => king_attacks(sq),
        PieceKind::Pawn => 0,
    }
}

/// The pieces of the side a square's piece belongs to (Black's unless White's).
pub open spec fn own_pieces(p: Position, c: Option<Color>) -> u64 {
    if c == Some(Color::White) {
        p.white
    } else {
        p.black
    }
}

/// The mobility of the piece on a square, signed by colour.
pub open spec fn mobility_term(p: Position) -> spec_fn(u64) -> int {
    |sq: u64|
        match p.spec_piece_on(sq) {
            Some(pc) => signed_for(
                p.spec_color_on(sq),
                popcount(spec_piece_attacks(pc, sq as u8, p.occupied) & !own_pieces(p, p.spec_color_on(sq))) as int,
            ),
            None => 0,
        }
}

/// White's mobility minus Black's.
pub open spec fn spec_mobility(p: Position) -> int {
    sum_squares(p.occupied, mobility_term(p), 64)
}

/// The mobility difference, for the middlegame and the endgame alike.
pub fn mobility_score(p: &Position) -> (r: (i32, i32))
    requires
        consistent(*p),
    ensures
        r.0 == spec_mobility(*p),
        r.1 == spec_mobility(*p),
        -64 * 64 <= r.0 <= 64 * 64,
{
    let occupied = p.occupied;
    let white_pieces = p.white;
    let black_pieces = p.black;
    let mut white_mobility: i32 = 0;
    let mut black_mobility: i32 = 0;
    let mut i: u64 = 0;
    while i < 64
        invariant
            i <= 64,
            consistent(*p),
            occupied == p.occupied,
            white_pieces == p.white,
            black_pieces == p.black,
            white_mobility - black_mobility == sum_squares(p.occupied, mobility_term(*p), i as int),
            0 <= white_mobility <= 64 * i,
            0 <= black_mobility <= 64 * i,
        decreases 64 - i,
    {
        if has_bit(occupied, i) {
            if let Some(piece) = p.piece_on(i) {
                proof {
                    lemma_occupied_colored(*p, i);
                }
                let color = p.color_on(i).unwrap();
                let own = match color {
                    Color::White => white_pieces,
                    Color::Black => black_pieces,
                };
                let attacks = piece_attacks(piece, i as u8, occupied);
                let count = popcnt(attacks & !own) as i32;
                match color {
                    Color::White => {
                        white_mobility = white_mobility + count;
                    },
                    Color::Black => {
                        black_mobility = black_mobility + count;
                    },
                }
            }
        }
        i = i + 1;
    }
    let score = white_mobility - black_mobility;
    (score, score)
}

} // verus!
