//! Opening principles: central pawns and a castled king.
use vstd::prelude::*;
use crate::bits::{has_bit, bit, popcnt, popcount, square_bb};
use crate::board::{Color, Position};

verus! {

/// A side's pawn on a central square counts `bonus` for White, minus for Black.
pub open spec fn center_term(p: Position, sq: u64, bonus: int) -> int {
    (if popcount(p.white & p.pawns & (1u64 << sq)) > 0 {
        bonus
    } else {
        0
    }) - (if popcount(p.black & p.pawns & (1u64 << sq)) > 0 {
        bonus
    } else {
        0
    })
}

/// Pawns on e4, d4, e5, d5 (15 each) and c4, f4, c5, f5 (5 each), White minus Black.
pub open spec fn spec_center_pawns(p: Position) -> int {
    center_term(p, 28, 15) + center_term(p, 27, 15) + center_term(p, 36, 15) + center_term(p, 35, 15)
        + center_term(p, 26, 5) + center_term(p, 29, 5) + center_term(p, 34, 5) + center_term(p, 37, 5)
}

/// A castled king: 40 for White's king on g1 or c1, minus 40 for Black's on g8 or c8.
pub open spec fn spec_castled_kings(p: Position) -> int {
    (if p.white_king == 6 || p.white_king == 2 {
        40int
    } else {
        0
    }) - (if p.black_king == 62 || p.black_king == 58 {
        40int
    } else {
        0
    })
}

/// The castled-king term is +40 for White's king on g1 or c1 and -40 for
/// Black's on g8 or c8: it never counts against a castled White king, never
/// for a castled Black king, and moving only White's king onto g1 or c1 from
/// elsewhere raises it by exactly 40.
pub proof fn law_castled_king_term(p: Position, q: Position)
    ensures
        (p.white_king == 6 || p.white_king == 2) ==> spec_castled_kings(p) >= 0,
        (p.black_king == 62 || p.black_king == 58) ==> spec_castled_kings(p) <= 0,
        (p.white_king == 6 || p.white_king == 2) && !(p.black_king == 62 || p.black_king == 58)
            ==> spec_castled_kings(p) == 40,
        !(p.white_king == 6 || p.white_king == 2) && (p.black_king == 62 || p.black_king == 58)
            ==> spec_castled_kings(p) == -40,
        q.black_king == p.black_king && (q.white_king == 6 || q.white_king == 2)
            && !(p.white_king == 6 || p.white_king == 2) ==> spec_castled_kings(q) == spec_castled_kings(p) + 40,
{
}

fn center_term_exec(p: &Position, sq: u64, bonus: i32) -> (r: i32)
    requires
        sq < 64,
        0 <= bonus <= 15,
    ensures
        r == center_term(*p, sq, bonus as int),
        -15 <= r <= 15,
{
    let square_bb = square_bb(sq);
    let mut r: i32 = 0;
    if popcnt(p.white & p.pawns & square_bb) > 0 {
        r = r + bonus;
    }
    if popcnt(p.black & p.pawns & square_bb) > 0 {
        r = r - bonus;
    }
    r
}

/// The opening-principles score: `(middlegame, endgame)`.
pub fn positional_principles_score(p: &Position) -> (r: (i32, i32))
    ensures
        r.0 == spec_center_pawns(*p) + spec_castled_kings(*p),
        r.1 == spec_center_pawns(*p),
        (p.white_king == 6 || p.white_king == 2) && !(p.black_king == 62 || p.black_king == 58) ==> r.0 - r.1 == 40,
        !(p.white_king == 6 || p.white_king == 2) && (p.black_king == 62 || p.black_king == 58) ==> r.0 - r.1 == -40,
        (p.white_king == 6 || p.white_king == 2) == (p.black_king == 62 || p.black_king == 58) ==> r.0 == r.1,
        -300 <= r.0 <= 300,
        -300 <= r.1 <= 300,
{
    let mut mg_score: i32 = 0;
    let mut eg_score: i32 = 0;
    let t = center_term_exec(p, 28, 15);
    mg_score = mg_score + t;
    eg_score = eg_score + t;
    let t = center_term_exec(p, 27, 15);
    mg_score = mg_score + t;
    eg_score = eg_score + t;
    let t = center_term_exec(p, 36, 15);
    mg_score = mg_score + t;
    eg_score = eg_score + t;
    let t = center_term_exec(p, 35, 15);
    mg_score = mg_score + t;
    eg_score = eg_score + t;
    let t = center_term_exec(p, 26, 5);
    mg_score = mg_score + t;
    eg_score = eg_score + t;
    let t = center_term_exec(p, 29, 5);
    mg_score = mg_score + t;
    eg_score = eg_score + t;
    let t = center_term_exec(p, 34, 5);
    mg_score = mg_score + t;
    eg_score = eg_score + t;
    let t = center_term_exec(p, 37, 5);
    mg_score = mg_score + t;
    eg_score = eg_score + t;
    let white_king_sq = p.king_square(Color::White);
    let black_king_sq = p.king_square(Color::Black);
    if white_king_sq == 6 || white_king_sq == 2 {
        mg_score = mg_score + 40;
    }
    if black_king_sq == 62 || black_king_sq == 58 {
        mg_score = mg_score - 40;
    }
    (mg_score, eg_score)
}

} // verus!
