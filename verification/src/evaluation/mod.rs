//! Static evaluation of a position, from White's point of view.
use vstd::prelude::*;
use crate::bits::{bit, has_bit, lemma_bit_ops, popcnt, popcount, sum_squares};
use crate::board::{consistent, file_of, rank_of, square_file, square_rank, Color, PieceKind, Position};
use crate::evaluation::king_safety::{cell, cell_bb, forward, spec_pawn_attacks};
use crate::evaluation::material::{piece_value, spec_piece_value, material_score, spec_material_score};
use crate::evaluation::mobility::{mobility_score, spec_mobility};
use crate::evaluation::king_safety::{king_safety_score, spec_king_safety_mg};
use crate::evaluation::opening::{positional_principles_score, spec_center_pawns, spec_castled_kings};
use crate::evaluation::endgame::{endgame_score, spec_endgame};
use crate::search::heuristics::trunc_div;

pub mod material;
pub mod mobility;
pub mod king_safety;
pub mod opening;
pub mod endgame;
pub mod structure;
pub mod see;

verus! {

/// The squares that a pawn of the other colour standing on `sq` would
/// attack: for a White piece, the neighbouring files one rank below it
/// (toward rank 1); for a Black piece, one rank above it.  These are not the
/// squares from which an enemy pawn attacks `sq`, which lie on the other
/// side of it.
pub open spec fn spec_pawn_attacks_to(sq: u8, c: Color) -> u64 {
    spec_pawn_attacks(sq, c.spec_opponent())
}

/// The squares that a pawn of the other colour would attack from `square`:
/// one rank below it for a White piece, one rank above it for a Black piece.
pub fn pawn_attacks_to(square: u8, color: Color) -> (b: u64)
    ensures
        b == spec_pawn_attacks_to(square, color),
{
    let file = square_file(square) as i32;
    let rank = square_rank(square) as i32;
    let mut bits: u64 = 0;
    let direction: i32 = match color {
        Color::White => -1,
        Color::Black => 1,
    };
    let pawn_rank = rank + direction;
    if !(0 <= pawn_rank && pawn_rank < 8) {
        return 0;
    }
    let left: u64 = if file > 0 { cell_bb(file - 1, pawn_rank) } else { 0 };
    let right: u64 = if file < 7 { cell_bb(file + 1, pawn_rank) } else { 0 };
    bits = bits | left;
    bits = bits | right;
    assert(0u64 | left == left) by (bit_vector);
    bits
}

/// Half the value of a piece of colour `c` (other than pawns and kings) with
/// an enemy pawn on a square of `spec_pawn_attacks_to` (the neighbouring
/// files one rank toward its own side, not the squares that attack it).
pub open spec fn hanging_term(p: Position, c: Color) -> spec_fn(u64) -> int {
    |sq: u64|
        if popcount(spec_pawn_attacks_to(sq as u8, c) & (p.spec_color_bb(c.spec_opponent()) & p.pawns)) > 0 {
            match p.spec_piece_on(sq) {
                Some(pc) => spec_piece_value(pc) / 2,
                None => 0,
            }
        } else {
            0
        }
}

/// The pieces of a colour other than pawns and kings.
pub open spec fn minor_and_major(p: Position, c: Color) -> u64 {
    p.spec_color_bb(c) & !p.pawns & !p.kings
}

/// The threat score: Black's penalised pieces minus White's.
pub open spec fn spec_hanging_piece_penalty(p: Position) -> int {
    sum_squares(minor_and_major(p, Color::Black), hanging_term(p, Color::Black), 64) - sum_squares(
        minor_and_major(p, Color::White),
        hanging_term(p, Color::White),
        64,
    )
}

fn hanging_sum(p: &Position, color: Color) -> (r: i32)
    requires
        consistent(*p),
    ensures
        r == sum_squares(minor_and_major(*p, color), hanging_term(*p, color), 64),
        0 <= r <= 450 * 64,
{
    let pieces = p.color_bb(color) & !p.pawns & !p.kings;
    let enemy_pawns = p.color_bb(color.opponent()) & p.pawns;
    let mut score: i32 = 0;
    let mut i: u64 = 0;
    while i < 64
        invariant
            i <= 64,
            consistent(*p),
            pieces == minor_and_major(*p, color),
            enemy_pawns == p.spec_color_bb(color.spec_opponent()) & p.pawns,
            score == sum_squares(pieces, hanging_term(*p, color), i as int),
            0 <= score <= 450 * i,
        decreases 64 - i,
    {
        if has_bit(pieces, i) {
            proof {
                lemma_bit_ops(p.spec_color_bb(color) & !p.pawns, !p.kings, i);
                lemma_bit_ops(p.spec_color_bb(color), !p.pawns, i);
                lemma_bit_ops(p.white, p.black, i);
            }
            let piece = p.piece_on(i).unwrap();
            if popcnt(pawn_attacks_to(i as u8, color) & enemy_pawns) > 0 {
                score = score + piece_value(piece) / 2;
            }
        }
        i = i + 1;
    }
    score
}

/// Pieces with an enemy pawn diagonally next to them on their own side (see
/// `spec_pawn_attacks_to`) lose half their value.
pub fn hanging_piece_penalty(p: &Position) -> (r: i32)
    requires
        consistent(*p),
    ensures
        r == spec_hanging_piece_penalty(*p),
        -450 * 64 <= r <= 450 * 64,
{
    let white_loss = hanging_sum(p, Color::White);
    let black_loss = hanging_sum(p, Color::Black);
    let mut score: i32 = 0;
    score = score - white_loss;
    score = score + black_loss;
    score
}

/// The game phase runs from 0 (bare kings and pawns) to this (full middlegame).
pub const TOTAL_PHASE: i32 = 24;

/// Largest magnitude of a static evaluation.
pub const EVAL_BOUND: i32 = 1_000_000;

/// Piece-square terms of a position and its game phase.
#[derive(Clone, Copy, PartialEq, Eq, Structural, Debug)]
pub struct PieceSquareTerms {
    pub mg: i32,
    pub eg: i32,
    pub phase: i32,
}

/// Terms that the blend can take without overflow.
pub open spec fn pst_in_range(t: PieceSquareTerms) -> bool {
    &&& -100_000 <= t.mg <= 100_000
    &&& -100_000 <= t.eg <= 100_000
    &&& 0 <= t.phase <= TOTAL_PHASE
}

/// The game phase by material on the board: minor pieces 1, rooks 2,
/// queens 4, at most `TOTAL_PHASE`.
pub open spec fn spec_game_phase(p: Position) -> int {
    let n = popcount(p.knights) + popcount(p.bishops) + 2 * popcount(p.rooks) + 4 * popcount(p.queens);
    if n > TOTAL_PHASE {
        TOTAL_PHASE as int
    } else {
        n as int
    }
}

/// Piece-square terms used by the search: no square bonuses, and the game
/// phase by material.
pub fn piece_square_terms(p: &Position) -> (r: PieceSquareTerms)
    ensures
        r.mg == 0,
        r.eg == 0,
        r.phase == spec_game_phase(*p),
        pst_in_range(r),
{
    let n = popcnt(p.knights) + popcnt(p.bishops) + 2 * popcnt(p.rooks) + 4 * popcnt(p.queens);
    let phase: i32 = if n > 24 { TOTAL_PHASE } else { n as i32 };
    PieceSquareTerms { mg: 0, eg: 0, phase }
}

/// The middlegame total: material, twice the mobility, king safety, opening
/// principles, the (middlegame-free) endgame term, piece squares and threats.
pub open spec fn spec_mg_total(p: Position, t: PieceSquareTerms) -> int {
    spec_material_score(p) + 2 * spec_mobility(p) + (spec_king_safety_mg(p, Color::White) - spec_king_safety_mg(
        p,
        Color::Black,
    )) + (spec_center_pawns(p) + spec_castled_kings(p)) + 0 + t.mg + spec_hanging_piece_penalty(p)
}

/// The endgame total, with the endgame shares of each term.
pub open spec fn spec_eg_total(p: Position, t: PieceSquareTerms) -> int {
    spec_material_score(p) + 2 * spec_mobility(p) + (trunc_div(spec_king_safety_mg(p, Color::White), 4)
        - trunc_div(spec_king_safety_mg(p, Color::Black), 4)) + spec_center_pawns(p) + spec_endgame(p) + t.eg
        + spec_hanging_piece_penalty(p)
}

/// The evaluation: the middlegame and endgame totals blended by the game
/// phase (rounded toward zero).
pub open spec fn spec_evaluate(p: Position, t: PieceSquareTerms) -> int {
    trunc_div(
        spec_mg_total(p, t) * t.phase + spec_eg_total(p, t) * (TOTAL_PHASE - t.phase),
        TOTAL_PHASE as int,
    )
}

/// The static evaluation of a position from White's point of view, with the
/// given piece-square terms.
#[verifier::rlimit(40)]
pub fn evaluate_with(p: &Position, t: PieceSquareTerms) -> (r: i32)
    requires
        consistent(*p),
        pst_in_range(t),
    ensures
        r == spec_evaluate(*p, t),
        -EVAL_BOUND <= r <= EVAL_BOUND,
{
    let material = material_score(p);
    let (mob_mg, mob_eg) = mobility_score(p);
    let (ks_mg, ks_eg) = king_safety_score(p);
    let (pos_mg, pos_eg) = positional_principles_score(p);
    let (end_mg, end_eg) = endgame_score(p);
    let threats = hanging_piece_penalty(p);
    let mg_total = material + (2 * mob_mg) + ks_mg + pos_mg + end_mg + t.mg + threats;
    let eg_total = material + (2 * mob_eg) + ks_eg + pos_eg + end_eg + t.eg + threats;
    let phase = t.phase;
    assert(-700_000 <= mg_total <= 700_000);
    assert(-700_000 <= eg_total <= 700_000);
    assert(-700_000 * 24 <= mg_total * phase + eg_total * (TOTAL_PHASE - phase) <= 700_000 * 24) by (nonlinear_arith)
        requires
            -700_000 <= mg_total <= 700_000,
            -700_000 <= eg_total <= 700_000,
            0 <= phase <= 24,
    ;
    assert(-700_000 * 24 <= mg_total * phase <= 700_000 * 24 && -700_000 * 24 <= eg_total * (24 - phase)
        <= 700_000 * 24) by (nonlinear_arith)
        requires
            -700_000 <= mg_total <= 700_000,
            -700_000 <= eg_total <= 700_000,
            0 <= phase <= 24,
    ;
    let a = mg_total * phase;
    let b = eg_total * (TOTAL_PHASE - phase);
    let num = a + b;
    assert(-700_000 <= num / 24 <= 700_000);
    num / TOTAL_PHASE
}

/// The static evaluation from White's point of view.
pub open spec fn spec_eval(p: Position) -> int {
    spec_evaluate(p, PieceSquareTerms { mg: 0, eg: 0, phase: spec_game_phase(p) as i32 })
}

/// The static evaluation from White's point of view.
pub fn evaluate(p: &Position) -> (r: i32)
    requires
        consistent(*p),
    ensures
        r == spec_eval(*p),
        -EVAL_BOUND <= r <= EVAL_BOUND,
{
    let t = piece_square_terms(p);
    evaluate_with(p, t)
}

/// The evaluation from the side to move's point of view.
pub open spec fn spec_eval_relative(p: Position) -> int {
    if p.side_to_move == Color::White {
        spec_eval(p)
    } else {
        -spec_eval(p)
    }
}

/// The static evaluation from the side to move's point of view.
pub fn evaluate_relative(p: &Position) -> (r: i32)
    requires
        consistent(*p),
    ensures
        r == spec_eval_relative(*p),
        -EVAL_BOUND <= r <= EVAL_BOUND,
{
    let score = evaluate(p);
    if p.side_to_move == Color::White {
        score
    } else {
        -score
    }
}

} // verus!
