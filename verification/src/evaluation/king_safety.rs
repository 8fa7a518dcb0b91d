//! King safety: pawn shield, open files next to the king, enemy attacks on
//! the squares around it, castling and a centralised king.
use vstd::prelude::*;
use crate::bits::{has_bit, popcnt, popcount, sum_squares, lemma_sum_squares_bound, lemma_popcount_bound};
use crate::board::{
    bishop_attacks, file_of, knight_attacks, rank_of, rook_attacks, spec_bishop_attacks,
    spec_knight_attacks, spec_rook_attacks, square_file, square_rank, Color, Position,
};

verus! {

pub const PAWN_SHIELD_BONUS: i32 = 18;
pub const MISSING_SHIELD_PENALTY: i32 = 12;
pub const OPEN_FILE_PENALTY: i32 = 22;
pub const SEMI_OPEN_FILE_PENALTY: i32 = 10;
pub const KING_ATTACK_BONUS: i32 = 8;
pub const KING_ZONE_ATTACK_BONUS: i32 = 4;
pub const CENTER_KING_PENALTY: i32 = 18;
pub const CASTLED_KING_BONUS: i32 = 12;

/// The bitboard of the square at file `f`, rank `r`, or empty off the board.
pub open spec fn cell(f: int, r: int) -> u64 {
    if 0 <= f < 8 && 0 <= r < 8 {
        1u64 << ((r * 8 + f) as u64)
    } else {
        0
    }
}

/// The square at file `f`, rank `r`, or nothing off the board.
pub fn cell_bb(f: i32, r: i32) -> (b: u64)
    requires
        -10 <= f <= 10,
        -10 <= r <= 10,
    ensures
        b == cell(f as int, r as int),
{
    if 0 <= f && f < 8 && 0 <= r && r < 8 {
        let s: u64 = (r * 8 + f) as u64;
        1u64 << s
    } else {
        0
    }
}

/// The squares of a file.
pub open spec fn spec_file_mask(f: int) -> u64 {
    cell(f, 0) | cell(f, 1) | cell(f, 2) | cell(f, 3) | cell(f, 4) | cell(f, 5) | cell(f, 6) | cell(f, 7)
}

/// The squares of a file, every rank from 1 to 8.
pub fn file_mask(file: u8) -> (r: u64)
    requires
        file < 8,
    ensures
        r == spec_file_mask(file as int),
{
    let f = file as i32;
    let mut bits: u64 = 0;
    bits = bits | cell_bb(f, 0);
    bits = bits | cell_bb(f, 1);
    bits = bits | cell_bb(f, 2);
    bits = bits | cell_bb(f, 3);
    bits = bits | cell_bb(f, 4);
    bits = bits | cell_bb(f, 5);
    bits = bits | cell_bb(f, 6);
    bits = bits | cell_bb(f, 7);
    let ghost c = cell(f as int, 0);
    assert(0u64 | c == c) by (bit_vector);
    bits
}

/// The king's square and the squares next to it.
pub open spec fn spec_king_zone(f: int, r: int) -> u64 {
    cell(f - 1, r - 1) | cell(f - 1, r) | cell(f - 1, r + 1) | cell(f, r - 1) | cell(f, r) | cell(f, r + 1) | cell(
        f + 1,
        r - 1,
    ) | cell(f + 1, r) | cell(f + 1, r + 1)
}

/// The squares next to the king (its own square left out).
pub open spec fn spec_king_ring(f: int, r: int) -> u64 {
    cell(f - 1, r - 1) | cell(f - 1, r) | cell(f - 1, r + 1) | cell(f, r - 1) | cell(f, r + 1) | cell(f + 1, r - 1)
        | cell(f + 1, r) | cell(f + 1, r + 1)
}

/// The king's square and its neighbours, by file and rank offsets -1..=1.
pub fn king_zone(king: u8) -> (z: u64)
    ensures
        z == spec_king_zone(file_of(king), rank_of(king)),
{
    let f = square_file(king) as i32;
    let r = square_rank(king) as i32;
    let mut bits: u64 = 0;
    bits = bits | cell_bb(f - 1, r - 1);
    bits = bits | cell_bb(f - 1, r);
    bits = bits | cell_bb(f - 1, r + 1);
    bits = bits | cell_bb(f, r - 1);
    bits = bits | cell_bb(f, r);
    bits = bits | cell_bb(f, r + 1);
    bits = bits | cell_bb(f + 1, r - 1);
    bits = bits | cell_bb(f + 1, r);
    bits = bits | cell_bb(f + 1, r + 1);
    let ghost c = cell(f - 1, r - 1);
    assert(0u64 | c == c) by (bit_vector);
    bits
}

/// The neighbours of the king's square.
pub fn king_ring(king: u8) -> (z: u64)
    ensures
        z == spec_king_ring(file_of(king), rank_of(king)),
{
    let f = square_file(king) as i32;
    let r = square_rank(king) as i32;
    let mut bits: u64 = 0;
    bits = bits | cell_bb(f - 1, r - 1);
    bits = bits | cell_bb(f - 1, r);
    bits = bits | cell_bb(f - 1, r + 1);
    bits = bits | cell_bb(f, r - 1);
    bits = bits | cell_bb(f, r + 1);
    bits = bits | cell_bb(f + 1, r - 1);
    bits = bits | cell_bb(f + 1, r);
    bits = bits | cell_bb(f + 1, r + 1);
    let ghost c = cell(f - 1, r - 1);
    assert(0u64 | c == c) by (bit_vector);
    bits
}

/// The rank direction in which a colour's pawns advance.
pub open spec fn forward(c: Color) -> int {
    match c {
        Color::White => 1,
        Color::Black => -1,
    }
}

/// The squares a pawn of colour `c` on `sq` attacks: diagonally forward.
pub open spec fn spec_pawn_attacks(sq: u8, c: Color) -> u64 {
    let f = file_of(sq);
    let tr = rank_of(sq) + forward(c);
    if !(0 <= tr < 8) {
        0
    } else {
        (if f > 0 { cell(f - 1, tr) } else { 0 }) | (if f < 7 { cell(f + 1, tr) } else { 0 })
    }
}

/// The squares a pawn attacks.
pub fn pawn_attacks(square: u8, color: Color) -> (b: u64)
    ensures
        b == spec_pawn_attacks(square, color),
{
    let file = square_file(square) as i32;
    let rank = square_rank(square) as i32;
    let mut bits: u64 = 0;
    let direction: i32 = match color {
        Color::White => 1,
        Color::Black => -1,
    };
    let target_rank = rank + direction;
    if !(0 <= target_rank && target_rank < 8) {
        return 0;
    }
    let left: u64 = if file > 0 { cell_bb(file - 1, target_rank) } else { 0 };
    let right: u64 = if file < 7 { cell_bb(file + 1, target_rank) } else { 0 };
    bits = bits | left;
    bits = bits | right;
    assert(0u64 | left == left) by (bit_vector);
    bits
}

/// The shield term for one file next to (or of) the king.
pub open spec fn shield_term(pawns: u64, file: int, shield_rank: int) -> int {
    if !(0 <= file < 8) {
        0
    } else if popcount(pawns & cell(file, shield_rank)) > 0 {
        PAWN_SHIELD_BONUS as int
    } else {
        -MISSING_SHIELD_PENALTY as int
    }
}

/// The rank in front of the castled king.
pub open spec fn shield_rank(c: Color) -> int {
    match c {
        Color::White => 1,
        Color::Black => 6,
    }
}

/// Own pawns on the rank in front of the king, on its file and the two next to it.
pub open spec fn spec_pawn_shield(p: Position, c: Color, king: u8) -> int {
    let pawns = p.spec_color_bb(c) & p.pawns;
    let kf = file_of(king);
    shield_term(pawns, kf - 1, shield_rank(c)) + shield_term(pawns, kf, shield_rank(c)) + shield_term(
        pawns,
        kf + 1,
        shield_rank(c),
    )
}

fn shield_term_exec(pawns: u64, file: i32, shield_rank: i32) -> (r: i32)
    requires
        -2 <= file <= 9,
        0 <= shield_rank < 8,
    ensures
        r == shield_term(pawns, file as int, shield_rank as int),
{
    if !(0 <= file && file < 8) {
        return 0;
    }
    let square = cell_bb(file, shield_rank);
    if popcnt(pawns & square) > 0 {
        PAWN_SHIELD_BONUS
    } else {
        -MISSING_SHIELD_PENALTY
    }
}

/// The pawn-shield score of a side's king.
pub fn pawn_shield_score(p: &Position, color: Color, king: u8) -> (r: i32)
    ensures
        r == spec_pawn_shield(*p, color, king),
{
    let pawns = p.color_bb(color) & p.pawns;
    let king_file = square_file(king) as i32;
    let shield_rank: i32 = match color {
        Color::White => 1,
        Color::Black => 6,
    };
    let mut score: i32 = 0;
    score = score + shield_term_exec(pawns, king_file - 1, shield_rank);
    score = score + shield_term_exec(pawns, king_file, shield_rank);
    score = score + shield_term_exec(pawns, king_file + 1, shield_rank);
    score
}

/// Penalties for a king on a file without own pawns, and without enemy pawns.
pub open spec fn spec_king_file_pressure(p: Position, c: Color, king: u8) -> int {
    let mask = spec_file_mask(file_of(king));
    (if popcount(p.spec_color_bb(c) & p.pawns & mask) == 0 {
        -OPEN_FILE_PENALTY as int
    } else {
        0
    }) + (if popcount(p.spec_color_bb(c.spec_opponent()) & p.pawns & mask) == 0 {
        -SEMI_OPEN_FILE_PENALTY as int
    } else {
        0
    })
}

/// The open-file penalties of a side's king.
pub fn king_file_pressure(p: &Position, color: Color, king: u8) -> (r: i32)
    ensures
        r == spec_king_file_pressure(*p, color, king),
{
    let enemy = color.opponent();
    let friendly_pawns = p.color_bb(color) & p.pawns;
    let enemy_pawns = p.color_bb(enemy) & p.pawns;
    let mask = file_mask(square_file(king));
    let own_pawn = popcnt(friendly_pawns & mask);
    let enemy_pawn = popcnt(enemy_pawns & mask);
    let mut score: i32 = 0;
    if own_pawn == 0 {
        score = score - OPEN_FILE_PENALTY;
    }
    if enemy_pawn == 0 {
        score = score - SEMI_OPEN_FILE_PENALTY;
    }
    score
}

/// The attackers whose reach counts against a king.
#[derive(Clone, Copy, PartialEq, Eq, Structural, Debug)]
pub enum Attacker {
    Pawn(Color),
    Knight,
    Bishop,
    Rook,
    Queen,
}

/// The squares an attacker on `sq` reaches.
pub open spec fn spec_attacker_reach(a: Attacker, sq: u8, occupied: u64) -> u64 {
    match a {
        Attacker::Pawn(c) => spec_pawn_attacks(sq, c),
        Attacker::Knight => spec_knight_attacks(sq),
        Attacker::Bishop => spec_bishop_attacks(sq, occupied),
        Attacker::Rook => spec_rook_attacks(sq, occupied),
        Attacker::Queen => spec_bishop_attacks(sq, occupied) | spec_rook_attacks(sq, occupied),
    }
}

/// Each attacker's reach into `target`, times `weight`.
pub open spec fn reach_term(a: Attacker, occupied: u64, target: u64, weight: int) -> spec_fn(u64) -> int {
    |sq: u64| popcount(spec_attacker_reach(a, sq as u8, occupied) & target) as int * weight
}

/// The summed reach of the attackers in `bb` into `target`, times `weight`.
pub fn reach_pressure(bb: u64, a: Attacker, occupied: u64, target: u64, weight: i32) -> (r: i32)
    requires
        0 <= weight <= 8,
    ensures
        r == sum_squares(bb, reach_term(a, occupied, target, weight as int), 64),
        0 <= r <= 64 * 64 * 8,
{
    let mut pressure: i32 = 0;
    let mut i: u64 = 0;
    while i < 64
        invariant
            i <= 64,
            0 <= weight <= 8,
            pressure == sum_squares(bb, reach_term(a, occupied, target, weight as int), i as int),
            0 <= pressure <= 64 * 8 * i,
        decreases 64 - i,
    {
        if has_bit(bb, i) {
            let sq = i as u8;
            let reach = match a {
                Attacker::Pawn(c) => pawn_attacks(sq, c),
                Attacker::Knight => knight_attacks(sq),
                Attacker::Bishop => bishop_attacks(sq, occupied),
                Attacker::Rook => rook_attacks(sq, occupied),
                Attacker::Queen => bishop_attacks(sq, occupied) | rook_attacks(sq, occupied),
            };
            let c = popcnt(reach & target) as i32;
            assert(0 <= c * weight <= 64 * 8) by (nonlinear_arith)
                requires
                    0 <= c <= 64,
                    0 <= weight <= 8,
            ;
            let t = c * weight;
            assert(0 <= t <= 512);
            assert(pressure <= 512 * i);
            assert(pressure + t <= 512 * i + 512);
            assert(512 * i + 512 == 512 * (i + 1));
            pressure = pressure + t;
        }
        i = i + 1;
    }
    pressure
}

/// Enemy attacks near a king: pawns and knights on the ring around it (8
/// each), sliders on the zone including its square (4 each).
pub open spec fn spec_king_attack_pressure(p: Position, c: Color, king: u8) -> int {
    let enemy = c.spec_opponent();
    let e = p.spec_color_bb(enemy);
    let zone = spec_king_zone(file_of(king), rank_of(king));
    let ring = spec_king_ring(file_of(king), rank_of(king));
    let occ = p.occupied;
    sum_squares(e & p.pawns, reach_term(Attacker::Pawn(enemy), occ, ring, KING_ATTACK_BONUS as int), 64)
        + sum_squares(e & p.knights, reach_term(Attacker::Knight, occ, ring, KING_ATTACK_BONUS as int), 64)
        + sum_squares(e & p.bishops, reach_term(Attacker::Bishop, occ, zone, KING_ZONE_ATTACK_BONUS as int), 64)
        + sum_squares(e & p.rooks, reach_term(Attacker::Rook, occ, zone, KING_ZONE_ATTACK_BONUS as int), 64)
        + sum_squares(e & p.queens, reach_term(Attacker::Queen, occ, zone, KING_ZONE_ATTACK_BONUS as int), 64)
}

/// The enemy attack pressure on a side's king.
pub fn king_attack_pressure(p: &Position, color: Color, king: u8) -> (r: i32)
    ensures
        r == spec_king_attack_pressure(*p, color, king),
        0 <= r <= 5 * 64 * 64 * 8,
{
    let enemy = color.opponent();
    let zone = king_zone(king);
    let ring = king_ring(king);
    let e = p.color_bb(enemy);
    let occupied = p.occupied;
    let mut pressure: i32 = 0;
    pressure = pressure + reach_pressure(e & p.pawns, Attacker::Pawn(enemy), occupied, ring, KING_ATTACK_BONUS);
    pressure = pressure + reach_pressure(e & p.knights, Attacker::Knight, occupied, ring, KING_ATTACK_BONUS);
    pressure = pressure + reach_pressure(e & p.bishops, Attacker::Bishop, occupied, zone, KING_ZONE_ATTACK_BONUS);
    pressure = pressure + reach_pressure(e & p.rooks, Attacker::Rook, occupied, zone, KING_ZONE_ATTACK_BONUS);
    pressure = pressure + reach_pressure(e & p.queens, Attacker::Queen, occupied, zone, KING_ZONE_ATTACK_BONUS);
    pressure
}

/// The penalty for a king off its home rank or on files c to f.
pub open spec fn spec_central_king_penalty(king: u8, c: Color) -> int {
    let home = match c {
        Color::White => 0int,
        Color::Black => 7int,
    };
    if rank_of(king) != home {
        CENTER_KING_PENALTY as int
    } else if 2 <= file_of(king) <= 5 {
        CENTER_KING_PENALTY as int
    } else {
        0
    }
}

/// The centralised-king penalty.
pub fn central_king_penalty(king: u8, color: Color) -> (r: i32)
    ensures
        r == spec_central_king_penalty(king, color),
{
    let file = square_file(king);
    let rank = square_rank(king);
    let home_rank: u8 = match color {
        Color::White => 0,
        Color::Black => 7,
    };
    if rank != home_rank {
        return CENTER_KING_PENALTY;
    }
    if file >= 2 && file <= 5 {
        return CENTER_KING_PENALTY;
    }
    0
}

/// Whether a king stands on a castled square (g or c file of its home rank).
pub open spec fn castled(king: u8, c: Color) -> bool {
    match c {
        Color::White => king == 6 || king == 2,
        Color::Black => king == 62 || king == 58,
    }
}

/// The middlegame king-safety score of a side.
pub open spec fn spec_king_safety_mg(p: Position, c: Color) -> int {
    let king = p.spec_king_square(c);
    spec_pawn_shield(p, c, king) + spec_king_file_pressure(p, c, king) - spec_king_attack_pressure(p, c, king)
        + (if castled(king, c) { CASTLED_KING_BONUS as int } else { 0 }) - spec_central_king_penalty(king, c)
}

/// A side's king safety: the middlegame score and a quarter of it (rounded
/// toward zero) for the endgame.
pub fn king_safety_for(p: &Position, color: Color) -> (r: (i32, i32))
    ensures
        r.0 == spec_king_safety_mg(*p, color),
        r.1 == r.0 / 4 || (r.0 < 0 && r.1 == -((-r.0) / 4)),
        r.1 as int == crate::search::heuristics::trunc_div(r.0 as int, 4),
        -200000 <= r.0 <= 200,
{
    let king = p.king_square(color);
    let mut mg: i32 = 0;
    mg = mg + pawn_shield_score(p, color, king);
    mg = mg + king_file_pressure(p, color, king);
    mg = mg - king_attack_pressure(p, color, king);
    let is_castled = match color {
        Color::White => king == 6 || king == 2,
        Color::Black => king == 62 || king == 58,
    };
    if is_castled {
        mg = mg + CASTLED_KING_BONUS;
    }
    mg = mg - central_king_penalty(king, color);
    (mg, mg / 4)
}

/// White's king safety minus Black's, for the middlegame and the endgame.
pub fn king_safety_score(p: &Position) -> (r: (i32, i32))
    ensures
        r.0 == spec_king_safety_mg(*p, Color::White) - spec_king_safety_mg(*p, Color::Black),
        r.1 == crate::search::heuristics::trunc_div(spec_king_safety_mg(*p, Color::White), 4)
            - crate::search::heuristics::trunc_div(spec_king_safety_mg(*p, Color::Black), 4),
        -400000 <= r.0 <= 400000,
        -100000 <= r.1 <= 100000,
{
    let (white_mg, white_eg) = king_safety_for(p, Color::White);
    let (black_mg, black_eg) = king_safety_for(p, Color::Black);
    (white_mg - black_mg, white_eg - black_eg)
}

} // verus!
