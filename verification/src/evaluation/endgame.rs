//! Endgame terms: king centralisation, pawn advancement and passed pawns.
use vstd::prelude::*;
use crate::bits::{bit, has_bit, sum_squares};
use crate::board::{consistent, file_of, rank_of, square_file, square_rank, Color, PieceKind, Position};
use crate::evaluation::material::lemma_occupied_colored;

verus! {

pub const KING_TROPISM_WEIGHT: i32 = 5;
pub const ROOK_BEHIND_PASSED_PAWN_BONUS: i32 = 15;

/// The bonus of a passed pawn by how far it has advanced (0..8 ranks).
pub open spec fn passed_pawn_bonus(progress: int) -> int {
    if progress == 1 {
        10
    } else if progress == 2 {
        20
    } else if progress == 3 {
        35
    } else if progress == 4 {
        60
    } else if progress == 5 {
        100
    } else if progress == 6 {
        160
    } else {
        0
    }
}

fn passed_pawn_bonus_exec(progress: u8) -> (r: i32)
    requires
        progress < 8,
    ensures
        r == passed_pawn_bonus(progress as int),
{
    let table: [i32; 8] = [0, 10, 20, 35, 60, 100, 160, 0];
    table[progress as usize]
}

pub open spec fn abs(x: int) -> int {
    if x < 0 {
        -x
    } else {
        x
    }
}

/// The king distance between two squares: the larger of the file and rank
/// differences.
pub open spec fn spec_distance(a: u8, b: u8) -> int {
    let df = abs(file_of(a) - file_of(b));
    let dr = abs(rank_of(a) - rank_of(b));
    if df >= dr {
        df
    } else {
        dr
    }
}

/// The king distance between two squares.
pub fn distance(sq1: u8, sq2: u8) -> (r: i32)
    ensures
        r == spec_distance(sq1, sq2),
        0 <= r <= 7,
{
    let f1 = square_file(sq1) as i32;
    let r1 = square_rank(sq1) as i32;
    let f2 = square_file(sq2) as i32;
    let r2 = square_rank(sq2) as i32;
    let df = if f1 - f2 < 0 { f2 - f1 } else { f1 - f2 };
    let dr = if r1 - r2 < 0 { r2 - r1 } else { r1 - r2 };
    if df >= dr { df } else { dr }
}

pub open spec fn min2(a: int, b: int) -> int {
    if a <= b {
        a
    } else {
        b
    }
}

/// The king's distance to the nearest of d4, e4, d5, e5.
pub open spec fn center_distance(k: u8) -> int {
    min2(min2(min2(spec_distance(k, 27), spec_distance(k, 28)), spec_distance(k, 35)), spec_distance(k, 36))
}

fn center_distance_exec(k: u8) -> (r: i32)
    ensures
        r == center_distance(k),
        0 <= r <= 7,
{
    let mut best = distance(k, 27);
    let d = distance(k, 28);
    if d < best {
        best = d;
    }
    let d = distance(k, 35);
    if d < best {
        best = d;
    }
    let d = distance(k, 36);
    if d < best {
        best = d;
    }
    best
}

/// Whether no enemy pawn stands ahead of the pawn on `sq`, on its file or
/// the files next to it.
pub open spec fn spec_is_passed(p: Position, sq: u8, c: Color) -> bool {
    let enemy_pawns = p.spec_color_bb(c.spec_opponent()) & p.pawns;
    forall|e: u64| e < 64 && bit(enemy_pawns, e) ==> !blocks(e as u8, sq, c)
}

/// Whether an enemy pawn on `e` stops a pawn of colour `c` on `sq` from being passed.
pub open spec fn blocks(e: u8, sq: u8, c: Color) -> bool {
    &&& abs(file_of(e) - file_of(sq)) <= 1
    &&& match c {
        Color::White => rank_of(e) > rank_of(sq),
        Color::Black => rank_of(e) < rank_of(sq),
    }
}

/// Whether the pawn on `sq` is passed.
pub fn is_passed_pawn(p: &Position, sq: u8, color: Color) -> (r: bool)
    ensures
        r == spec_is_passed(*p, sq, color),
{
    let enemy_pawns = p.color_bb(color.opponent()) & p.pawns;
    let file = square_file(sq) as i32;
    let rank = square_rank(sq) as i32;
    let mut i: u64 = 0;
    while i < 64
        invariant
            i <= 64,
            enemy_pawns == p.spec_color_bb(color.spec_opponent()) & p.pawns,
            file == file_of(sq),
            rank == rank_of(sq),
            forall|e: u64| e < i && bit(enemy_pawns, e) ==> !blocks(e as u8, sq, color),
        decreases 64 - i,
    {
        if has_bit(enemy_pawns, i) {
            let ef = square_file(i as u8) as i32;
            let er = square_rank(i as u8) as i32;
            let d = if ef - file < 0 { file - ef } else { ef - file };
            if d <= 1 {
                let b = match color {
                    Color::White => er > rank,
                    Color::Black => er < rank,
                };
                if b {
                    return false;
                }
            }
        }
        i = i + 1;
    }
    true
}

/// The rook bonus for one own rook behind a passed pawn on `sq`.
pub open spec fn rook_behind_term(sq: u8, c: Color) -> spec_fn(u64) -> int {
    |r: u64|
        if file_of(r as u8) != file_of(sq) {
            0
        } else if (match c {
            Color::White => rank_of(r as u8) < rank_of(sq),
            Color::Black => rank_of(r as u8) > rank_of(sq),
        }) {
            ROOK_BEHIND_PASSED_PAWN_BONUS as int
        } else {
            0
        }
}

/// How far a pawn on `sq` has advanced for its colour.
pub open spec fn progress(sq: u8, c: Color) -> int {
    match c {
        Color::White => rank_of(sq),
        Color::Black => 7 - rank_of(sq),
    }
}

/// The square a pawn on `sq` promotes on.
pub open spec fn promotion_square(sq: u8, c: Color) -> u8 {
    (match c {
        Color::White => 56 + file_of(sq),
        Color::Black => file_of(sq),
    }) as u8
}

/// The passed-pawn score of one pawn: its advancement bonus, the enemy
/// king's distance to its promotion square minus the own king's (times 5),
/// and 15 for each own rook behind it on its file.
pub open spec fn passed_term(p: Position, c: Color, own_king: u8, enemy_king: u8) -> spec_fn(u64) -> int {
    |sq: u64|
        if !spec_is_passed(p, sq as u8, c) {
            0
        } else {
            passed_pawn_bonus(progress(sq as u8, c)) + (spec_distance(enemy_king, promotion_square(sq as u8, c))
                - spec_distance(own_king, promotion_square(sq as u8, c))) * KING_TROPISM_WEIGHT
                + sum_squares(p.spec_color_bb(c) & p.rooks, rook_behind_term(sq as u8, c), 64)
        }
}

/// The passed-pawn score of a side.
pub open spec fn spec_passed_pawn_score(p: Position, c: Color, own_king: u8, enemy_king: u8) -> int {
    sum_squares(p.spec_color_bb(c) & p.pawns, passed_term(p, c, own_king, enemy_king), 64)
}

fn rook_behind_bonus(rooks: u64, sq: u8, color: Color) -> (r: i32)
    requires
        sq < 64,
    ensures
        r == sum_squares(rooks, rook_behind_term(sq, color), 64),
        0 <= r <= 64 * 15,
{
    let file = square_file(sq);
    let rank = square_rank(sq);
    let mut score: i32 = 0;
    let mut i: u64 = 0;
    while i < 64
        invariant
            i <= 64,
            file == file_of(sq),
            rank == rank_of(sq),
            score == sum_squares(rooks, rook_behind_term(sq, color), i as int),
            0 <= score <= 15 * i,
        decreases 64 - i,
    {
        if has_bit(rooks, i) {
            if square_file(i as u8) == file {
                let behind = match color {
                    Color::White => square_rank(i as u8) < rank,
                    Color::Black => square_rank(i as u8) > rank,
                };
                if behind {
                    score = score + ROOK_BEHIND_PASSED_PAWN_BONUS;
                }
            }
        }
        i = i + 1;
    }
    score
}

/// The passed-pawn score of a side, given both kings' squares.
pub fn passed_pawn_score(p: &Position, color: Color, own_king: u8, enemy_king: u8) -> (r: i32)
    ensures
        r == spec_passed_pawn_score(*p, color, own_king, enemy_king),
        -64 * 35 <= r <= 64 * (160 + 35 + 64 * 15),
{
    let own_pawns = p.color_bb(color) & p.pawns;
    let rooks = p.color_bb(color) & p.rooks;
    let mut score: i32 = 0;
    let mut i: u64 = 0;
    while i < 64
        invariant
            i <= 64,
            own_pawns == p.spec_color_bb(color) & p.pawns,
            rooks == p.spec_color_bb(color) & p.rooks,
            score == sum_squares(own_pawns, passed_term(*p, color, own_king, enemy_king), i as int),
            -35 * i <= score <= 1155 * i,
        decreases 64 - i,
    {
        if has_bit(own_pawns, i) {
            let sq = i as u8;
            if is_passed_pawn(p, sq, color) {
                let rank_idx = square_rank(sq);
                let prog: u8 = match color {
                    Color::White => rank_idx,
                    Color::Black => 7 - rank_idx,
                };
                let promo_rank: u8 = match color {
                    Color::White => 7,
                    Color::Black => 0,
                };
                let promo_sq: u8 = promo_rank * 8 + square_file(sq);
                let own_dist = distance(own_king, promo_sq);
                let enemy_dist = distance(enemy_king, promo_sq);
                let t = passed_pawn_bonus_exec(prog) + (enemy_dist - own_dist) * KING_TROPISM_WEIGHT
                    + rook_behind_bonus(rooks, sq, color);
                assert(-35 <= t <= 1155);
                assert(-35 * i - 35 == -35 * (i + 1));
                assert(1155 * i + 1155 == 1155 * (i + 1));
                score = score + t;
            }
        }
        i = i + 1;
    }
    score
}

/// Pawn advancement, White's pawns by their rank, Black's by theirs from the
/// other side (10 per rank).
pub open spec fn advancement_term(p: Position) -> spec_fn(u64) -> int {
    |sq: u64|
        if p.spec_piece_on(sq) == Some(PieceKind::Pawn) {
            if p.spec_color_on(sq) == Some(Color::White) {
                rank_of(sq as u8) * 10
            } else {
                -(7 - rank_of(sq as u8)) * 10
            }
        } else {
            0
        }
}

/// The endgame score: king centralisation (15 per step closer to the centre
/// than 4), pawn advancement, and passed pawns, White minus Black.
pub open spec fn spec_endgame(p: Position) -> int {
    let wk = p.white_king;
    let bk = p.black_king;
    (4 - center_distance(wk)) * 15 - (4 - center_distance(bk)) * 15 + sum_squares(p.occupied, advancement_term(p), 64)
        + spec_passed_pawn_score(p, Color::White, wk, bk) - spec_passed_pawn_score(p, Color::Black, bk, wk)
}

/// The endgame score: `(0, score)`, counting in the endgame only.
pub fn endgame_score(p: &Position) -> (r: (i32, i32))
    requires
        consistent(*p),
    ensures
        r.0 == 0,
        r.1 == spec_endgame(*p),
        -200000 <= r.1 <= 200000,
{
    let white_king = p.king_square(Color::White);
    let black_king = p.king_square(Color::Black);
    let mut score: i32 = 0;
    let white_king_distance = center_distance_exec(white_king);
    let black_king_distance = center_distance_exec(black_king);
    score = score + (4 - white_king_distance) * 15;
    score = score - (4 - black_king_distance) * 15;
    let ghost base = score as int;
    let mut adv: i32 = 0;
    let mut i: u64 = 0;
    while i < 64
        invariant
            i <= 64,
            consistent(*p),
            adv == sum_squares(p.occupied, advancement_term(*p), i as int),
            -70 * i <= adv <= 70 * i,
        decreases 64 - i,
    {
        if has_bit(p.occupied, i) {
            if let Some(PieceKind::Pawn) = p.piece_on(i) {
                proof {
                    lemma_occupied_colored(*p, i);
                }
                let color = p.color_on(i).unwrap();
                let rank_idx = square_rank(i as u8) as i32;
                match color {
                    Color::White => {
                        adv = adv + rank_idx * 10;
                    },
                    Color::Black => {
                        adv = adv - (7 - rank_idx) * 10;
                    },
                }
            }
        }
        i = i + 1;
    }
    score = score + adv;
    score = score + passed_pawn_score(p, Color::White, white_king, black_king);
    score = score - passed_pawn_score(p, Color::Black, black_king, white_king);
    (0, score)
}

} // verus!
