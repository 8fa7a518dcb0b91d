//! Pawn structure (isolated and doubled pawns) and rooks on open files.
use vstd::prelude::*;
use crate::bits::{bit, has_bit, popcnt, popcount, sum_squares};
use crate::board::{file_of, square_file, Color, Position};
use crate::evaluation::king_safety::{file_mask, spec_file_mask};

verus! {

pub const ISOLATED_PAWN_MG: i32 = 12;
pub const ISOLATED_PAWN_EG: i32 = 18;
pub const DOUBLED_PAWN_MG: i32 = 10;
pub const DOUBLED_PAWN_EG: i32 = 20;
pub const ROOK_OPEN_FILE_MG: i32 = 20;
pub const ROOK_OPEN_FILE_EG: i32 = 10;
pub const ROOK_SEMI_OPEN_FILE_MG: i32 = 10;
pub const ROOK_SEMI_OPEN_FILE_EG: i32 = 5;

/// 1 for a square on file `f`.
pub open spec fn on_file(f: int) -> spec_fn(u64) -> int {
    |sq: u64| if file_of(sq as u8) == f { 1int } else { 0int }
}

/// The number of pawns of `pawns` on file `f`.
pub open spec fn file_count(pawns: u64, f: int) -> int {
    sum_squares(pawns, on_file(f), 64)
}

/// Whether a pawn on file `f` has no pawn of its side on a neighbouring file.
pub open spec fn isolated(pawns: u64, f: int) -> bool {
    !(f > 0 && file_count(pawns, f - 1) > 0) && !(f < 7 && file_count(pawns, f + 1) > 0)
}

/// The isolation penalty of one pawn.
pub open spec fn isolated_term(pawns: u64, weight: int) -> spec_fn(u64) -> int {
    |sq: u64| if isolated(pawns, file_of(sq as u8)) { -weight } else { 0 }
}

/// The doubled-pawn penalty of files `0..n`: `weight` per pawn beyond the first on a file.
pub open spec fn doubled_penalty(pawns: u64, weight: int, n: int) -> int
    decreases n,
{
    if n <= 0 {
        0
    } else {
        doubled_penalty(pawns, weight, n - 1) + if file_count(pawns, n - 1) > 1 {
            -weight * (file_count(pawns, n - 1) - 1)
        } else {
            0
        }
    }
}

/// The pawn-weakness score of a side's pawns, for a weight pair.
pub open spec fn spec_pawn_weakness(pawns: u64, iso: int, dbl: int) -> int {
    sum_squares(pawns, isolated_term(pawns, iso), 64) + doubled_penalty(pawns, dbl, 8)
}

proof fn lemma_sum_nonneg_on_file(b: u64, f: int, n: int)
    requires
        0 <= n <= 64,
    ensures
        0 <= sum_squares(b, on_file(f), n) <= n,
    decreases n,
{
    if n > 0 {
        lemma_sum_nonneg_on_file(b, f, n - 1);
    }
}

/// The isolated and doubled pawn penalties of a side: `(middlegame, endgame)`.
pub fn pawn_weaknesses_for(p: &Position, color: Color) -> (r: (i32, i32))
    ensures
        r.0 == spec_pawn_weakness(p.spec_color_bb(color) & p.pawns, ISOLATED_PAWN_MG as int, DOUBLED_PAWN_MG as int),
        r.1 == spec_pawn_weakness(p.spec_color_bb(color) & p.pawns, ISOLATED_PAWN_EG as int, DOUBLED_PAWN_EG as int),
        -6000 <= r.0 <= 0,
        -12000 <= r.1 <= 0,
{
    let pawns = p.color_bb(color) & p.pawns;
    let mut file_counts: Vec<u32> = vec![0, 0, 0, 0, 0, 0, 0, 0];
    let mut i: u64 = 0;
    while i < 64
        invariant
            i <= 64,
            file_counts@.len() == 8,
            forall|f: int| 0 <= f < 8 ==> #[trigger] file_counts@[f] == sum_squares(pawns, on_file(f), i as int),
        decreases 64 - i,
    {
        proof {
            assert forall|f: int| 0 <= f < 8 implies 0 <= #[trigger] sum_squares(pawns, on_file(f), i as int) <= i by {
                lemma_sum_nonneg_on_file(pawns, f, i as int);
            }
        }
        if has_bit(pawns, i) {
            let fi = square_file(i as u8) as usize;
            let c = file_counts[fi];
            file_counts.set(fi, c + 1);
        }
        i = i + 1;
    }
    proof {
        assert forall|f: int| 0 <= f < 8 implies 0 <= #[trigger] file_count(pawns, f) <= 64 by {
            lemma_sum_nonneg_on_file(pawns, f, 64);
        }
    }
    let mut mg: i32 = 0;
    let mut eg: i32 = 0;
    let mut j: u64 = 0;
    while j < 64
        invariant
            j <= 64,
            file_counts@.len() == 8,
            forall|f: int| 0 <= f < 8 ==> #[trigger] file_counts@[f] == file_count(pawns, f),
            mg == sum_squares(pawns, isolated_term(pawns, ISOLATED_PAWN_MG as int), j as int),
            eg == sum_squares(pawns, isolated_term(pawns, ISOLATED_PAWN_EG as int), j as int),
            -18 * j <= eg <= 0,
            -12 * j <= mg <= 0,
        decreases 64 - j,
    {
        if has_bit(pawns, j) {
            let file_idx = square_file(j as u8) as usize;
            let has_left = file_idx > 0 && file_counts[file_idx - 1] > 0;
            let has_right = file_idx < 7 && file_counts[file_idx + 1] > 0;
            if !has_left && !has_right {
                mg = mg - ISOLATED_PAWN_MG;
                eg = eg - ISOLATED_PAWN_EG;
            }
        }
        j = j + 1;
    }
    let ghost mg_iso = mg as int;
    let ghost eg_iso = eg as int;
    let mut k: usize = 0;
    while k < 8
        invariant
            k <= 8,
            file_counts@.len() == 8,
            forall|f: int| 0 <= f < 8 ==> #[trigger] file_counts@[f] == file_count(pawns, f),
            forall|f: int| 0 <= f < 8 ==> 0 <= #[trigger] file_count(pawns, f) <= 64,
            mg == mg_iso + doubled_penalty(pawns, DOUBLED_PAWN_MG as int, k as int),
            eg == eg_iso + doubled_penalty(pawns, DOUBLED_PAWN_EG as int, k as int),
            -768 <= mg_iso <= 0,
            -1152 <= eg_iso <= 0,
            -640 * k <= doubled_penalty(pawns, DOUBLED_PAWN_MG as int, k as int) <= 0,
            -1280 * k <= doubled_penalty(pawns, DOUBLED_PAWN_EG as int, k as int) <= 0,
        decreases 8 - k,
    {
        let count = file_counts[k];
        if count > 1 {
            let extra = count as i32 - 1;
            assert(0 <= extra <= 63);
            mg = mg - DOUBLED_PAWN_MG * extra;
            eg = eg - DOUBLED_PAWN_EG * extra;
        }
        k = k + 1;
    }
    (mg, eg)
}

/// The open-file bonus of one rook: open file, or half-open for its side.
pub open spec fn rook_term(own_pawns: u64, enemy_pawns: u64, open_bonus: int, semi_bonus: int) -> spec_fn(u64) -> int {
    |sq: u64|
        {
            let mask = spec_file_mask(file_of(sq as u8));
            if popcount(own_pawns & mask) == 0 && popcount(enemy_pawns & mask) == 0 {
                open_bonus
            } else if popcount(own_pawns & mask) == 0 {
                semi_bonus
            } else {
                0
            }
        }
}

/// The rook-activity score of a side for a weight pair.
pub open spec fn spec_rook_activity(p: Position, c: Color, open_bonus: int, semi_bonus: int) -> int {
    sum_squares(
        p.spec_color_bb(c) & p.rooks,
        rook_term(p.spec_color_bb(c) & p.pawns, p.spec_color_bb(c.spec_opponent()) & p.pawns, open_bonus, semi_bonus),
        64,
    )
}

/// Bonuses for a side's rooks on open and half-open files: `(middlegame, endgame)`.
pub fn rook_activity_for(p: &Position, color: Color) -> (r: (i32, i32))
    ensures
        r.0 == spec_rook_activity(*p, color, ROOK_OPEN_FILE_MG as int, ROOK_SEMI_OPEN_FILE_MG as int),
        r.1 == spec_rook_activity(*p, color, ROOK_OPEN_FILE_EG as int, ROOK_SEMI_OPEN_FILE_EG as int),
        0 <= r.0 <= 64 * 20,
        0 <= r.1 <= 64 * 10,
{
    let own_pawns = p.color_bb(color) & p.pawns;
    let enemy_pawns = p.color_bb(color.opponent()) & p.pawns;
    let rooks = p.color_bb(color) & p.rooks;
    let mut mg: i32 = 0;
    let mut eg: i32 = 0;
    let mut i: u64 = 0;
    while i < 64
        invariant
            i <= 64,
            own_pawns == p.spec_color_bb(color) & p.pawns,
            enemy_pawns == p.spec_color_bb(color.spec_opponent()) & p.pawns,
            rooks == p.spec_color_bb(color) & p.rooks,
            mg == sum_squares(rooks, rook_term(own_pawns, enemy_pawns, ROOK_OPEN_FILE_MG as int, ROOK_SEMI_OPEN_FILE_MG as int), i as int),
            eg == sum_squares(rooks, rook_term(own_pawns, enemy_pawns, ROOK_OPEN_FILE_EG as int, ROOK_SEMI_OPEN_FILE_EG as int), i as int),
            0 <= mg <= 20 * i,
            0 <= eg <= 10 * i,
        decreases 64 - i,
    {
        if has_bit(rooks, i) {
            let mask = file_mask(square_file(i as u8));
            let own_on_file = popcnt(own_pawns & mask);
            let enemy_on_file = popcnt(enemy_pawns & mask);
            if own_on_file == 0 && enemy_on_file == 0 {
                mg = mg + ROOK_OPEN_FILE_MG;
                eg = eg + ROOK_OPEN_FILE_EG;
            } else if own_on_file == 0 {
                mg = mg + ROOK_SEMI_OPEN_FILE_MG;
                eg = eg + ROOK_SEMI_OPEN_FILE_EG;
            }
        }
        i = i + 1;
    }
    (mg, eg)
}

/// Pawn structure and rook activity, White minus Black: `(middlegame, endgame)`.
pub fn structure_score(p: &Position) -> (r: (i32, i32))
    ensures
        r.0 == (spec_pawn_weakness(p.white & p.pawns, ISOLATED_PAWN_MG as int, DOUBLED_PAWN_MG as int)
            - spec_pawn_weakness(p.black & p.pawns, ISOLATED_PAWN_MG as int, DOUBLED_PAWN_MG as int))
            + (spec_rook_activity(*p, Color::White, ROOK_OPEN_FILE_MG as int, ROOK_SEMI_OPEN_FILE_MG as int)
            - spec_rook_activity(*p, Color::Black, ROOK_OPEN_FILE_MG as int, ROOK_SEMI_OPEN_FILE_MG as int)),
        r.1 == (spec_pawn_weakness(p.white & p.pawns, ISOLATED_PAWN_EG as int, DOUBLED_PAWN_EG as int)
            - spec_pawn_weakness(p.black & p.pawns, ISOLATED_PAWN_EG as int, DOUBLED_PAWN_EG as int))
            + (spec_rook_activity(*p, Color::White, ROOK_OPEN_FILE_EG as int, ROOK_SEMI_OPEN_FILE_EG as int)
            - spec_rook_activity(*p, Color::Black, ROOK_OPEN_FILE_EG as int, ROOK_SEMI_OPEN_FILE_EG as int)),
{
    let (white_pawn_mg, white_pawn_eg) = pawn_weaknesses_for(p, Color::White);
    let (black_pawn_mg, black_pawn_eg) = pawn_weaknesses_for(p, Color::Black);
    let (white_rook_mg, white_rook_eg) = rook_activity_for(p, Color::White);
    let (black_rook_mg, black_rook_eg) = rook_activity_for(p, Color::Black);
    let mg = (white_pawn_mg - black_pawn_mg) + (white_rook_mg - black_rook_mg);
    let eg = (white_pawn_eg - black_pawn_eg) + (white_rook_eg - black_rook_eg);
    (mg, eg)
}

} // verus!
