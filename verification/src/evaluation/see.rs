//! Static exchange evaluation: the material balance of the sequence of
//! captures on one square, each side capturing with its least valuable
//! attacker and free to stop.
use vstd::prelude::*;
use crate::bits::{bit, bits_below, first_square, lemma_bit_ops, lemma_single_bit, lowest_square, popcnt, popcount};
use crate::board::{
    bishop_attacks, consistent, king_attacks, knight_attacks, rook_attacks, spec_bishop_attacks,
    spec_king_attacks, spec_knight_attacks, spec_rook_attacks, Color, PieceKind, Position,
};
use crate::evaluation::king_safety::{pawn_attacks, spec_pawn_attacks};
use crate::evaluation::material::{lemma_occupied_colored, piece_value, spec_piece_value};

verus! {

/// The squares from which a pawn of colour `c` attacks `sq`... as seen from
/// `sq`: where a pawn of colour `c` on `sq` would capture.
pub fn pawn_attacks_from(square: u8, color: Color) -> (b: u64)
    ensures
        b == spec_pawn_attacks(square, color),
{
    pawn_attacks(square, color)
}

/// The first square of `b`, if any.
pub open spec fn first_of(b: u64) -> Option<u8> {
    if lowest_square(b) < 64 {
        Some(lowest_square(b) as u8)
    } else {
        None
    }
}

/// The least valuable attacker of `target` among the pieces of `color` still
/// in `occupied`: pawns, then knights, then bishops (or a queen on a
/// diagonal), rooks (or a queen on a line), then the king; the lowest square
/// among equals.
pub open spec fn spec_least_valuable_attacker(p: Position, target: u8, color: Color, occupied: u64) -> Option<(PieceKind, u8)> {
    let cm = p.spec_color_bb(color) & occupied;
    let pawns = p.pawns & cm;
    let pawn_att = pawns & spec_pawn_attacks(target, color.spec_opponent());
    let knights = p.knights & cm;
    let knight_att = knights & spec_knight_attacks(target);
    let bq = (p.bishops | p.queens) & cm;
    let bq_att = bq & spec_bishop_attacks(target, occupied);
    let rq = (p.rooks | p.queens) & cm;
    let rq_att = rq & spec_rook_attacks(target, occupied);
    let kings = p.kings & cm;
    let king_att = kings & spec_king_attacks(target);
    if popcount(pawns) > 0 && first_of(pawn_att).is_some() {
        Some((PieceKind::Pawn, first_of(pawn_att).unwrap()))
    } else if popcount(knights) > 0 && first_of(knight_att).is_some() {
        Some((PieceKind::Knight, first_of(knight_att).unwrap()))
    } else if popcount(bq) > 0 && popcount(bq_att) > 0 && first_of(bq_att & p.bishops).is_some() {
        Some((PieceKind::Bishop, first_of(bq_att & p.bishops).unwrap()))
    } else if popcount(bq) > 0 && popcount(bq_att) > 0 && first_of(bq_att).is_some() {
        Some((PieceKind::Queen, first_of(bq_att).unwrap()))
    } else if popcount(rq) > 0 && popcount(rq_att) > 0 && first_of(rq_att & p.rooks).is_some() {
        Some((PieceKind::Rook, first_of(rq_att & p.rooks).unwrap()))
    } else if popcount(rq) > 0 && popcount(rq_att) > 0 && first_of(rq_att).is_some() {
        Some((PieceKind::Queen, first_of(rq_att).unwrap()))
    } else if popcount(kings) > 0 && first_of(king_att).is_some() {
        Some((PieceKind::King, first_of(king_att).unwrap()))
    } else {
        None
    }
}

/// Finds the least valuable attacker of a square.
pub fn get_least_valuable_attacker(p: &Position, target: u8, color: Color, occupied: u64) -> (r: Option<(PieceKind, u8)>)
    requires
        target < 64,
    ensures
        r == spec_least_valuable_attacker(*p, target, color, occupied),
        r matches Some((pc, sq)) ==> sq < 64 && bit(p.spec_color_bb(color) & occupied, sq as u64),
{
    let color_mask = p.color_bb(color) & occupied;
    let ghost cm = color_mask;
    let pawns = p.pawns & color_mask;
    if popcnt(pawns) > 0 {
        let attackers = pawns & pawn_attacks_from(target, color.opponent());
        if let Some(sq) = first_square(attackers) {
            proof { lemma_bit_ops(p.pawns, cm, sq as u64); lemma_bit_ops(pawns, spec_pawn_attacks(target, color.spec_opponent()), sq as u64); }
            return Some((PieceKind::Pawn, sq));
        }
    }
    let knights = p.knights & color_mask;
    if popcnt(knights) > 0 {
        let attackers = knights & knight_attacks(target);
        if let Some(sq) = first_square(attackers) {
            proof { lemma_bit_ops(p.knights, cm, sq as u64); lemma_bit_ops(knights, spec_knight_attacks(target), sq as u64); }
            return Some((PieceKind::Knight, sq));
        }
    }
    let b_q = (p.bishops | p.queens) & color_mask;
    if popcnt(b_q) > 0 {
        let attackers = b_q & bishop_attacks(target, occupied);
        if popcnt(attackers) > 0 {
            let bishops = attackers & p.bishops;
            if let Some(sq) = first_square(bishops) {
                proof {
                    lemma_bit_ops(attackers, p.bishops, sq as u64);
                    lemma_bit_ops(b_q, spec_bishop_attacks(target, occupied), sq as u64);
                    lemma_bit_ops(p.bishops | p.queens, cm, sq as u64);
                }
                return Some((PieceKind::Bishop, sq));
            } else if let Some(sq) = first_square(attackers) {
                proof {
                    lemma_bit_ops(b_q, spec_bishop_attacks(target, occupied), sq as u64);
                    lemma_bit_ops(p.bishops | p.queens, cm, sq as u64);
                }
                return Some((PieceKind::Queen, sq));
            }
        }
    }
    let r_q = (p.rooks | p.queens) & color_mask;
    if popcnt(r_q) > 0 {
        let attackers = r_q & rook_attacks(target, occupied);
        if popcnt(attackers) > 0 {
            let rooks = attackers & p.rooks;
            if let Some(sq) = first_square(rooks) {
                proof {
                    lemma_bit_ops(attackers, p.rooks, sq as u64);
                    lemma_bit_ops(r_q, spec_rook_attacks(target, occupied), sq as u64);
                    lemma_bit_ops(p.rooks | p.queens, cm, sq as u64);
                }
                return Some((PieceKind::Rook, sq));
            } else if let Some(sq) = first_square(attackers) {
                proof {
                    lemma_bit_ops(r_q, spec_rook_attacks(target, occupied), sq as u64);
                    lemma_bit_ops(p.rooks | p.queens, cm, sq as u64);
                }
                return Some((PieceKind::Queen, sq));
            }
        }
    }
    let kings = p.kings & color_mask;
    if popcnt(kings) > 0 {
        let attackers = kings & king_attacks(target);
        if let Some(sq) = first_square(attackers) {
            proof { lemma_bit_ops(p.kings, cm, sq as u64); lemma_bit_ops(kings, spec_king_attacks(target), sq as u64); }
            return Some((PieceKind::King, sq));
        }
    }
    None
}

/// The gains of the exchange from a state: `g` is the material won so far by
/// the side that captured last (with `cur`, of colour `last`); the next
/// capture by the other side gains the value of `cur` minus `g`.
pub open spec fn gains_from(p: Position, target: u8, occupied: u64, last: Color, cur: PieceKind, g: int, fuel: nat) -> Seq<int>
    decreases fuel,
{
    if fuel == 0 {
        seq![g]
    } else {
        match spec_least_valuable_attacker(p, target, last.spec_opponent(), occupied) {
            None => seq![g],
            Some((pc, sq)) => seq![g] + gains_from(
                p,
                target,
                occupied ^ (1u64 << (sq as u64)),
                last.spec_opponent(),
                pc,
                spec_piece_value(cur) - g,
                (fuel - 1) as nat,
            ),
        }
    }
}

/// Folds the gains from the back: each side stops when continuing loses.
pub open spec fn fold_back(g: Seq<int>, k: int) -> int
    decreases g.len() - k,
{
    if k >= g.len() - 1 {
        g[k]
    } else {
        let rest = fold_back(g, k + 1);
        if g[k] >= -rest {
            g[k]
        } else {
            -rest
        }
    }
}

/// The gains of the exchange that starts with `attacker_piece` on
/// `attacker_sq` capturing `target_piece` on `target`.
pub open spec fn see_gains(p: Position, target: u8, target_piece: PieceKind, attacker_sq: u8, attacker_piece: PieceKind) -> Seq<int> {
    gains_from(
        p,
        target,
        p.occupied ^ (1u64 << (attacker_sq as u64)),
        p.spec_color_on(attacker_sq as u64).unwrap(),
        attacker_piece,
        spec_piece_value(target_piece),
        64,
    )
}

/// The exchange value: the balance the capturing side can secure.
pub open spec fn spec_see(p: Position, target: u8, target_piece: PieceKind, attacker_sq: u8, attacker_piece: PieceKind) -> int {
    fold_back(see_gains(p, target, target_piece, attacker_sq, attacker_piece), 0)
}

/// Clearing a set bit removes one from the count.
proof fn lemma_bits_below_clear(b: u64, s: u64, n: int)
    requires
        s < 64,
        bit(b, s),
        0 <= n <= 64,
    ensures
        bits_below(b ^ (1u64 << s), n) + (if s < n { 1int } else { 0int }) == bits_below(b, n),
    decreases n,
{
    if n > 0 {
        lemma_bits_below_clear(b, s, n - 1);
        lemma_bit_ops(b, 1u64 << s, (n - 1) as u64);
        lemma_single_bit(s, (n - 1) as u64);
    }
}

proof fn lemma_gains_len(p: Position, target: u8, occupied: u64, last: Color, cur: PieceKind, g: int, fuel: nat)
    ensures
        gains_from(p, target, occupied, last, cur, g, fuel).len() >= 1,
        gains_from(p, target, occupied, last, cur, g, fuel)[0] == g,
    decreases fuel,
{
}

/// The static exchange evaluation of a capture on `target`.
pub fn see(p: &Position, target: u8, target_piece: PieceKind, attacker_sq: u8, attacker_piece: PieceKind) -> (r: i32)
    requires
        consistent(*p),
        target < 64,
        attacker_sq < 64,
        bit(p.occupied, attacker_sq as u64),
    ensures
        r == spec_see(*p, target, target_piece, attacker_sq, attacker_piece),
{
    let ghost full = see_gains(*p, target, target_piece, attacker_sq, attacker_piece);
    let mut gain: Vec<i32> = Vec::new();
    while gain.len() < 64
        invariant
            gain@.len() <= 64,
            forall|k: int| 0 <= k < gain@.len() ==> #[trigger] gain@[k] == 0,
        decreases 64 - gain@.len(),
    {
        gain.push(0);
    }
    let mut d: usize = 0;
    let mut occupied = p.occupied;
    proof {
        lemma_occupied_colored(*p, attacker_sq as u64);
    }
    let mut color = p.color_on(attacker_sq as u64).unwrap();
    gain.set(0, piece_value(target_piece));
    let mut current_attacker_piece = attacker_piece;
    proof {
        lemma_bits_below_clear(occupied, attacker_sq as u64, 64);
        crate::bits::lemma_popcount_bound(occupied);
    }
    occupied = occupied ^ (1u64 << (attacker_sq as u64));
    proof {
        assert(full == gains_from(*p, target, occupied, color, current_attacker_piece, gain@[0] as int, 64));
        assert(full.subrange(0, full.len() as int) == full);
        lemma_gains_len(*p, target, occupied, color, current_attacker_piece, gain@[0] as int, 64);
    }
    loop
        invariant_except_break
            popcount(occupied) + d <= 63,
            d < 64,
            full.len() >= d + 1,
            forall|k: int| 0 <= k <= d ==> #[trigger] gain@[k] == full[k],
            forall|k: int| 0 <= k <= d ==> -900 * (k + 1) <= #[trigger] gain@[k] <= 900 * (k + 1),
            full.subrange(d as int, full.len() as int) == gains_from(
                *p,
                target,
                occupied,
                color,
                current_attacker_piece,
                gain@[d as int] as int,
                (64 - d) as nat,
            ),
        invariant
            gain@.len() == 64,
            target < 64,
            consistent(*p),
            full == see_gains(*p, target, target_piece, attacker_sq, attacker_piece),
        ensures
            full.len() == d,
            d >= 1,
            forall|k: int| 0 <= k < d ==> #[trigger] gain@[k] == full[k],
            forall|k: int| 0 <= k < d ==> -900 * (k + 1) <= #[trigger] gain@[k] <= 900 * (k + 1),
            gain@.len() == 64,
            d <= 64,
        decreases 64 - d,
    {
        let ghost st = gains_from(*p, target, occupied, color, current_attacker_piece, gain@[d as int] as int, (64 - d) as nat);
        let ghost prev_color = color;
        d = d + 1;
        color = color.opponent();
        if let Some((piece, sq)) = get_least_valuable_attacker(p, target, color, occupied) {
            let v = piece_value(current_attacker_piece);
            let g = v - gain[d - 1];
            proof {
                lemma_bit_ops(p.spec_color_bb(color), occupied, sq as u64);
                lemma_bits_below_clear(occupied, sq as u64, 64);
                lemma_gains_len(*p, target, occupied ^ (1u64 << (sq as u64)), color, piece, g as int, (64 - d) as nat);
                assert(st == seq![gain@[d - 1] as int] + gains_from(*p, target, occupied ^ (1u64 << (sq as u64)), color, piece, g as int, (64 - d) as nat));
                assert(full.subrange(d as int, full.len() as int) == st.subrange(1, st.len() as int));
            }
            gain.set(d, g);
            current_attacker_piece = piece;
            occupied = occupied ^ (1u64 << (sq as u64));
            proof {
                assert(full[d as int] == st[1]);
            }
        } else {
            proof {
                assert(st == seq![gain@[d - 1] as int]);
                assert(full.len() == d);
            }
            break;
        }
    }
    let ghost n = d;
    proof {
        assert forall|k: int| 0 <= k < n implies -900 * (k + 1) <= #[trigger] full[k] <= 900 * (k + 1) by {
            assert(gain@[k] == full[k]);
        }
    }
    while d > 1
        invariant
            1 <= d <= n,
            n == full.len(),
            gain@.len() == 64,
            n <= 64,
            forall|k: int| 0 <= k < d - 1 ==> #[trigger] gain@[k] == full[k],
            forall|k: int| 0 <= k < n ==> -900 * (k + 1) <= #[trigger] full[k] <= 900 * (k + 1),
            gain@[d - 1] == fold_back(full, d - 1),
            -57600 <= gain@[d - 1] <= 57600,
        decreases d,
    {
        d = d - 1;
        let a = gain[d - 1];
        let b = gain[d];
        let m = if a >= -b { a } else { -b };
        gain.set(d - 1, m);
    }
    gain[0]
}

} // verus!
