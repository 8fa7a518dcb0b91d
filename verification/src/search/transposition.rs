//! The transposition table: mate-score adjustment, move and entry packing,
//! the replacement rule, and the shared table of slots.
use vstd::prelude::*;
use crate::board::{Move, PieceKind};
use crate::search::slot::Slot;

verus! {

pub const MATE_SCORE: i32 = 67_000_000;

/// Scores at least this far from zero are mate scores.
pub const MATE_IN_MAX_PLY: i32 = MATE_SCORE - 1000;

pub const OCCUPIED_BIT: u64 = 0x8000_0000_0000_0000;

pub const DEFAULT_HASH_MB: usize = 256;

pub const MIN_HASH_SLOTS: usize = 1024;

/// Bytes of one slot: two 64-bit atomic words.
pub const SLOT_BYTES: u64 = 16;

/// The move word that stands for "no move".
pub const NO_MOVE_BITS: u16 = 0xFFFF;

/// The score as stored: mate scores are made relative to the node (distance
/// from the root added back), other scores are unchanged.
pub open spec fn spec_score_to_tt(score: int, ply: int) -> int {
    if score >= MATE_IN_MAX_PLY {
        score + ply
    } else if score <= -MATE_IN_MAX_PLY {
        score - ply
    } else {
        score
    }
}

/// The score as read back at a node `ply` plies from the root.
pub open spec fn spec_score_from_tt(score: int, ply: int) -> int {
    if score >= MATE_IN_MAX_PLY {
        score - ply
    } else if score <= -MATE_IN_MAX_PLY {
        score + ply
    } else {
        score
    }
}

/// Adjusts a score for storing at a node `ply` plies from the root.
pub fn score_to_tt(score: i32, ply: i32) -> (r: i32)
    requires
        i32::MIN <= spec_score_to_tt(score as int, ply as int) <= i32::MAX,
    ensures
        r == spec_score_to_tt(score as int, ply as int),
{
    if score >= MATE_IN_MAX_PLY {
        score + ply
    } else if score <= -MATE_IN_MAX_PLY {
        score - ply
    } else {
        score
    }
}

/// Adjusts a stored score for a node `ply` plies from the root.
pub fn score_from_tt(score: i32, ply: i32) -> (r: i32)
    requires
        i32::MIN <= spec_score_from_tt(score as int, ply as int) <= i32::MAX,
    ensures
        r == spec_score_from_tt(score as int, ply as int),
{
    if score >= MATE_IN_MAX_PLY {
        score - ply
    } else if score <= -MATE_IN_MAX_PLY {
        score + ply
    } else {
        score
    }
}

/// Reading a stored score back at the same ply gives the score that was
/// stored, for every non-negative ply.
pub proof fn law_score_tt_roundtrip(score: int, ply: int)
    requires
        ply >= 0,
    ensures
        spec_score_from_tt(spec_score_to_tt(score, ply), ply) == score,
{
}

/// What kind of bound a stored score is.
#[derive(Clone, Copy, PartialEq, Eq, Structural, Debug)]
pub enum Bound {
    Exact,
    Lower,
    Upper,
}

/// The two-bit code of a bound.
pub open spec fn spec_bound_bits(b: Bound) -> u64 {
    match b {
        Bound::Exact => 0,
        Bound::Lower => 1,
        Bound::Upper => 2,
    }
}

/// The bound that a code stands for: 1 is lower, 2 upper, anything else exact.
pub open spec fn spec_bound_from_u8(v: u8) -> Bound {
    if v == 1 {
        Bound::Lower
    } else if v == 2 {
        Bound::Upper
    } else {
        Bound::Exact
    }
}

impl Bound {
    /// Decodes a bound code.
    pub fn from_u8(v: u8) -> (r: Bound)
        ensures
            r == spec_bound_from_u8(v),
    {
        match v {
            1 => Bound::Lower,
            2 => Bound::Upper,
            _ => Bound::Exact,
        }
    }

    /// The code of a bound.
    pub fn bits(self) -> (r: u64)
        ensures
            r == spec_bound_bits(self),
    {
        match self {
            Bound::Exact => 0,
            Bound::Lower => 1,
            Bound::Upper => 2,
        }
    }
}

/// The three-bit code of a promotion: none 0, knight 1, bishop 2, rook 3,
/// queen 4; a king or pawn (which no legal move promotes to) also 0.
pub open spec fn spec_promo_code(p: Option<PieceKind>) -> u16 {
    match p {
        Some(PieceKind::Knight) => 1,
        Some(PieceKind::Bishop) => 2,
        Some(PieceKind::Rook) => 3,
        Some(PieceKind::Queen) => 4,
        _ => 0,
    }
}

/// The promotion that a code stands for.
pub open spec fn spec_promo_from_code(c: u16) -> Option<PieceKind> {
    if c == 1 {
        Some(PieceKind::Knight)
    } else if c == 2 {
        Some(PieceKind::Bishop)
    } else if c == 3 {
        Some(PieceKind::Rook)
    } else if c == 4 {
        Some(PieceKind::Queen)
    } else {
        None
    }
}

/// The 16-bit move word: source in bits 0..6, destination in bits 6..12,
/// promotion code in bits 12..15; `0xFFFF` for no move.
pub open spec fn spec_encode_move(m: Option<Move>) -> u16 {
    match m {
        None => NO_MOVE_BITS,
        Some(mv) => ((mv.from % 64) + (mv.to % 64) * 64 + spec_promo_code(mv.promotion) * 4096) as u16,
    }
}

/// The move that a 16-bit move word stands for.
pub open spec fn spec_decode_move(bits: u16) -> Option<Move> {
    if bits == NO_MOVE_BITS {
        None
    } else {
        Some(
            Move {
                from: (bits % 64) as u8,
                to: ((bits / 64) % 64) as u8,
                promotion: spec_promo_from_code(((bits / 4096) % 8) as u16),
            },
        )
    }
}

/// Encodes a move in 16 bits.
pub fn encode_move(m: Option<Move>) -> (r: u16)
    ensures
        r == spec_encode_move(m),
{
    match m {
        None => NO_MOVE_BITS,
        Some(mv) => {
            let src16: u16 = mv.from as u16;
            let dst16: u16 = mv.to as u16;
            let from: u16 = src16 & 0x3F;
            let to: u16 = dst16 & 0x3F;
            let promo: u16 = match mv.promotion {
                None => 0,
                Some(PieceKind::Knight) => 1,
                Some(PieceKind::Bishop) => 2,
                Some(PieceKind::Rook) => 3,
                Some(PieceKind::Queen) => 4,
                _ => 0,
            };
            assert(from | (to << 6u16) | (promo << 12u16) == from + to * 64 + promo * 4096
                && from == src16 % 64 && to == dst16 % 64) by (bit_vector)
                requires
                    from == src16 & 0x3F,
                    to == dst16 & 0x3F,
                    promo <= 4,
            ;
            from | (to << 6u16) | (promo << 12u16)
        },
    }
}

/// Decodes a 16-bit move word.
pub fn decode_move(bits: u16) -> (r: Option<Move>)
    ensures
        r == spec_decode_move(bits),
{
    if bits == NO_MOVE_BITS {
        return None;
    }
    let from: u16 = bits & 0x3F;
    let to: u16 = (bits >> 6u16) & 0x3F;
    let promo: u16 = (bits >> 12u16) & 0x7;
    assert(bits & 0x3F == bits % 64 && (bits >> 6u16) & 0x3F == (bits / 64) % 64 && (bits
        >> 12u16) & 0x7 == (bits / 4096) % 8) by (bit_vector);
    let promotion = match promo {
        1 => Some(PieceKind::Knight),
        2 => Some(PieceKind::Bishop),
        3 => Some(PieceKind::Rook),
        4 => Some(PieceKind::Queen),
        _ => None,
    };
    Some(Move { from: from as u8, to: to as u8, promotion })
}

/// Promotions that the move word can carry.
pub open spec fn encodable_promotion(p: Option<PieceKind>) -> bool {
    match p {
        None => true,
        Some(PieceKind::Knight) | Some(PieceKind::Bishop) | Some(PieceKind::Rook) | Some(
            PieceKind::Queen,
        ) => true,
        _ => false,
    }
}

/// Decoding an encoded move gives the move back, for every move on the
/// board whose promotion (if any) is a knight, bishop, rook or queen.
pub proof fn law_move_code_roundtrip(m: Option<Move>)
    requires
        m matches Some(mv) ==> mv.from < 64 && mv.to < 64 && encodable_promotion(mv.promotion),
    ensures
        spec_decode_move(spec_encode_move(m)) == m,
{
    if let Some(mv) = m {
        let c = spec_encode_move(m);
        let w = (mv.from + mv.to * 64 + spec_promo_code(mv.promotion) * 4096) as int;
        assert(w < 0xFFFF);
        assert(c as int == w);
        assert(c % 64 == mv.from);
        assert((c / 64) % 64 == mv.to);
        assert((c / 4096) % 8 == spec_promo_code(mv.promotion));
    }
}

/// A table entry as read back from a packed word.
#[derive(Clone, Copy, PartialEq, Eq, Structural, Debug)]
pub struct TTEntry {
    pub depth: i16,
    pub score: i32,
    pub bound: Bound,
    pub best_move_bits: u16,
}

impl TTEntry {
    /// The best move recorded with the entry, if any.
    pub fn best_move(self) -> (r: Option<Move>)
        ensures
            r == spec_decode_move(self.best_move_bits),
    {
        decode_move(self.best_move_bits)
    }
}

/// The field layout of a packed entry word: occupied flag in bit 63, bound
/// code in bits 56..58, depth in bits 48..56, score (as 32 bits) in bits
/// 16..48, move word in bits 0..16.
pub open spec fn word_fields(w: u64, bound_bits: u64, depth_bits: u64, score_bits: u32, move_bits: u16) -> bool {
    &&& (w >> 63u64) & 1 == 1
    &&& (w >> 56u64) & 0x3 == bound_bits
    &&& (w >> 48u64) & 0xFF == depth_bits
    &&& (w >> 16u64) & 0xFFFF_FFFF == score_bits as u64
    &&& w & 0xFFFF == move_bits as u64
}

/// The depth as stored: at most 255.
pub open spec fn stored_depth(depth: u32) -> u64 {
    if depth > 255 {
        255
    } else {
        depth as u64
    }
}

/// Packs an entry into one word.
pub fn pack(depth: u32, score: i32, bound: Bound, best_move: Option<Move>) -> (r: u64)
    ensures
        word_fields(r, spec_bound_bits(bound), stored_depth(depth), score as u32, spec_encode_move(best_move)),
{
    let mv: u64 = encode_move(best_move) as u64;
    let score_bits: u64 = (score as u32) as u64;
    let d: u32 = if depth < 255 { depth } else { 255 };
    let depth_bits: u64 = (d as u64) & 0xFF;
    let bcode: u64 = bound.bits();
    let bound_bits: u64 = bcode & 0x3;
    let mvb = encode_move(best_move);
    let s32 = score as u32;
    assert(((d as u64) & 0xFF) == d as u64) by (bit_vector)
        requires
            d <= 255,
    ;
    assert(bcode & 0x3 == bcode) by (bit_vector)
        requires
            bcode <= 2,
    ;
    let r = OCCUPIED_BIT | (bound_bits << 56u64) | (depth_bits << 48u64) | (score_bits << 16u64) | mv;
    assert(word_fields(r, bound_bits, depth_bits, s32, mvb)) by (bit_vector)
        requires
            r == 0x8000_0000_0000_0000u64 | (bound_bits << 56u64) | (depth_bits << 48u64) | (
            score_bits << 16u64) | mv,
            bound_bits <= 3,
            depth_bits <= 255,
            score_bits == s32 as u64,
            mv == mvb as u64,
    ;
    r
}

/// Unpacks an entry word.
pub fn unpack(data: u64) -> (r: TTEntry)
    ensures
        r.best_move_bits as u64 == data & 0xFFFF,
        r.score == ((data >> 16u64) & 0xFFFF_FFFF) as u32 as i32,
        r.depth as int == ((data >> 48u64) & 0xFF) as int,
        r.bound == spec_bound_from_u8(((data >> 56u64) & 0x3) as u8),
{
    let mv_bits = (data & 0xFFFF) as u16;
    let score_bits = ((data >> 16u64) & 0xFFFF_FFFF) as u32;
    let depth_bits = ((data >> 48u64) & 0xFF) as u8;
    let bound_bits = ((data >> 56u64) & 0x3) as u8;
    assert(data & 0xFFFF <= 0xFFFF && (data >> 16u64) & 0xFFFF_FFFF <= 0xFFFF_FFFF && (data
        >> 48u64) & 0xFF <= 0xFF && (data >> 56u64) & 0x3 <= 3) by (bit_vector);
    let score = score_bits as i32;
    TTEntry { depth: depth_bits as i16, score, bound: Bound::from_u8(bound_bits), best_move_bits: mv_bits }
}

/// The entry that packing these fields gives back when read.
pub open spec fn spec_entry(depth: u32, score: i32, bound: Bound, best_move: Option<Move>) -> TTEntry {
    TTEntry {
        depth: stored_depth(depth) as i16,
        score,
        bound,
        best_move_bits: spec_encode_move(best_move),
    }
}

/// Unpacking a packed word gives back the fields that were packed, the depth
/// capped at 255.
pub proof fn law_pack_roundtrip(w: u64, depth: u32, score: i32, bound: Bound, best_move: Option<Move>, e: TTEntry)
    requires
        word_fields(w, spec_bound_bits(bound), stored_depth(depth), score as u32, spec_encode_move(best_move)),
        e.best_move_bits as u64 == w & 0xFFFF,
        e.score == ((w >> 16u64) & 0xFFFF_FFFF) as u32 as i32,
        e.depth as int == ((w >> 48u64) & 0xFF) as int,
        e.bound == spec_bound_from_u8(((w >> 56u64) & 0x3) as u8),
    ensures
        e == spec_entry(depth, score, bound, best_move),
{
    let s = score;
    let sb = (w >> 16u64) & 0xFFFF_FFFF;
    assert(sb == s as u32 as u64 ==> sb as u32 as i32 == s) by (bit_vector);
    assert(e.depth as int == stored_depth(depth) as int);
}

/// The entry a slot holds for `key`: none when the slot is empty or holds
/// another key (the key is checked as `key_xor_data ^ data`).
pub open spec fn spec_slot_entry(key: u64, key_xor_data: u64, data: u64) -> Option<u64> {
    if data & OCCUPIED_BIT == 0 {
        None
    } else if key_xor_data ^ data != key {
        None
    } else {
        Some(data)
    }
}

/// Decides what a slot read as `(key_xor_data, data)` holds for `key`.
pub fn slot_entry(key: u64, key_xor_data: u64, data: u64) -> (r: Option<TTEntry>)
    ensures
        match spec_slot_entry(key, key_xor_data, data) {
            None => r.is_none(),
            Some(d) => r matches Some(e) && e.best_move_bits as u64 == d & 0xFFFF && e.score == ((d
                >> 16u64) & 0xFFFF_FFFF) as u32 as i32 && e.depth as int == ((d >> 48u64) & 0xFF) as int
                && e.bound == spec_bound_from_u8(((d >> 56u64) & 0x3) as u8),
        },
{
    if data & OCCUPIED_BIT == 0 {
        return None;
    }
    if (key_xor_data ^ data) != key {
        return None;
    }
    Some(unpack(data))
}

/// A slot written with a packed entry for `key` holds that entry for `key`:
/// reading it back gives the depth (capped at 255), score, bound and move
/// that were stored.
pub proof fn law_slot_read_after_write(key: u64, w: u64, depth: u32, score: i32, bound: Bound, best_move: Option<Move>)
    requires
        word_fields(w, spec_bound_bits(bound), stored_depth(depth), score as u32, spec_encode_move(best_move)),
    ensures
        spec_slot_entry(key, key ^ w, w) == Some(w),
{
    assert((w >> 63u64) & 1 == 1 ==> w & 0x8000_0000_0000_0000u64 != 0) by (bit_vector);
    assert((key ^ w) ^ w == key) by (bit_vector);
}

/// What a store writes is what a probe of the same key gives back: the words
/// `(key ^ data, data)` written for `(depth, score, bound, move)` hold `data`
/// for `key`, and it unpacks to exactly those fields (the depth capped at
/// 255); in particular the bound read back is the bound stored.
pub proof fn law_store_then_probe(
    key: u64,
    kxd: u64,
    d: u64,
    depth: u32,
    score: i32,
    bound: Bound,
    best_move: Option<Move>,
)
    requires
        kxd == key ^ d,
        word_fields(d, spec_bound_bits(bound), stored_depth(depth), score as u32, spec_encode_move(best_move)),
    ensures
        spec_slot_entry(key, kxd, d) == Some(d),
        unpacked(d) == spec_entry(depth, score, bound, best_move),
        unpacked(d).bound == bound,
        unpacked(d).score == score,
        depth <= 255 ==> unpacked(d).depth == depth,
{
    law_slot_read_after_write(key, d, depth, score, bound, best_move);
    assert(((d >> 48u64) & 0xFF) <= 0xFF) by (bit_vector);
    law_pack_roundtrip(d, depth, score, bound, best_move, unpacked(d));
}

/// The depth recorded in an entry word.
pub open spec fn word_depth(w: u64) -> u64 {
    (w >> 48u64) & 0xFF
}

/// The bound recorded in an entry word.
pub open spec fn word_bound(w: u64) -> Bound {
    spec_bound_from_u8(((w >> 56u64) & 0x3) as u8)
}

/// The replacement rule: a slot that already holds `key` is kept when its
/// depth is greater than the new depth, or equal with an exact bound while
/// the new bound is not exact.  Any other slot is overwritten.
pub open spec fn spec_keeps_existing(key: u64, depth: u32, bound: Bound, key_xor_data: u64, data: u64) -> bool {
    &&& data & OCCUPIED_BIT != 0
    &&& key_xor_data ^ data == key
    &&& (word_depth(data) > depth || (word_depth(data) == depth && word_bound(data) == Bound::Exact
        && bound != Bound::Exact))
}

/// A store always writes into an empty slot, a slot of another key, a slot
/// whose entry is shallower, or, with an exact bound, a slot whose entry is
/// no deeper; it leaves an entry for the same key that is deeper, or as deep
/// and exact while the new bound is not.
pub proof fn law_replacement_rule(key: u64, depth: u32, bound: Bound, kxd: u64, d: u64)
    ensures
        d & OCCUPIED_BIT == 0 ==> !spec_keeps_existing(key, depth, bound, kxd, d),
        kxd ^ d != key ==> !spec_keeps_existing(key, depth, bound, kxd, d),
        word_depth(d) < depth ==> !spec_keeps_existing(key, depth, bound, kxd, d),
        word_depth(d) <= depth && bound == Bound::Exact ==> !spec_keeps_existing(key, depth, bound, kxd, d),
        d & OCCUPIED_BIT != 0 && kxd ^ d == key && word_depth(d) > depth ==> spec_keeps_existing(key, depth, bound, kxd, d),
        d & OCCUPIED_BIT != 0 && kxd ^ d == key && word_depth(d) == depth && word_bound(d) == Bound::Exact && bound
            != Bound::Exact ==> spec_keeps_existing(key, depth, bound, kxd, d),
{
}

/// Decides whether a store for `key` leaves the slot as it is.
pub fn keeps_existing(key: u64, depth: u32, bound: Bound, key_xor_data: u64, data: u64) -> (r: bool)
    ensures
        r == spec_keeps_existing(key, depth, bound, key_xor_data, data),
{
    if data & OCCUPIED_BIT == 0 {
        return false;
    }
    if (key_xor_data ^ data) != key {
        return false;
    }
    let existing_depth: u64 = (data >> 48u64) & 0xFF;
    let existing_bound = Bound::from_u8(((data >> 56u64) & 0x3) as u8);
    existing_depth > depth as u64 || (existing_depth == depth as u64 && existing_bound == Bound::Exact
        && bound != Bound::Exact)
}

/// Whether `n` is a power of two.
pub open spec fn is_power_of_two(n: int) -> bool
    decreases n,
{
    if n <= 0 {
        false
    } else if n == 1 {
        true
    } else {
        n % 2 == 0 && is_power_of_two(n / 2)
    }
}

/// The number of slot-sized pieces in `mb` megabytes (at least one).
pub open spec fn raw_slots(mb: usize) -> int {
    let m = if mb < 1 { 1int } else { mb as int };
    let r = m * 1024 * 1024 / SLOT_BYTES as int;
    if r < 1 { 1 } else { r }
}

/// The slot count for a table of `mb` megabytes: the largest power of two
/// that fits, and at least 1024.
pub open spec fn spec_slot_count(mb: usize, n: int) -> bool {
    &&& is_power_of_two(n)
    &&& n >= MIN_HASH_SLOTS
    &&& (n == MIN_HASH_SLOTS || n <= raw_slots(mb))
    &&& raw_slots(mb) < 2 * n
}

/// Table sizes whose byte count fits in 64 bits.
pub open spec fn hash_mb_in_range(mb: usize) -> bool {
    mb as int * 1024 * 1024 <= u64::MAX
}

proof fn lemma_pow2_double(n: int)
    requires
        is_power_of_two(n),
    ensures
        is_power_of_two(2 * n),
{
    assert((2 * n) / 2 == n);
}

/// The shared table of slots.  Its length is a power of two and `mask` is
/// one less, so `key & mask` picks a slot.
pub struct TranspositionTable {
    entries: Vec<Slot>,
    mask: usize,
}

impl TranspositionTable {
    /// The number of slots for a table of `mb` megabytes.
    pub fn slots_for_mb(mb: usize) -> (r: usize)
        requires
            hash_mb_in_range(mb),
            raw_slots(mb) <= usize::MAX,
        ensures
            spec_slot_count(mb, r as int),
    {
        let m: usize = if mb < 1 { 1 } else { mb };
        let bytes: u64 = (m as u64) * 1024 * 1024;
        let slot_size: u64 = SLOT_BYTES;
        let q: u64 = bytes / slot_size;
        let raw: u64 = if q < 1 { 1 } else { q };
        let mut slots: u64 = 1;
        assert(is_power_of_two(1));
        while slots * 2 <= raw
            invariant
                1 <= slots <= raw,
                raw as int == raw_slots(mb),
                raw <= u64::MAX / 16,
                is_power_of_two(slots as int),
            decreases raw - slots,
        {
            proof {
                lemma_pow2_double(slots as int);
            }
            slots = slots * 2;
        }
        let s: usize = slots as usize;
        if s < MIN_HASH_SLOTS {
            proof {
                reveal_with_fuel(is_power_of_two, 12);
            }
            MIN_HASH_SLOTS
        } else {
            s
        }
    }

    /// The table's shape: `mask + 1` slots, a power of two, at least 1024.
    pub closed spec fn wf(&self) -> bool {
        &&& self.entries@.len() == self.mask + 1
        &&& is_power_of_two(self.entries@.len() as int)
        &&& self.entries@.len() >= MIN_HASH_SLOTS
    }

    /// The number of slots.
    pub closed spec fn slot_count(&self) -> int {
        self.entries@.len() as int
    }

    /// The number of slots.
    pub fn len(&self) -> (r: usize)
        ensures
            r == self.slot_count(),
    {
        self.entries.len()
    }

    /// A table of `mb` megabytes with every slot empty.
    pub fn with_size_mb(mb: usize) -> (r: TranspositionTable)
        requires
            hash_mb_in_range(mb),
            raw_slots(mb) <= usize::MAX,
        ensures
            r.wf(),
            spec_slot_count(mb, r.slot_count()),
    {
        let slots = Self::slots_for_mb(mb);
        let mut entries: Vec<Slot> = Vec::new();
        while entries.len() < slots
            invariant
                entries@.len() <= slots,
            decreases slots - entries@.len(),
        {
            entries.push(Slot::empty());
        }
        TranspositionTable { entries, mask: slots - 1 }
    }

    /// A table of the default size, 256 megabytes.
    pub fn new() -> (r: TranspositionTable)
        ensures
            r.wf(),
            spec_slot_count(DEFAULT_HASH_MB, r.slot_count()),
    {
        assert(raw_slots(DEFAULT_HASH_MB) == 16777216);
        Self::with_size_mb(DEFAULT_HASH_MB)
    }

    /// The slot index of a key: its low bits, under the mask.
    pub closed spec fn spec_index(&self, key: u64) -> int {
        ((key as usize) & self.mask) as int
    }

    /// The slot index of a key: its low bits.
    pub fn index(&self, key: u64) -> (r: usize)
        requires
            self.wf(),
        ensures
            r == self.spec_index(key),
            r < self.slot_count(),
    {
        let k = key as usize;
        let m = self.mask;
        assert(k & m <= m) by (bit_vector);
        k & m
    }

    /// Looks a key up.  The slot is read as it stands (other threads may be
    /// writing it); the entry comes back only when the slot is occupied and
    /// its key check gives `key`.
    pub fn probe(&self, key: u64) -> (r: Option<TTEntry>)
        requires
            self.wf(),
        ensures
            r matches Some(e) ==> exists|kxd: u64, d: u64|
                spec_slot_entry(key, kxd, d) == Some(d) && e == unpacked(d),
    {
        let i = self.index(key);
        let (kxd, data) = self.entries[i].read();
        let r = slot_entry(key, kxd, data);
        if let Some(e) = r {
            assert(e == unpacked(data));
        }
        r
    }

    /// Stores an entry for `key` unless the replacement rule keeps the slot.
    /// The result records the two words written to the slot, `(key ^ data,
    /// data)`, where `data` packs exactly the given depth, score, bound and
    /// move; it is `None` only when the slot, as read, already held `key` in
    /// an entry that the replacement rule keeps.
    pub fn store(&self, key: u64, depth: u32, score: i32, bound: Bound, best_move: Option<Move>) -> (r: Ghost<
        Option<(u64, u64)>,
    >)
        requires
            self.wf(),
        ensures
            r@ matches Some(w) ==> w.0 == key ^ w.1 && word_fields(
                w.1,
                spec_bound_bits(bound),
                stored_depth(depth),
                score as u32,
                spec_encode_move(best_move),
            ),
            r@.is_none() ==> exists|kxd: u64, d: u64| #[trigger] spec_keeps_existing(key, depth, bound, kxd, d),
    {
        let i = self.index(key);
        let slot = &self.entries[i];
        let existing_data = slot.read_data();
        if existing_data & OCCUPIED_BIT != 0 {
            let existing_kxd = slot.read_key_xor_data();
            if keeps_existing(key, depth, bound, existing_kxd, existing_data) {
                return Ghost(None);
            }
        }
        let data = pack(depth, score, bound, best_move);
        slot.write(key ^ data, data);
        Ghost(Some((key ^ data, data)))
    }

    /// Empties every slot.
    pub fn clear(&self) {
        let n = self.entries.len();
        let mut i: usize = 0;
        while i < n
            invariant
                n == self.entries@.len(),
            decreases n - i,
        {
            self.entries[i].write(0, 0);
            i = i + 1;
        }
    }
}

/// The entry that an occupied word unpacks to.
pub open spec fn unpacked(d: u64) -> TTEntry {
    TTEntry {
        depth: ((d >> 48u64) & 0xFF) as i16,
        score: ((d >> 16u64) & 0xFFFF_FFFF) as u32 as i32,
        bound: spec_bound_from_u8(((d >> 56u64) & 0x3) as u8),
        best_move_bits: (d & 0xFFFF) as u16,
    }
}

} // verus!
