//! The decisions behind the UCI commands `position`, `go` and `setoption`:
//! reading moves and positions from tokens, and what a `go` asks for.
use vstd::prelude::*;
use vstd::string::StringExecFns;
use crate::board::{
    GameBoard, Move, PieceKind, Position, START_FEN, consistent, spec_board_from_fen,
    spec_legal_moves, spec_make_move,
};
use crate::search::history::{GameHistory, occurrences};
use crate::search::negamax::lemma_occurrences_le_len;
use crate::search::MAX_DEPTH;
use crate::text::{parse_unsigned, spec_parse_unsigned, text_eq};
use crate::time::{GoParams, parse_go_params, spec_parse_go_params};

verus! {

/// A file letter, `a` to `h`.
pub open spec fn file_char(c: char) -> bool {
    'a' <= c <= 'h'
}

/// A rank digit, `1` to `8`.
pub open spec fn rank_char(c: char) -> bool {
    '1' <= c <= '8'
}

/// An ASCII character.
pub open spec fn ascii_char(c: char) -> bool {
    (c as u32) < 128
}

/// The square named by a file letter and a rank digit, as
/// `chess::Square::from_str` reads it (index `rank * 8 + file`).
pub open spec fn spec_square(f: char, r: char) -> Option<u8> {
    if file_char(f) && rank_char(r) {
        Some(((r as int - '1' as int) * 8 + (f as int - 'a' as int)) as u8)
    } else {
        None
    }
}

/// The piece a promotion letter names: `q`, `r`, `b` or `n`.
pub open spec fn spec_promotion(c: char) -> Option<PieceKind> {
    if c == 'q' {
        Some(PieceKind::Queen)
    } else if c == 'r' {
        Some(PieceKind::Rook)
    } else if c == 'b' {
        Some(PieceKind::Bishop)
    } else if c == 'n' {
        Some(PieceKind::Knight)
    } else {
        None
    }
}

/// The first five characters (or all, if fewer) are ASCII.
pub open spec fn head_ascii(s: Seq<char>) -> bool {
    forall|i: int| 0 <= i < s.len() && i < 5 ==> ascii_char(#[trigger] s[i])
}

/// A move in UCI notation: source and destination squares, then an optional
/// promotion letter (any other fifth character means no promotion).  Text
/// shorter than four characters, or with a character outside ASCII among
/// its first five, names no move.
pub open spec fn spec_parse_uci_move(s: Seq<char>) -> Option<Move> {
    if s.len() < 4 || !head_ascii(s) {
        None
    } else {
        match (spec_square(s[0], s[1]), spec_square(s[2], s[3])) {
            (Some(from), Some(to)) => Some(
                Move { from, to, promotion: if s.len() >= 5 { spec_promotion(s[4]) } else { None } },
            ),
            _ => None,
        }
    }
}

/// Reads a square from its file letter and rank digit.
pub fn parse_square(f: char, r: char) -> (sq: Option<u8>)
    ensures
        sq == spec_square(f, r),
        sq matches Some(s) ==> s < 64,
{
    if 'a' <= f && f <= 'h' && '1' <= r && r <= '8' {
        let rank: u32 = r as u32 - '1' as u32;
        let file: u32 = f as u32 - 'a' as u32;
        Some((rank * 8 + file) as u8)
    } else {
        None
    }
}

/// Reads a promotion letter.
pub fn parse_promotion(c: char) -> (p: Option<PieceKind>)
    ensures
        p == spec_promotion(c),
{
    if c == 'q' {
        Some(PieceKind::Queen)
    } else if c == 'r' {
        Some(PieceKind::Rook)
    } else if c == 'b' {
        Some(PieceKind::Bishop)
    } else if c == 'n' {
        Some(PieceKind::Knight)
    } else {
        None
    }
}

/// Reads a move in UCI notation (such as `e2e4` or `e7e8q`).  The board is
/// not consulted: whether the move is legal is for the caller to ask.
pub fn parse_uci_move(_board: &GameBoard, s: &str) -> (r: Option<Move>)
    ensures
        r == spec_parse_uci_move(s@),
        r matches Some(m) ==> m.from < 64 && m.to < 64,
{
    let n = s.unicode_len();
    if n < 4 {
        return None;
    }
    let mut i: usize = 0;
    while i < n && i < 5
        invariant
            n == s@.len(),
            i <= n,
            forall|k: int| 0 <= k < i && k < 5 ==> ascii_char(#[trigger] s@[k]),
        decreases n - i,
    {
        if s.get_char(i) as u32 >= 128 {
            assert(!ascii_char(s@[i as int]));
            return None;
        }
        i = i + 1;
    }
    assert(head_ascii(s@));
    let from = match parse_square(s.get_char(0), s.get_char(1)) {
        Some(sq) => sq,
        None => return None,
    };
    let to = match parse_square(s.get_char(2), s.get_char(3)) {
        Some(sq) => sq,
        None => return None,
    };
    let promotion = if n >= 5 {
        parse_promotion(s.get_char(4))
    } else {
        None
    };
    Some(Move { from, to, promotion })
}

/// The position and history after playing `toks[i..]` as UCI moves from
/// `p`: each move that reads and is legal is made and its position's hash
/// recorded; the first one that does not ends the list.
pub open spec fn spec_play_moves(p: Position, hist: Seq<u64>, toks: Seq<&str>, i: int) -> (Position, Seq<u64>)
    decreases toks.len() - i,
{
    if i < 0 || i >= toks.len() {
        (p, hist)
    } else {
        match spec_parse_uci_move(toks[i]@) {
            Some(m) => if spec_legal_moves(p).contains(m) {
                let q = spec_make_move(p, m);
                spec_play_moves(q, hist.push(q.hash), toks, i + 1)
            } else {
                (p, hist)
            },
            None => (p, hist),
        }
    }
}

/// The starting position, as `chess::Board::default` reads it from the
/// starting FEN.
pub open spec fn start_position() -> Position {
    match spec_board_from_fen(START_FEN@) {
        Some(q) => q,
        None => arbitrary(),
    }
}

/// How many FEN fields follow the keyword `fen` at 0: up to six.
pub open spec fn fen_field_count(toks: Seq<&str>) -> int {
    if toks.len() - 1 < 6 {
        toks.len() - 1
    } else {
        6
    }
}

/// `toks[start..start + count]` joined by single spaces.
pub open spec fn joined(toks: Seq<&str>, start: int, count: int) -> Seq<char>
    decreases count,
{
    if count <= 0 {
        Seq::empty()
    } else if count == 1 {
        toks[start]@
    } else {
        joined(toks, start, count - 1) + seq![' '] + toks[start + count - 1]@
    }
}

/// What the tokens before the move list set up: the position, the history,
/// and where the move list would start.  `startpos` sets the starting
/// position; `fen` the position of the next fields (up to six), if they
/// read; otherwise the position stays and the history is empty.
pub open spec fn spec_position_setup(p: Position, toks: Seq<&str>) -> (Position, Seq<u64>, int) {
    if toks.len() > 0 && toks[0]@ == "startpos"@ {
        (start_position(), seq![start_position().hash], 1)
    } else if toks.len() > 0 && toks[0]@ == "fen"@ {
        let n = fen_field_count(toks);
        match spec_board_from_fen(joined(toks, 1, n)) {
            Some(q) => (q, seq![q.hash], 1 + n),
            None => (p, Seq::empty(), 1 + n),
        }
    } else {
        (p, Seq::empty(), 0)
    }
}

/// The position and history that a UCI `position` command with these
/// tokens leaves, starting from position `p`.
pub open spec fn spec_handle_position(p: Position, toks: Seq<&str>) -> (Position, Seq<u64>) {
    let (q, h, i) = spec_position_setup(p, toks);
    if 0 <= i < toks.len() && toks[i]@ == "moves"@ {
        spec_play_moves(q, h, toks, i + 1)
    } else {
        (q, h)
    }
}

/// Joins `tokens[start..start + count]` with single spaces.
fn join_tokens(tokens: &[&str], start: usize, count: usize) -> (r: String)
    requires
        start + count <= tokens@.len(),
    ensures
        r@ == joined(tokens@, start as int, count as int),
{
    let mut out = String::new();
    let mut k: usize = 0;
    while k < count
        invariant
            start + count <= tokens@.len(),
            tokens@.len() == tokens.len(),
            k <= count,
            out@ == joined(tokens@, start as int, k as int),
        decreases count - k,
    {
        if k > 0 {
            out.append(" ");
            proof {
                reveal_strlit(" ");
            }
        }
        out.append(tokens[start + k]);
        proof {
            if k > 0 {
                assert(out@ == joined(tokens@, start as int, k as int) + seq![' '] + tokens@[start + k]@);
            } else {
                assert(out@ =~= tokens@[start as int]@);
            }
        }
        k = k + 1;
    }
    out
}

/// Plays the moves `tokens[i..]` onto the board and the history, stopping
/// at the first that does not read or is not legal.
fn play_moves(board: &mut GameBoard, history: &mut GameHistory, tokens: &[&str], i: usize)
    requires
        consistent(old(board)@),
        old(history).wf(),
        i <= tokens@.len(),
        old(history)@.len() + tokens@.len() - i < u32::MAX,
    ensures
        consistent(final(board)@),
        final(history).wf(),
        (final(board)@, final(history)@) == spec_play_moves(old(board)@, old(history)@, tokens@, i as int),
{
    let n = tokens.len();
    let mut j: usize = i;
    while j < n
        invariant_except_break
            n == tokens@.len(),
            i <= j <= n,
            consistent(board@),
            history.wf(),
            history@.len() + n - j < u32::MAX,
            spec_play_moves(board@, history@, tokens@, j as int)
                == spec_play_moves(old(board)@, old(history)@, tokens@, i as int),
        ensures
            consistent(board@),
            history.wf(),
            (board@, history@) == spec_play_moves(old(board)@, old(history)@, tokens@, i as int),
        decreases n - j,
    {
        let parsed = parse_uci_move(board, tokens[j]);
        match parsed {
            Some(m) => {
                if board.is_legal(m) {
                    let next = board.make_move(m);
                    *board = next;
                    proof {
                        lemma_occurrences_le_len(history@, board@.hash);
                    }
                    history.push(board.position().hash);
                    j = j + 1;
                } else {
                    break;
                }
            },
            None => {
                break;
            },
        }
    }
    proof {
        if j >= n {
            assert((board@, history@) == spec_play_moves(board@, history@, tokens@, j as int));
        }
    }
}

/// The UCI `position` command: sets the board from `startpos` or from the
/// FEN fields after `fen`, records the position hashes of the game in the
/// history, and plays the moves after `moves` until one does not read or
/// is not legal.
pub fn handle_position(board: &mut GameBoard, history: &mut GameHistory, tokens: &[&str])
    requires
        consistent(old(board)@),
        tokens@.len() + 2 < u32::MAX,
    ensures
        consistent(final(board)@),
        final(history).wf(),
        (final(board)@, final(history)@) == spec_handle_position(old(board)@, tokens@),
{
    let n = tokens.len();
    let mut idx: usize = 0;
    history.clear();
    let ghost setup = spec_position_setup(old(board)@, tokens@);
    if n > 0 && text_eq(tokens[0], "startpos") {
        *board = GameBoard::start();
        history.push(board.position().hash);
        idx = 1;
        assert(history@ =~= seq![start_position().hash]);
    } else if n > 0 && text_eq(tokens[0], "fen") {
        let count: usize = if n - 1 < 6 { n - 1 } else { 6 };
        let fen = join_tokens(tokens, 1, count);
        idx = 1 + count;
        match GameBoard::from_fen(fen.as_str()) {
            Some(b) => {
                *board = b;
                history.push(board.position().hash);
                assert(history@ =~= seq![board@.hash]);
            },
            None => {},
        }
    }
    assert(board@ == setup.0 && history@ == setup.1 && idx == setup.2);
    if idx < n && text_eq(tokens[idx], "moves") {
        play_moves(board, history, tokens, idx + 1);
    }
}


/// The index of the first `value` token from `i` on, or the length.
pub open spec fn value_index(toks: Seq<&str>, i: int) -> int
    decreases toks.len() - i,
{
    if i < 0 || i >= toks.len() {
        toks.len() as int
    } else if toks[i]@ == "value"@ {
        i
    } else {
        value_index(toks, i + 1)
    }
}

/// The option name of a `setoption` command: the tokens after `name` up to
/// `value`, joined by spaces.
pub open spec fn option_name(toks: Seq<&str>) -> Seq<char> {
    joined(toks, 1, value_index(toks, 1) - 1)
}

/// The option value of a `setoption` command: the token after `value`.
pub open spec fn option_value(toks: Seq<&str>) -> Option<Seq<char>> {
    let v = value_index(toks, 1);
    if v + 1 < toks.len() {
        Some(toks[v + 1]@)
    } else {
        None
    }
}

/// The thread count a `setoption` command sets: for the option `Threads`
/// with a value that reads as a `usize`, that value clamped to 1..=64;
/// nothing for any other command.
pub open spec fn spec_handle_setoption(toks: Seq<&str>) -> Option<usize> {
    if toks.len() == 0 || toks[0]@ != "name"@ || option_name(toks) != "Threads"@ {
        None
    } else {
        match option_value(toks) {
            Some(v) => match spec_parse_unsigned(v, usize::MAX as int) {
                Some(x) => Some((if x < 1 { 1 } else if x > 64 { 64 } else { x }) as usize),
                None => None,
            },
            None => None,
        }
    }
}

/// The UCI `setoption` command: the thread count it asks for, if it names
/// the option `Threads` with a number.
pub fn handle_setoption(tokens: &[&str]) -> (r: Option<usize>)
    ensures
        r == spec_handle_setoption(tokens@),
        r matches Some(t) ==> 1 <= t <= 64,
{
    let n = tokens.len();
    if n == 0 || !text_eq(tokens[0], "name") {
        return None;
    }
    let mut idx: usize = 1;
    while idx < n && !text_eq(tokens[idx], "value")
        invariant
            n == tokens@.len(),
            1 <= idx <= n,
            value_index(tokens@, idx as int) == value_index(tokens@, 1),
        decreases n - idx,
    {
        idx = idx + 1;
    }
    assert(value_index(tokens@, idx as int) == idx);
    let name = join_tokens(tokens, 1, idx - 1);
    if !text_eq(name.as_str(), "Threads") {
        return None;
    }
    if n - idx <= 1 {
        return None;
    }
    match parse_unsigned(tokens[idx + 1], usize::MAX as u64) {
        Some(x) => {
            let t: u64 = if x < 1 { 1 } else if x > 64 { 64 } else { x };
            Some(t as usize)
        },
        None => None,
    }
}

/// What a `go` command asks for: a search to a fixed depth, or a search
/// against the clock up to a depth limit, knowing the game's ply.
#[derive(Clone, Copy, Debug, PartialEq, Eq, Structural)]
pub enum GoPlan {
    FixedDepth { depth: u32 },
    Timed { max_depth: u32, ply: u32 },
}

/// The plan for a `go` command: a fixed-depth search when a depth is given
/// and no clock or move time is; otherwise a timed search up to the given
/// depth (64 when none), never beyond 64, at the ply of the last position
/// in a history of `history_len` positions.
pub open spec fn spec_go_plan(params: GoParams, history_len: usize) -> GoPlan {
    if params.depth.is_some() && params.wtime_ms.is_none() && params.btime_ms.is_none()
        && params.movetime_ms.is_none() {
        GoPlan::FixedDepth { depth: params.depth.unwrap() }
    } else {
        let d = match params.depth {
            Some(d) => d,
            None => MAX_DEPTH,
        };
        GoPlan::Timed {
            max_depth: if d < MAX_DEPTH { d } else { MAX_DEPTH },
            ply: (if history_len == 0 { 0 } else { history_len - 1 }) as u32,
        }
    }
}

/// The UCI `go` command: its parameters and what they ask for.
pub fn plan_go(tokens: &[&str], history_len: usize) -> (r: (GoParams, GoPlan))
    ensures
        r.0 == spec_parse_go_params(tokens@),
        r.1 == spec_go_plan(r.0, history_len),
{
    let params = parse_go_params(tokens);
    if let Some(depth) = params.depth {
        if params.wtime_ms.is_none() && params.btime_ms.is_none() && params.movetime_ms.is_none() {
            return (params, GoPlan::FixedDepth { depth });
        }
    }
    let d = match params.depth {
        Some(d) => d,
        None => MAX_DEPTH,
    };
    let max_depth = if d < MAX_DEPTH { d } else { MAX_DEPTH };
    let last: usize = if history_len == 0 { 0 } else { history_len - 1 };
    let ply: u32 = #[verifier::truncate] (last as u32);
    (params, GoPlan::Timed { max_depth, ply })
}

} // verus!
