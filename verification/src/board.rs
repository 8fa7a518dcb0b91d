//! The board model: plain values that stand for a `chess::Board`, and the
//! calls into the `chess` crate that only it can compute (move generation,
//! making moves, attack tables, FEN parsing).
use vstd::prelude::*;
use crate::bits::{bit, has_bit};

verus! {

#[verifier::external_type_specification]
#[verifier::external_body]
pub struct ExChessBoard(chess::Board);

#[verifier::external_type_specification]
#[verifier::external_body]
pub struct ExChessMove(chess::ChessMove);

#[verifier::external_type_specification]
#[verifier::external_body]
pub struct ExChessPiece(chess::Piece);

#[verifier::external_type_specification]
#[verifier::external_body]
pub struct ExChessCastleRights(chess::CastleRights);

/// The side a piece belongs to, or the side to move.
#[derive(Clone, Copy, PartialEq, Eq, Structural, Debug)]
pub enum Color {
    White,
    Black,
}

/// A kind of chess piece.
#[derive(Clone, Copy, PartialEq, Eq, Structural, Debug)]
pub enum PieceKind {
    Pawn,
    Knight,
    Bishop,
    Rook,
    Queen,
    King,
}

/// The castling rights of one side.
#[derive(Clone, Copy, PartialEq, Eq, Structural, Debug)]
pub enum CastlingRights {
    NoRights,
    KingSide,
    QueenSide,
    Both,
}

/// Whether the game goes on, or how it ended.
#[derive(Clone, Copy, PartialEq, Eq, Structural, Debug)]
pub enum BoardStatus {
    Ongoing,
    Stalemate,
    Checkmate,
}

/// A move: source square, destination square (0 = a1, 63 = h8) and promotion.
#[derive(Clone, Copy, PartialEq, Eq, Structural, Debug)]
pub struct Move {
    pub from: u8,
    pub to: u8,
    pub promotion: Option<PieceKind>,
}

impl Color {
    /// The other side.
    pub open spec fn spec_opponent(self) -> Color {
        match self {
            Color::White => Color::Black,
            Color::Black => Color::White,
        }
    }

    /// The other side.
    #[verifier::when_used_as_spec(spec_opponent)]
    pub fn opponent(self) -> (r: Color)
        ensures
            r == self.spec_opponent(),
    {
        match self {
            Color::White => Color::Black,
            Color::Black => Color::White,
        }
    }
}

/// A chess position as plain values: one bitboard per piece kind and per
/// colour, the occupancy, the side to move, castling rights, the en-passant
/// square, the checking pieces and the Zobrist hash, as the `chess` crate
/// reports them for its board.
#[derive(Clone, Copy, PartialEq, Eq, Structural, Debug)]
pub struct Position {
    pub pawns: u64,
    pub knights: u64,
    pub bishops: u64,
    pub rooks: u64,
    pub queens: u64,
    pub kings: u64,
    pub white: u64,
    pub black: u64,
    pub occupied: u64,
    pub side_to_move: Color,
    pub white_castle: CastlingRights,
    pub black_castle: CastlingRights,
    pub en_passant: Option<u8>,
    pub white_king: u8,
    pub black_king: u8,
    pub checkers: u64,
    pub hash: u64,
}

/// The rank (0..8) of a square index, as `Square::get_rank` computes it.
pub open spec fn rank_of(sq: u8) -> int {
    ((sq >> 3u8) & 7u8) as int
}

/// The file (0..8) of a square index, as `Square::get_file` computes it.
pub open spec fn file_of(sq: u8) -> int {
    (sq & 7u8) as int
}

/// The rank of a square.
pub fn square_rank(sq: u8) -> (r: u8)
    ensures
        r == rank_of(sq),
        r < 8,
{
    let r = (sq >> 3u8) & 7u8;
    assert((sq >> 3u8) & 7u8 < 8) by (bit_vector);
    r
}

/// The file of a square.
pub fn square_file(sq: u8) -> (r: u8)
    ensures
        r == file_of(sq),
        r < 8,
{
    assert(sq & 7u8 < 8) by (bit_vector);
    sq & 7u8
}

impl Position {
    /// The bitboard of one piece kind (both colours).
    pub open spec fn spec_pieces(&self, piece: PieceKind) -> u64 {
        match piece {
            PieceKind::Pawn => self.pawns,
            PieceKind::Knight => self.knights,
            PieceKind::Bishop => self.bishops,
            PieceKind::Rook => self.rooks,
            PieceKind::Queen => self.queens,
            PieceKind::King => self.kings,
        }
    }

    /// The bitboard of one colour.
    pub open spec fn spec_color_bb(&self, color: Color) -> u64 {
        match color {
            Color::White => self.white,
            Color::Black => self.black,
        }
    }

    /// The square of a side's king, as `Board::king_square` reports it.
    pub open spec fn spec_king_square(&self, color: Color) -> u8 {
        match color {
            Color::White => self.white_king,
            Color::Black => self.black_king,
        }
    }

    /// The piece on a square, as `Board::piece_on` decides it.
    pub open spec fn spec_piece_on(&self, sq: u64) -> Option<PieceKind> {
        if !bit(self.occupied, sq) {
            None
        } else if bit(self.pawns ^ self.knights ^ self.bishops, sq) {
            if bit(self.pawns, sq) {
                Some(PieceKind::Pawn)
            } else if bit(self.knights, sq) {
                Some(PieceKind::Knight)
            } else {
                Some(PieceKind::Bishop)
            }
        } else if bit(self.rooks, sq) {
            Some(PieceKind::Rook)
        } else if bit(self.queens, sq) {
            Some(PieceKind::Queen)
        } else {
            Some(PieceKind::King)
        }
    }

    /// The colour of the piece on a square, as `Board::color_on` decides it.
    pub open spec fn spec_color_on(&self, sq: u64) -> Option<Color> {
        if bit(self.white, sq) {
            Some(Color::White)
        } else if bit(self.black, sq) {
            Some(Color::Black)
        } else {
            None
        }
    }

    /// The squares holding one kind of piece, of either colour.
    #[verifier::when_used_as_spec(spec_pieces)]
    pub fn pieces(&self, piece: PieceKind) -> (r: u64)
        ensures
            r == self.spec_pieces(piece),
    {
        match piece {
            PieceKind::Pawn => self.pawns,
            PieceKind::Knight => self.knights,
            PieceKind::Bishop => self.bishops,
            PieceKind::Rook => self.rooks,
            PieceKind::Queen => self.queens,
            PieceKind::King => self.kings,
        }
    }

    /// The squares holding a side's pieces.
    #[verifier::when_used_as_spec(spec_color_bb)]
    pub fn color_bb(&self, color: Color) -> (r: u64)
        ensures
            r == self.spec_color_bb(color),
    {
        match color {
            Color::White => self.white,
            Color::Black => self.black,
        }
    }

    /// The square of a side's king.
    #[verifier::when_used_as_spec(spec_king_square)]
    pub fn king_square(&self, color: Color) -> (r: u8)
        ensures
            r == self.spec_king_square(color),
    {
        match color {
            Color::White => self.white_king,
            Color::Black => self.black_king,
        }
    }

    /// The piece on a square, if any.
    #[verifier::when_used_as_spec(spec_piece_on)]
    pub fn piece_on(&self, sq: u64) -> (r: Option<PieceKind>)
        requires
            sq < 64,
        ensures
            r == self.spec_piece_on(sq),
    {
        if !has_bit(self.occupied, sq) {
            None
        } else if has_bit(self.pawns ^ self.knights ^ self.bishops, sq) {
            if has_bit(self.pawns, sq) {
                Some(PieceKind::Pawn)
            } else if has_bit(self.knights, sq) {
                Some(PieceKind::Knight)
            } else {
                Some(PieceKind::Bishop)
            }
        } else if has_bit(self.rooks, sq) {
            Some(PieceKind::Rook)
        } else if has_bit(self.queens, sq) {
            Some(PieceKind::Queen)
        } else {
            Some(PieceKind::King)
        }
    }

    /// The colour of the piece on a square, if any.
    #[verifier::when_used_as_spec(spec_color_on)]
    pub fn color_on(&self, sq: u64) -> (r: Option<Color>)
        requires
            sq < 64,
        ensures
            r == self.spec_color_on(sq),
    {
        if has_bit(self.white, sq) {
            Some(Color::White)
        } else if has_bit(self.black, sq) {
            Some(Color::Black)
        } else {
            None
        }
    }

    /// Whether the side to move is in check.
    pub fn in_check(&self) -> (r: bool)
        ensures
            r == (self.checkers != 0),
    {
        self.checkers != 0
    }
}

/// The status of a position, as `Board::status` defines it from the number
/// of legal moves and the checking pieces.
pub open spec fn spec_status(p: Position) -> BoardStatus {
    if spec_legal_moves(p).len() == 0 {
        if p.checkers == 0 {
            BoardStatus::Stalemate
        } else {
            BoardStatus::Checkmate
        }
    } else {
        BoardStatus::Ongoing
    }
}

/// The occupancy is the union of the two colours, as every board of the
/// `chess` crate keeps it (its `xor` updates the piece, colour and combined
/// bitboards together).
pub open spec fn consistent(p: Position) -> bool {
    p.occupied == (p.white | p.black)
}

/// A move on the board whose source holds a piece of the side to move.
pub open spec fn generated_move(p: Position, m: Move) -> bool {
    &&& m.from < 64
    &&& m.to < 64
    &&& bit(p.spec_color_bb(p.side_to_move), m.from as u64)
}

/// Squares of a move lie on the board.
pub open spec fn move_on_board(m: Move) -> bool {
    m.from < 64 && m.to < 64
}

/// The legal moves of a position, in the order `chess::MoveGen::new_legal`
/// yields them.
pub uninterp spec fn spec_legal_moves(p: Position) -> Seq<Move>;

/// The legal moves of a position whose destination lies in `mask`, in the
/// order `chess::MoveGen` yields them after `set_iterator_mask(mask)`.
pub uninterp spec fn spec_masked_moves(p: Position, mask: u64) -> Seq<Move>;

/// The position after a move, as `chess::Board::make_move_new` computes it.
pub uninterp spec fn spec_make_move(p: Position, m: Move) -> Position;

/// The position after passing the turn, as `chess::Board::null_move` computes it.
pub uninterp spec fn spec_null_move(p: Position) -> Position;

/// The position that `chess::Board::from_str` reads from a FEN text.
pub uninterp spec fn spec_board_from_fen(fen: Seq<char>) -> Option<Position>;

/// `chess::get_knight_moves`: the squares a knight on `sq` attacks.
pub uninterp spec fn spec_knight_attacks(sq: u8) -> u64;

/// `chess::get_king_moves`: the squares a king on `sq` attacks.
pub uninterp spec fn spec_king_attacks(sq: u8) -> u64;

/// `chess::get_bishop_moves`: the squares a bishop on `sq` attacks, given the occupancy.
pub uninterp spec fn spec_bishop_attacks(sq: u8, occupied: u64) -> u64;

/// `chess::get_rook_moves`: the squares a rook on `sq` attacks, given the occupancy.
pub uninterp spec fn spec_rook_attacks(sq: u8, occupied: u64) -> u64;

/// The standard starting position in FEN.
pub const START_FEN: &'static str = "rnbqkbnr/pppppppp/8/8/8/8/PPPPPPPP/RNBQKBNR w KQkq - 0 1";

/// A `chess::Board` together with the plain values that stand for it.  Every
/// value of this type is made by reading a board of the `chess` crate, so the
/// board is the one that the plain position describes.
#[derive(Clone, Copy)]
pub struct GameBoard {
    board: chess::Board,
    pos: Position,
}

impl View for GameBoard {
    type V = Position;

    closed spec fn view(&self) -> Position {
        self.pos
    }
}

/// Converts a piece kind to the `chess` crate's.
#[verifier::external_body]
fn piece_to_chess(p: PieceKind) -> chess::Piece {
    match p {
        PieceKind::Pawn => chess::Piece::Pawn,
        PieceKind::Knight => chess::Piece::Knight,
        PieceKind::Bishop => chess::Piece::Bishop,
        PieceKind::Rook => chess::Piece::Rook,
        PieceKind::Queen => chess::Piece::Queen,
        PieceKind::King => chess::Piece::King,
    }
}

/// Converts a piece kind from the `chess` crate's.
#[verifier::external_body]
fn piece_from_chess(p: chess::Piece) -> PieceKind {
    match p {
        chess::Piece::Pawn => PieceKind::Pawn,
        chess::Piece::Knight => PieceKind::Knight,
        chess::Piece::Bishop => PieceKind::Bishop,
        chess::Piece::Rook => PieceKind::Rook,
        chess::Piece::Queen => PieceKind::Queen,
        chess::Piece::King => PieceKind::King,
    }
}

/// Converts castling rights from the `chess` crate's.
#[verifier::external_body]
fn castle_from_chess(c: chess::CastleRights) -> CastlingRights {
    match c {
        chess::CastleRights::NoRights => CastlingRights::NoRights,
        chess::CastleRights::KingSide => CastlingRights::KingSide,
        chess::CastleRights::QueenSide => CastlingRights::QueenSide,
        chess::CastleRights::Both => CastlingRights::Both,
    }
}

/// Converts a move to the `chess` crate's `ChessMove`.
#[verifier::external_body]
fn move_to_chess(m: Move) -> chess::ChessMove
    requires
        move_on_board(m),
{
    let promotion = match m.promotion {
        None => None,
        Some(p) => Some(piece_to_chess(p)),
    };
    chess::ChessMove::new(chess::ALL_SQUARES[m.from as usize], chess::ALL_SQUARES[m.to as usize], promotion)
}

/// Converts a `ChessMove` of the `chess` crate to a move.
#[verifier::external_body]
fn move_from_chess(m: chess::ChessMove) -> Move {
    let promotion = match m.get_promotion() {
        None => None,
        Some(p) => Some(piece_from_chess(p)),
    };
    Move { from: m.get_source().to_index() as u8, to: m.get_dest().to_index() as u8, promotion }
}

/// `chess::Board::pieces`: the squares holding a kind of piece.
#[verifier::external_body]
fn board_pieces(b: &chess::Board, p: PieceKind) -> u64 {
    b.pieces(piece_to_chess(p)).0
}

/// `chess::Board::color_combined` of each colour and `chess::Board::combined`:
/// `(white, black, occupied)`.  The crate changes these three bitboards only
/// together, by xor-ing the same squares into a colour's bitboard and into the
/// occupancy (`Board::xor`), and never puts one square in both colours, so the
/// colours are disjoint and the occupancy is their union.
#[verifier::external_body]
fn board_occupancy(b: &chess::Board) -> (r: (u64, u64, u64))
    ensures
        r.0 & r.1 == 0,
        r.2 == r.0 ^ r.1,
{
    (b.color_combined(chess::Color::White).0, b.color_combined(chess::Color::Black).0, b.combined().0)
}

/// `chess::Board::side_to_move`.
#[verifier::external_body]
fn board_side(b: &chess::Board) -> Color {
    match b.side_to_move() {
        chess::Color::White => Color::White,
        chess::Color::Black => Color::Black,
    }
}

/// `chess::Board::castle_rights` of a colour.
#[verifier::external_body]
fn board_castle(b: &chess::Board, c: Color) -> CastlingRights {
    let color = match c {
        Color::White => chess::Color::White,
        Color::Black => chess::Color::Black,
    };
    castle_from_chess(b.castle_rights(color))
}

/// `chess::Board::en_passant`: the square of a pawn that may be taken en passant.
#[verifier::external_body]
fn board_en_passant(b: &chess::Board) -> Option<u8> {
    match b.en_passant() {
        None => None,
        Some(s) => Some(s.to_index() as u8),
    }
}

/// `chess::Board::king_square` of a colour.
#[verifier::external_body]
fn board_king(b: &chess::Board, c: Color) -> u8 {
    let color = match c {
        Color::White => chess::Color::White,
        Color::Black => chess::Color::Black,
    };
    b.king_square(color).to_index() as u8
}

/// `chess::Board::checkers`: the pieces giving check.
#[verifier::external_body]
fn board_checkers(b: &chess::Board) -> u64 {
    b.checkers().0
}

/// `chess::Board::get_hash`: the Zobrist hash of the position.
#[verifier::external_body]
fn board_hash(b: &chess::Board) -> u64 {
    b.get_hash()
}

/// Reads the plain values of a `chess::Board`: its colours are disjoint and
/// its occupancy is their union.
fn read_position(b: &chess::Board) -> (r: Position)
    ensures
        consistent(r),
        r.white & r.black == 0,
{
    let (white, black, occupied) = board_occupancy(b);
    assert(white & black == 0u64 ==> white ^ black == white | black) by (bit_vector);
    Position {
        pawns: board_pieces(b, PieceKind::Pawn),
        knights: board_pieces(b, PieceKind::Knight),
        bishops: board_pieces(b, PieceKind::Bishop),
        rooks: board_pieces(b, PieceKind::Rook),
        queens: board_pieces(b, PieceKind::Queen),
        kings: board_pieces(b, PieceKind::King),
        white,
        black,
        occupied,
        side_to_move: board_side(b),
        white_castle: board_castle(b, Color::White),
        black_castle: board_castle(b, Color::Black),
        en_passant: board_en_passant(b),
        white_king: board_king(b, Color::White),
        black_king: board_king(b, Color::Black),
        checkers: board_checkers(b),
        hash: board_hash(b),
    }
}

/// `chess::get_knight_moves`.
#[verifier::external_body]
pub(crate) fn knight_attacks(sq: u8) -> (r: u64)
    requires
        sq < 64,
    ensures
        r == spec_knight_attacks(sq),
{
    chess::get_knight_moves(chess::ALL_SQUARES[sq as usize]).0
}

/// `chess::get_king_moves`.
#[verifier::external_body]
pub(crate) fn king_attacks(sq: u8) -> (r: u64)
    requires
        sq < 64,
    ensures
        r == spec_king_attacks(sq),
{
    chess::get_king_moves(chess::ALL_SQUARES[sq as usize]).0
}

/// `chess::get_bishop_moves`.
#[verifier::external_body]
pub(crate) fn bishop_attacks(sq: u8, occupied: u64) -> (r: u64)
    requires
        sq < 64,
    ensures
        r == spec_bishop_attacks(sq, occupied),
{
    chess::get_bishop_moves(chess::ALL_SQUARES[sq as usize], chess::BitBoard(occupied)).0
}

/// `chess::get_rook_moves`.
#[verifier::external_body]
pub(crate) fn rook_attacks(sq: u8, occupied: u64) -> (r: u64)
    requires
        sq < 64,
    ensures
        r == spec_rook_attacks(sq, occupied),
{
    chess::get_rook_moves(chess::ALL_SQUARES[sq as usize], chess::BitBoard(occupied)).0
}

impl GameBoard {
    /// The plain values of the board.
    pub fn position(&self) -> (r: &Position)
        ensures
            *r == self@,
    {
        &self.pos
    }

    /// `chess::Board::from_str`: reads a FEN text; `None` where the crate
    /// refuses it.
    #[verifier::external_body]
    pub fn from_fen(fen: &str) -> (r: Option<GameBoard>)
        ensures
            match r {
                Some(b) => spec_board_from_fen(fen@) == Some(b@) && consistent(b@),
                None => spec_board_from_fen(fen@).is_none(),
            },
    {
        match <chess::Board as std::str::FromStr>::from_str(fen) {
            Ok(b) => Some(GameBoard { pos: read_position(&b), board: b }),
            Err(_) => None,
        }
    }

    /// `chess::Board::default`: the starting position, which the crate reads
    /// from the starting FEN.
    #[verifier::external_body]
    pub fn start() -> (r: GameBoard)
        ensures
            spec_board_from_fen(START_FEN@) == Some(r@),
            consistent(r@),
    {
        let b = <chess::Board as std::default::Default>::default();
        GameBoard { pos: read_position(&b), board: b }
    }

    /// `chess::MoveGen::new_legal`, collected: the legal moves in generation order.
    #[verifier::external_body]
    pub fn legal_moves(&self) -> (r: Vec<Move>)
        ensures
            r@ == spec_legal_moves(self@),
            forall|i: int| 0 <= i < r@.len() ==> generated_move(self@, #[trigger] r@[i]),
            forall|i: int| 0 <= i < r@.len() ==> spec_legal_moves(self@).contains(#[trigger] r@[i]),
    {
        chess::MoveGen::new_legal(&self.board).map(move_from_chess).collect()
    }

    /// `chess::MoveGen::set_iterator_mask`: the legal moves that land in `mask`.
    #[verifier::external_body]
    pub fn masked_moves(&self, mask: u64) -> (r: Vec<Move>)
        ensures
            r@ == spec_masked_moves(self@, mask),
            forall|i: int| 0 <= i < r@.len() ==> generated_move(self@, #[trigger] r@[i]),
            forall|i: int| 0 <= i < r@.len() ==> spec_legal_moves(self@).contains(#[trigger] r@[i]),
    {
        let mut gen = chess::MoveGen::new_legal(&self.board);
        gen.set_iterator_mask(chess::BitBoard(mask));
        gen.map(move_from_chess).collect()
    }

    /// `chess::Board::legal`: whether a move is among the legal moves.
    #[verifier::external_body]
    pub fn is_legal(&self, m: Move) -> (r: bool)
        requires
            move_on_board(m),
        ensures
            r == spec_legal_moves(self@).contains(m),
    {
        self.board.legal(move_to_chess(m))
    }

    /// `chess::Board::status`: ongoing while a legal move exists, else
    /// checkmate or stalemate by whether the king is attacked.
    #[verifier::external_body]
    pub fn status(&self) -> (r: BoardStatus)
        ensures
            r == spec_status(self@),
    {
        match self.board.status() {
            chess::BoardStatus::Ongoing => BoardStatus::Ongoing,
            chess::BoardStatus::Stalemate => BoardStatus::Stalemate,
            chess::BoardStatus::Checkmate => BoardStatus::Checkmate,
        }
    }

    /// `chess::Board::make_move_new`, on a legal move.
    #[verifier::external_body]
    pub fn make_move(&self, m: Move) -> (r: GameBoard)
        requires
            move_on_board(m),
            spec_legal_moves(self@).contains(m),
        ensures
            r@ == spec_make_move(self@, m),
            consistent(r@),
    {
        let b = self.board.make_move_new(move_to_chess(m));
        GameBoard { pos: read_position(&b), board: b }
    }

    /// `chess::Board::null_move`: passes the turn; `None` when in check.
    #[verifier::external_body]
    pub fn null_move(&self) -> (r: Option<GameBoard>)
        ensures
            r.is_none() <==> self@.checkers != 0,
            r matches Some(b) ==> b@ == spec_null_move(self@) && consistent(b@),
    {
        match self.board.null_move() {
            Some(b) => Some(GameBoard { pos: read_position(&b), board: b }),
            None => None,
        }
    }
}

} // verus!
