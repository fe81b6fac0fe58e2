//! The boundary to the chess engine.
//!
//! The engine's board is carried as an opaque value. What it holds has a
//! name, [`board_view`], and each call into the engine has a small function
//! here whose contract says, over that name, what the engine's source shows
//! of the call. Nothing in this file is proved; the conversions between a
//! [`BoardState`] and the engine's board are, in `crate::position`.

use vstd::prelude::*;
use vstd::string::*;
use crate::board::{BoardView, Castling};
use crate::token::splits_a_character;
use crate::moves::{Color, Move, Piece, PieceKind, Square};

verus! {

/// The engine's board.
#[verifier::external_type_specification]
#[verifier::external_body]
pub struct ExBoard(chess_engine::Board);

/// What a board of the engine holds: the piece on each square, the side to
/// move, the castling rights and the en-passant square.
pub uninterp spec fn board_view(b: chess_engine::Board) -> BoardView;

/// Whether every piece on a board of the engine is recorded with the
/// position of the square that holds it. The engine keeps this in every move
/// it makes, and relies on it.
pub uninterp spec fn well_placed(b: chess_engine::Board) -> bool;

/// What the engine reads a move token as, if it can read it.
pub uninterp spec fn parsed_move(token: Seq<char>) -> Option<Move>;

/// What the engine's board says to a move played in a position.
pub uninterp spec fn play_outcome(board: BoardView, m: Move) -> PlayView;

/// The move that the engine's search picks in a position, looking `depth`
/// moves ahead.
pub uninterp spec fn best_reply(board: BoardView, depth: int) -> Move;

/// What a board says to a move, with the next position as a value.
pub enum PlayView {
    Continuing(BoardView),
    Victory,
    Stalemate,
    Illegal,
}

/// What a board says to a move.
pub enum PlayResult {
    /// The move was played and the game goes on from the given board.
    Continuing(chess_engine::Board),
    /// The move ended the game with a winner.
    Victory,
    /// The move ended the game without a winner.
    Stalemate,
    /// The move may not be played.
    Illegal,
}

impl View for PlayResult {
    type V = PlayView;

    open spec fn view(&self) -> PlayView {
        match self {
            PlayResult::Continuing(b) => PlayView::Continuing(board_view(*b)),
            PlayResult::Victory => PlayView::Victory,
            PlayResult::Stalemate => PlayView::Stalemate,
            PlayResult::Illegal => PlayView::Illegal,
        }
    }
}

/// What the engine needs of a board to work on it: 64 squares, every piece
/// recorded where it stands, and an en-passant square, if there is one, on
/// the board.
pub open spec fn board_ok(b: chess_engine::Board) -> bool {
    &&& well_placed(b)
    &&& board_view(b).squares.len() == 64
    &&& board_view(b).en_passant matches Some(sq) ==> sq.on_board()
}

/// The board with no piece on it, no castling right, no en-passant square
/// and White to move.
pub open spec fn empty_view() -> BoardView {
    BoardView {
        squares: Seq::new(64, |i: int| None),
        turn: Color::White,
        castling: Castling {
            white_kingside: false,
            white_queenside: false,
            black_kingside: false,
            black_queenside: false,
        },
        en_passant: None,
    }
}

/// `BoardBuilder::default().build()`: the engine's empty board, on which
/// the builder has switched off every castling right.
#[verifier::external_body]
pub(crate) fn empty_board() -> (r: chess_engine::Board)
    ensures
        well_placed(r),
        board_view(r) == empty_view(),
{
    chess_engine::BoardBuilder::default().build()
}

/// `BoardBuilder::piece`: the board with the piece put on the square at
/// `row` and `col`, whatever stood there, and nothing else changed. The
/// piece is recorded with that square's position.
#[verifier::external_body]
pub(crate) fn board_put(b: chess_engine::Board, piece: Piece, row: i32, col: i32) -> (r:
    chess_engine::Board)
    requires
        0 <= row < 8,
        0 <= col < 8,
        board_view(b).squares.len() == 64,
    ensures
        well_placed(b) ==> well_placed(r),
        board_view(r) == (BoardView {
            squares: board_view(b).squares.update(row * 8 + col, Some(piece)),
            ..board_view(b)
        }),
{
    let pos = chess_engine::Position::new(row, col);
    let color = match piece.color {
        Color::White => chess_engine::Color::White,
        Color::Black => chess_engine::Color::Black,
    };
    let p = match piece.kind {
        PieceKind::King => chess_engine::Piece::King(color, pos),
        PieceKind::Queen => chess_engine::Piece::Queen(color, pos),
        PieceKind::Rook => chess_engine::Piece::Rook(color, pos),
        PieceKind::Bishop => chess_engine::Piece::Bishop(color, pos),
        PieceKind::Knight => chess_engine::Piece::Knight(color, pos),
        PieceKind::Pawn => chess_engine::Piece::Pawn(color, pos),
    };
    chess_engine::BoardBuilder::from(b).piece(p).build()
}

/// The castling rights with the king's side switched on for one colour.
pub open spec fn allow_kingside(c: Castling, color: Color) -> Castling {
    match color {
        Color::White => Castling { white_kingside: true, ..c },
        Color::Black => Castling { black_kingside: true, ..c },
    }
}

/// The castling rights with the queen's side switched on for one colour.
pub open spec fn allow_queenside(c: Castling, color: Color) -> Castling {
    match color {
        Color::White => Castling { white_queenside: true, ..c },
        Color::Black => Castling { black_queenside: true, ..c },
    }
}

/// `BoardBuilder::enable_kingside_castle`: the board with that one right
/// switched on and nothing else changed.
#[verifier::external_body]
pub(crate) fn board_allow_kingside(b: chess_engine::Board, color: Color) -> (r:
    chess_engine::Board)
    ensures
        well_placed(r) == well_placed(b),
        board_view(r) == (BoardView {
            castling: allow_kingside(board_view(b).castling, color),
            ..board_view(b)
        }),
{
    let c = match color {
        Color::White => chess_engine::Color::White,
        Color::Black => chess_engine::Color::Black,
    };
    chess_engine::BoardBuilder::from(b).enable_kingside_castle(c).build()
}

/// `BoardBuilder::enable_queenside_castle`: the board with that one right
/// switched on and nothing else changed.
#[verifier::external_body]
pub(crate) fn board_allow_queenside(b: chess_engine::Board, color: Color) -> (r:
    chess_engine::Board)
    ensures
        well_placed(r) == well_placed(b),
        board_view(r) == (BoardView {
            castling: allow_queenside(board_view(b).castling, color),
            ..board_view(b)
        }),
{
    let c = match color {
        Color::White => chess_engine::Color::White,
        Color::Black => chess_engine::Color::Black,
    };
    chess_engine::BoardBuilder::from(b).enable_queenside_castle(c).build()
}

/// `Board::set_turn`: the board with the given side to move and nothing
/// else changed.
#[verifier::external_body]
pub(crate) fn board_with_turn(b: chess_engine::Board, color: Color) -> (r: chess_engine::Board)
    ensures
        well_placed(r) == well_placed(b),
        board_view(r) == (BoardView { turn: color, ..board_view(b) }),
{
    let c = match color {
        Color::White => chess_engine::Color::White,
        Color::Black => chess_engine::Color::Black,
    };
    b.set_turn(c)
}

/// Whether `from` and `to` are the two ends of the double step of a pawn of
/// the side to move from its starting row, in a position without an
/// en-passant square.
pub open spec fn is_double_step(v: BoardView, from: Square, to: Square) -> bool {
    &&& v.en_passant is None
    &&& 0 <= from.col < 8
    &&& to.col == from.col
    &&& v.squares[from.row * 8 + from.col] == Some(Piece { color: v.turn, kind: PieceKind::Pawn })
    &&& match v.turn {
        Color::White => from.row == 1 && to.row == 3,
        Color::Black => from.row == 6 && to.row == 4,
    }
}

/// `Evaluate::apply_eval_move` with a move of a piece, on the one kind of
/// move that this crate makes with it: the double step of a pawn from its
/// starting row. The engine moves the piece without asking whether the move
/// is legal: the pawn leaves `from` and stands on `to`, the square between
/// them becomes the en-passant square, the castling rights stay and the
/// turn passes to the other side.
#[verifier::external_body]
pub(crate) fn board_double_step(b: chess_engine::Board, from: Square, to: Square) -> (r:
    chess_engine::Board)
    requires
        well_placed(b),
        board_view(b).squares.len() == 64,
        is_double_step(board_view(b), from, to),
    ensures
        well_placed(r),
        board_view(r) == (BoardView {
            squares: board_view(b).squares.update(from.row * 8 + from.col, None).update(
                to.row * 8 + to.col,
                Some(Piece { color: board_view(b).turn, kind: PieceKind::Pawn }),
            ),
            turn: board_view(b).turn.opponent(),
            castling: board_view(b).castling,
            en_passant: Some(
                Square {
                    row: if board_view(b).turn == Color::White {
                        2i32
                    } else {
                        5i32
                    },
                    col: from.col,
                },
            ),
        }),
{
    let m = chess_engine::Move::Piece(
        chess_engine::Position::new(from.row, from.col),
        chess_engine::Position::new(to.row, to.col),
    );
    chess_engine::Evaluate::apply_eval_move(&b, m)
}

/// `Board::get_piece`: the piece on the square at `row` and `col`.
#[verifier::external_body]
pub(crate) fn board_piece_at(b: &chess_engine::Board, row: i32, col: i32) -> (r: Option<Piece>)
    requires
        0 <= row < 8,
        0 <= col < 8,
        board_view(*b).squares.len() == 64,
    ensures
        r == board_view(*b).squares[row * 8 + col],
{
    let p = b.get_piece(chess_engine::Position::new(row, col))?;
    let color = match p.get_color() {
        chess_engine::Color::White => Color::White,
        chess_engine::Color::Black => Color::Black,
    };
    let kind = match p {
        chess_engine::Piece::King(..) => PieceKind::King,
        chess_engine::Piece::Queen(..) => PieceKind::Queen,
        chess_engine::Piece::Rook(..) => PieceKind::Rook,
        chess_engine::Piece::Bishop(..) => PieceKind::Bishop,
        chess_engine::Piece::Knight(..) => PieceKind::Knight,
        chess_engine::Piece::Pawn(..) => PieceKind::Pawn,
    };
    Some(Piece { color, kind })
}

/// `Board::get_turn_color`: the side to move.
#[verifier::external_body]
pub(crate) fn board_turn(b: &chess_engine::Board) -> (c: Color)
    ensures
        c == board_view(*b).turn,
{
    match b.get_turn_color() {
        chess_engine::Color::White => Color::White,
        chess_engine::Color::Black => Color::Black,
    }
}

/// `Board::get_en_passant`: the en-passant square, if there is one.
#[verifier::external_body]
pub(crate) fn board_en_passant(b: &chess_engine::Board) -> (r: Option<Square>)
    ensures
        r == board_view(*b).en_passant,
{
    match b.get_en_passant() {
        None => None,
        Some(p) => Some(Square { row: p.get_row(), col: p.get_col() }),
    }
}

/// The castling rights with the king's side switched off for one colour.
pub open spec fn forbid_kingside(c: Castling, color: Color) -> Castling {
    match color {
        Color::White => Castling { white_kingside: false, ..c },
        Color::Black => Castling { black_kingside: false, ..c },
    }
}

/// The castling rights with the queen's side switched off for one colour.
pub open spec fn forbid_queenside(c: Castling, color: Color) -> Castling {
    match color {
        Color::White => Castling { white_queenside: false, ..c },
        Color::Black => Castling { black_queenside: false, ..c },
    }
}

/// `BoardBuilder::disable_kingside_castle`: the board with that one right
/// switched off and nothing else changed.
#[verifier::external_body]
pub(crate) fn board_forbid_kingside(b: chess_engine::Board, color: Color) -> (r:
    chess_engine::Board)
    ensures
        well_placed(r) == well_placed(b),
        board_view(r) == (BoardView {
            castling: forbid_kingside(board_view(b).castling, color),
            ..board_view(b)
        }),
{
    let c = match color {
        Color::White => chess_engine::Color::White,
        Color::Black => chess_engine::Color::Black,
    };
    chess_engine::BoardBuilder::from(b).disable_kingside_castle(c).build()
}

/// `BoardBuilder::disable_queenside_castle`: the board with that one right
/// switched off and nothing else changed.
#[verifier::external_body]
pub(crate) fn board_forbid_queenside(b: chess_engine::Board, color: Color) -> (r:
    chess_engine::Board)
    ensures
        well_placed(r) == well_placed(b),
        board_view(r) == (BoardView {
            castling: forbid_queenside(board_view(b).castling, color),
            ..board_view(b)
        }),
{
    let c = match color {
        Color::White => chess_engine::Color::White,
        Color::Black => chess_engine::Color::Black,
    };
    chess_engine::BoardBuilder::from(b).disable_queenside_castle(c).build()
}

/// The `==` of the engine's boards, which compares every part of a board:
/// the squares with their pieces, the en-passant square, the castling
/// rights and the side to move. Two boards on which every piece is recorded
/// where it stands are equal exactly when they hold the same.
#[verifier::external_body]
pub(crate) fn boards_equal(a: &chess_engine::Board, b: &chess_engine::Board) -> (r: bool)
    requires
        well_placed(*a),
        well_placed(*b),
        board_view(*a).squares.len() == 64,
        board_view(*b).squares.len() == 64,
    ensures
        r == (board_view(*a) == board_view(*b)),
{
    a == b
}

/// `Move::parse`: the engine's reading of a move token. It knows the two
/// castles, the resignation and moves of a piece between two squares, never
/// a promotion. A square is read from a letter `a` to `h` and one digit, so
/// its column lies in `0..8` and its row in `-1..9`. Where the token, apart
/// from white space, is one word of four bytes, the engine cuts the word
/// after its second byte, and panics if that is inside a character: such a
/// token is left out.
#[verifier::external_body]
pub(crate) fn engine_parse_move(token: &str) -> (r: Option<Move>)
    requires
        !splits_a_character(token@),
    ensures
        r == parsed_move(token@),
        r matches Some(m) ==> !(m is Promotion) && m.near_board(),
{
    match chess_engine::Move::parse(token.to_string()) {
        Err(_) => None,
        Ok(chess_engine::Move::KingSideCastle) => Some(Move::KingSideCastle),
        Ok(chess_engine::Move::QueenSideCastle) => Some(Move::QueenSideCastle),
        Ok(chess_engine::Move::Resign) => Some(Move::Resign),
        Ok(chess_engine::Move::Piece(a, b)) => Some(
            Move::Piece(
                Square { row: a.get_row(), col: a.get_col() },
                Square { row: b.get_row(), col: b.get_col() },
            ),
        ),
    }
}

/// `Board::play_move`: the move is played for the side to move if the
/// engine finds it legal. The answer depends on the position and the move
/// alone. On a board that the engine hands back the turn has passed to the
/// other side, every piece is recorded where it stands, and the en-passant
/// square is none, or the square that a pawn has just passed over, or, after
/// a castle of a side without a king, which the engine lets pass and which
/// moves nothing, the square of the board before: a square on the board in
/// each case. The engine has no promotion among its moves, and it steps
/// from the squares of a move with plain `i32` arithmetic, so the move must
/// name squares near the board.
#[verifier::external_body]
pub(crate) fn engine_play(b: &chess_engine::Board, m: Move) -> (r: PlayResult)
    requires
        board_ok(*b),
        !(m is Promotion),
        m.near_board(),
    ensures
        r@ == play_outcome(board_view(*b), m),
        r matches PlayResult::Continuing(next) ==> board_ok(next),
        r matches PlayResult::Continuing(next) ==> board_view(next).turn == board_view(
            *b,
        ).turn.opponent(),
{
    let em = match m {
        Move::Piece(a, b) | Move::Promotion(a, b, _) => chess_engine::Move::Piece(
            chess_engine::Position::new(a.row, a.col),
            chess_engine::Position::new(b.row, b.col),
        ),
        Move::KingSideCastle => chess_engine::Move::KingSideCastle,
        Move::QueenSideCastle => chess_engine::Move::QueenSideCastle,
        Move::Resign => chess_engine::Move::Resign,
    };
    match b.play_move(em) {
        chess_engine::GameResult::Continuing(next) => PlayResult::Continuing(next),
        chess_engine::GameResult::Victory(_) => PlayResult::Victory,
        chess_engine::GameResult::Stalemate => PlayResult::Stalemate,
        chess_engine::GameResult::IllegalMove(_) => PlayResult::Illegal,
    }
}

/// `Evaluate::get_best_next_move`: the move that the engine's search rates
/// best among the legal moves of the side to move, or the resignation where
/// that side has no legal move. The engine lists a move of a piece as legal
/// only between two squares of the board, and never lists a promotion. The
/// search is a fixed computation on the position and the depth. It never
/// ends for a depth below zero.
#[verifier::external_body]
pub(crate) fn engine_best_move(b: &chess_engine::Board, depth: i32) -> (r: Move)
    requires
        board_ok(*b),
        0 <= depth,
    ensures
        r == best_reply(board_view(*b), depth as int),
        !(r is Promotion),
        r matches Move::Piece(from, to) ==> from.on_board() && to.on_board(),
{
    match chess_engine::Evaluate::get_best_next_move(b, depth).0 {
        chess_engine::Move::KingSideCastle => Move::KingSideCastle,
        chess_engine::Move::QueenSideCastle => Move::QueenSideCastle,
        chess_engine::Move::Resign => Move::Resign,
        chess_engine::Move::Piece(a, b) => Move::Piece(
            Square { row: a.get_row(), col: a.get_col() },
            Square { row: b.get_row(), col: b.get_col() },
        ),
    }
}

} // verus!
