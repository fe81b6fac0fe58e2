//! Between a [`BoardState`] and the engine's board.
//!
//! The engine's board is built square by square and read back square by
//! square. It has no call that sets an en-passant square, so a position with
//! one is built a half-move early, with the pawn still on its starting row,
//! and the pawn is then moved two rows.

use vstd::prelude::*;
use crate::board::{BoardState, BoardView, Castling};
use crate::engine::{
    board_allow_kingside, board_allow_queenside, board_double_step, board_en_passant,
    board_forbid_kingside, board_forbid_queenside, board_ok, board_piece_at, board_put,
    board_turn, board_view, board_with_turn, boards_equal, empty_board, empty_view, well_placed,
};
use crate::moves::{Color, Piece, PieceKind, Square};

verus! {

/// The row that a pawn of the given colour starts on.
pub open spec fn pawn_home_row(color: Color) -> int {
    match color {
        Color::White => 1,
        Color::Black => 6,
    }
}

/// The row that a pawn of the given colour reaches with a double step.
pub open spec fn pawn_far_row(color: Color) -> int {
    match color {
        Color::White => 3,
        Color::Black => 4,
    }
}

/// The squares from which the engine's board is built: those of the
/// position, but where the position has an en-passant square, the pawn
/// behind it is back on its starting row.
pub open spec fn staged_squares(v: BoardView) -> Seq<Option<Piece>> {
    match v.en_passant {
        None => v.squares,
        Some(sq) => {
            let pusher = v.turn.opponent();
            v.squares.update(pawn_far_row(pusher) * 8 + sq.col, None).update(
                pawn_home_row(pusher) * 8 + sq.col,
                Some(Piece { color: pusher, kind: PieceKind::Pawn }),
            )
        },
    }
}

/// Whether the engine can hold a position: it has 64 squares, and its
/// en-passant square, if there is one, fits it.
pub open spec fn realizable(v: BoardView) -> bool {
    v.squares.len() == 64 && v.en_passant_fits()
}

/// Whether the en-passant square of a position fits it.
fn en_passant_fits(state: &BoardState) -> (r: bool)
    requires
        state@.squares.len() == 64,
    ensures
        r == state@.en_passant_fits(),
{
    match state.en_passant {
        None => true,
        Some(sq) => {
            if sq.col < 0 || sq.col >= 8 {
                return false;
            }
            let (ep_row, far, home): (i32, usize, usize) = match state.turn {
                Color::White => (5, 4, 6),
                Color::Black => (2, 3, 1),
            };
            if sq.row != ep_row {
                return false;
            }
            let col = sq.col as usize;
            let pawn_there = match state.squares[far * 8 + col] {
                Some(p) => p.color == state.turn.opponent() && p.kind == PieceKind::Pawn,
                None => false,
            };
            let home_empty = match state.squares[home * 8 + col] {
                Some(_) => false,
                None => true,
            };
            pawn_there && home_empty
        },
    }
}

/// Whether the engine can hold a position.
pub fn is_realizable(state: &BoardState) -> (r: bool)
    ensures
        r == realizable(state@),
{
    state.squares.len() == 64 && en_passant_fits(state)
}

/// Puts the staged squares of a position on an empty board of the engine.
fn place_pieces(state: &BoardState) -> (b: chess_engine::Board)
    requires
        realizable(state@),
    ensures
        well_placed(b),
        board_view(b) == (BoardView { squares: staged_squares(state@), ..empty_view() }),
{
    let mut b = empty_board();
    let pusher = state.turn.opponent();
    let (far, home): (usize, usize) = match pusher {
        Color::White => (3, 1),
        Color::Black => (4, 6),
    };
    let ghost staged = staged_squares(state@);
    let mut i: usize = 0;
    while i < 64
        invariant
            i <= 64,
            realizable(state@),
            staged == staged_squares(state@),
            pusher == state@.turn.opponent(),
            far == pawn_far_row(pusher),
            home == pawn_home_row(pusher),
            well_placed(b),
            board_view(b).squares.len() == 64,
            board_view(b).turn == Color::White,
            board_view(b).castling == empty_view().castling,
            board_view(b).en_passant == None::<Square>,
            forall|j: int| 0 <= j < i ==> board_view(b).squares[j] == staged[j],
            forall|j: int| i <= j < 64 ==> board_view(b).squares[j] == None::<Piece>,
        decreases 64 - i,
    {
        let row = i / 8;
        let col = i % 8;
        let cell = match state.en_passant {
            None => state.squares[i],
            Some(sq) => {
                if i == home * 8 + sq.col as usize {
                    Some(Piece { color: pusher, kind: PieceKind::Pawn })
                } else if i == far * 8 + sq.col as usize {
                    None
                } else {
                    state.squares[i]
                }
            },
        };
        assert(cell == staged[i as int]);
        match cell {
            Some(piece) => {
                b = board_put(b, piece, row as i32, col as i32);
            },
            None => {},
        }
        i = i + 1;
    }
    assert(board_view(b).squares =~= staged);
    b
}

/// The engine's board for a position, where the engine can hold it.
pub fn to_engine(state: &BoardState) -> (r: Option<chess_engine::Board>)
    ensures
        r is Some <==> realizable(state@),
        r matches Some(b) ==> board_ok(b) && board_view(b) == state@,
{
    if !is_realizable(state) {
        return None;
    }
    let mut b = place_pieces(state);
    if state.castling.white_kingside {
        b = board_allow_kingside(b, Color::White);
    }
    if state.castling.white_queenside {
        b = board_allow_queenside(b, Color::White);
    }
    if state.castling.black_kingside {
        b = board_allow_kingside(b, Color::Black);
    }
    if state.castling.black_queenside {
        b = board_allow_queenside(b, Color::Black);
    }
    assert(board_view(b).castling == state.castling);
    match state.en_passant {
        None => {
            b = board_with_turn(b, state.turn);
        },
        Some(sq) => {
            let pusher = state.turn.opponent();
            let (home, far): (i32, i32) = match pusher {
                Color::White => (1, 3),
                Color::Black => (6, 4),
            };
            b = board_with_turn(b, pusher);
            b = board_double_step(
                b,
                Square { row: home, col: sq.col },
                Square { row: far, col: sq.col },
            );
            assert(board_view(b).squares =~= state@.squares);
        },
    }
    Some(b)
}

/// Whether a colour may still castle on the king's side.
pub open spec fn kingside_right(c: Castling, color: Color) -> bool {
    match color {
        Color::White => c.white_kingside,
        Color::Black => c.black_kingside,
    }
}

/// Whether a colour may still castle on the queen's side.
pub open spec fn queenside_right(c: Castling, color: Color) -> bool {
    match color {
        Color::White => c.white_queenside,
        Color::Black => c.black_queenside,
    }
}

/// Whether a colour may still castle on the king's side of a board of the
/// engine. The engine has no call that reads a castling right, so the right
/// is switched off on a copy: the copy differs exactly when the right was
/// on.
fn has_kingside_right(b: &chess_engine::Board, color: Color) -> (r: bool)
    requires
        well_placed(*b),
        board_view(*b).squares.len() == 64,
    ensures
        r == kingside_right(board_view(*b).castling, color),
{
    let without = board_forbid_kingside(*b, color);
    !boards_equal(&without, b)
}

/// Whether a colour may still castle on the queen's side of a board of the
/// engine, read as in [`has_kingside_right`].
fn has_queenside_right(b: &chess_engine::Board, color: Color) -> (r: bool)
    requires
        well_placed(*b),
        board_view(*b).squares.len() == 64,
    ensures
        r == queenside_right(board_view(*b).castling, color),
{
    let without = board_forbid_queenside(*b, color);
    !boards_equal(&without, b)
}

/// The position that a board of the engine holds. The board must be in
/// order, as is one that [`to_engine`] has built or the engine has played
/// on.
pub fn from_engine(b: &chess_engine::Board) -> (r: BoardState)
    requires
        well_placed(*b),
        board_view(*b).squares.len() == 64,
    ensures
        r@ == board_view(*b),
{
    let mut squares: Vec<Option<Piece>> = Vec::new();
    let mut i: usize = 0;
    while i < 64
        invariant
            i <= 64,
            board_view(*b).squares.len() == 64,
            squares@.len() == i,
            forall|j: int| 0 <= j < i ==> squares@[j] == board_view(*b).squares[j],
        decreases 64 - i,
    {
        let row = i / 8;
        let col = i % 8;
        squares.push(board_piece_at(b, row as i32, col as i32));
        i = i + 1;
    }
    assert(squares@ =~= board_view(*b).squares);
    let castling = Castling {
        white_kingside: has_kingside_right(b, Color::White),
        white_queenside: has_queenside_right(b, Color::White),
        black_kingside: has_kingside_right(b, Color::Black),
        black_queenside: has_queenside_right(b, Color::Black),
    };
    BoardState { squares, turn: board_turn(b), castling, en_passant: board_en_passant(b) }
}

} // verus!
