//! The position of a game as plain values.

use vstd::prelude::*;
use crate::moves::{Color, Piece, PieceKind, Square};

verus! {

/// Which castles each side may still make.
#[derive(Clone, Copy, Debug, PartialEq, Eq, Structural)]
pub struct Castling {
    pub white_kingside: bool,
    pub white_queenside: bool,
    pub black_kingside: bool,
    pub black_queenside: bool,
}

/// A position as a mathematical value: the 64 squares in row-major order
/// from a1 (row 0 is the first rank, column 0 the a-file), the side to move,
/// the castling rights and the square that a pawn may capture onto in
/// passing, if there is one.
pub struct BoardView {
    pub squares: Seq<Option<Piece>>,
    pub turn: Color,
    pub castling: Castling,
    pub en_passant: Option<Square>,
}

/// A position. The clocks of a game are no part of it.
#[derive(Debug)]
pub struct BoardState {
    pub squares: Vec<Option<Piece>>,
    pub turn: Color,
    pub castling: Castling,
    pub en_passant: Option<Square>,
}

impl View for BoardState {
    type V = BoardView;

    open spec fn view(&self) -> BoardView {
        BoardView {
            squares: self.squares@,
            turn: self.turn,
            castling: self.castling,
            en_passant: self.en_passant,
        }
    }
}

impl BoardView {
    /// A position has 64 squares, and its en-passant square lies on the board.
    pub open spec fn wf(self) -> bool {
        &&& self.squares.len() == 64
        &&& self.en_passant matches Some(sq) ==> sq.on_board()
    }

    /// The piece on the square at `row` and `col`.
    pub open spec fn at(self, row: int, col: int) -> Option<Piece> {
        self.squares[row * 8 + col]
    }

    /// Whether the en-passant square, if there is one, fits the position: it
    /// lies behind a pawn of the side that has just moved, which stands two
    /// rows from its starting row, and the square that this pawn came from
    /// is empty.
    pub open spec fn en_passant_fits(self) -> bool {
        match self.en_passant {
            None => true,
            Some(sq) => {
                &&& 0 <= sq.col < 8
                &&& match self.turn {
                    Color::White => {
                        &&& sq.row == 5
                        &&& self.at(4, sq.col as int) == Some(
                            Piece { color: Color::Black, kind: PieceKind::Pawn },
                        )
                        &&& self.at(6, sq.col as int) is None
                    },
                    Color::Black => {
                        &&& sq.row == 2
                        &&& self.at(3, sq.col as int) == Some(
                            Piece { color: Color::White, kind: PieceKind::Pawn },
                        )
                        &&& self.at(1, sq.col as int) is None
                    },
                }
            },
        }
    }
}

impl BoardState {
    /// See [`BoardView::wf`].
    pub open spec fn wf(&self) -> bool {
        self@.wf()
    }
}

} // verus!
