//! Moves, squares and pieces as plain values, and the short notation in
//! which a move is written into a response.

use vstd::prelude::*;
use vstd::string::*;
use crate::text::push_char;

verus! {

/// The two sides.
#[derive(Clone, Copy, Debug, PartialEq, Eq, Structural)]
pub enum Color {
    White,
    Black,
}

impl Color {
    /// The other side.
    pub open spec fn spec_opponent(self) -> Color {
        match self {
            Color::White => Color::Black,
            Color::Black => Color::White,
        }
    }

    /// The other side.
    #[verifier::when_used_as_spec(spec_opponent)]
    pub fn opponent(self) -> (r: Color)
        ensures
            r == self.spec_opponent(),
    {
        match self {
            Color::White => Color::Black,
            Color::Black => Color::White,
        }
    }
}

/// The six kinds of piece.
#[derive(Clone, Copy, Debug, PartialEq, Eq, Structural)]
pub enum PieceKind {
    King,
    Queen,
    Rook,
    Bishop,
    Knight,
    Pawn,
}

/// A piece: its side and its kind.
#[derive(Clone, Copy, Debug, PartialEq, Eq, Structural)]
pub struct Piece {
    pub color: Color,
    pub kind: PieceKind,
}

/// A square by row and column. Row 0 is the first rank and column 0 the
/// a-file; a square of the board has both in `0..8`. Other values can be
/// held too: a move token may name a square beside the board.
#[derive(Clone, Copy, Debug, PartialEq, Eq, Structural)]
pub struct Square {
    pub row: i32,
    pub col: i32,
}

impl Square {
    /// Whether the square lies on the board.
    pub open spec fn spec_on_board(self) -> bool {
        0 <= self.row < 8 && 0 <= self.col < 8
    }

    /// Whether the square lies on the board.
    #[verifier::when_used_as_spec(spec_on_board)]
    pub fn on_board(self) -> (r: bool)
        ensures
            r == self.spec_on_board(),
    {
        0 <= self.row && self.row < 8 && 0 <= self.col && self.col < 8
    }

    /// Whether the square lies on the board or within a few steps of it.
    pub open spec fn spec_near_board(self) -> bool {
        -8 <= self.row < 16 && -8 <= self.col < 16
    }

    /// Whether the square lies on the board or within a few steps of it.
    #[verifier::when_used_as_spec(spec_near_board)]
    pub fn near_board(self) -> (r: bool)
        ensures
            r == self.spec_near_board(),
    {
        -8 <= self.row && self.row < 16 && -8 <= self.col && self.col < 16
    }

    /// The place of an on-board square in a row-major list of the 64 squares.
    pub open spec fn spec_index(self) -> int {
        self.row * 8 + self.col
    }
}

/// A move of the side whose turn it is.
#[derive(Clone, Copy, Debug, PartialEq, Eq, Structural)]
pub enum Move {
    /// A piece goes from the first square to the second.
    Piece(Square, Square),
    /// A pawn goes from the first square to the second and becomes a piece
    /// of the given kind.
    Promotion(Square, Square, PieceKind),
    KingSideCastle,
    QueenSideCastle,
    Resign,
}

impl Move {
    /// Whether the squares that the move names lie on or near the board.
    pub open spec fn spec_near_board(self) -> bool {
        match self {
            Move::Piece(from, to) => from.near_board() && to.near_board(),
            Move::Promotion(from, to, _) => from.near_board() && to.near_board(),
            _ => true,
        }
    }

    /// Whether the squares that the move names lie on or near the board.
    #[verifier::when_used_as_spec(spec_near_board)]
    pub fn near_board(self) -> (r: bool)
        ensures
            r == self.spec_near_board(),
    {
        match self {
            Move::Piece(from, to) => from.near_board() && to.near_board(),
            Move::Promotion(from, to, _) => from.near_board() && to.near_board(),
            _ => true,
        }
    }
}

/// The letter of a column: `a` to `h`, and `?` beside the board.
pub open spec fn file_char(col: int) -> char {
    if col == 0 {
        'a'
    } else if col == 1 {
        'b'
    } else if col == 2 {
        'c'
    } else if col == 3 {
        'd'
    } else if col == 4 {
        'e'
    } else if col == 5 {
        'f'
    } else if col == 6 {
        'g'
    } else if col == 7 {
        'h'
    } else {
        '?'
    }
}

/// The digit of a row of the board: `1` to `8`, and `?` for another row.
pub open spec fn rank_char(row: int) -> char {
    if row == 0 {
        '1'
    } else if row == 1 {
        '2'
    } else if row == 2 {
        '3'
    } else if row == 3 {
        '4'
    } else if row == 4 {
        '5'
    } else if row == 5 {
        '6'
    } else if row == 6 {
        '7'
    } else if row == 7 {
        '8'
    } else {
        '?'
    }
}

/// The character of a decimal digit.
pub open spec fn digit_char(d: int) -> char {
    if d == 0 {
        '0'
    } else if d == 1 {
        '1'
    } else if d == 2 {
        '2'
    } else if d == 3 {
        '3'
    } else if d == 4 {
        '4'
    } else if d == 5 {
        '5'
    } else if d == 6 {
        '6'
    } else if d == 7 {
        '7'
    } else if d == 8 {
        '8'
    } else {
        '9'
    }
}

/// A natural number in decimal digits.
pub open spec fn decimal(n: nat) -> Seq<char>
    decreases n,
{
    if n < 10 {
        seq![digit_char(n as int)]
    } else {
        decimal(n / 10).push(digit_char((n % 10) as int))
    }
}

/// A whole number in decimal digits, with `-` before it where it is below
/// zero.
pub open spec fn number_text(n: int) -> Seq<char> {
    if n < 0 {
        seq!['-'] + decimal((-n) as nat)
    } else {
        decimal(n as nat)
    }
}

/// The name of a square: the letter of its column, then the number of its
/// rank, which is its row and one. On the board this is a letter and a
/// digit, as in `e4`; beside the board the letter may be `?` and the number
/// may be any.
pub open spec fn square_name(sq: Square) -> Seq<char> {
    seq![file_char(sq.col as int)] + number_text(sq.row + 1)
}

/// The lowercase English name of a kind of piece.
pub open spec fn piece_name(kind: PieceKind) -> Seq<char> {
    match kind {
        PieceKind::King => seq!['k', 'i', 'n', 'g'],
        PieceKind::Queen => seq!['q', 'u', 'e', 'e', 'n'],
        PieceKind::Rook => seq!['r', 'o', 'o', 'k'],
        PieceKind::Bishop => seq!['b', 'i', 's', 'h', 'o', 'p'],
        PieceKind::Knight => seq!['k', 'n', 'i', 'g', 'h', 't'],
        PieceKind::Pawn => seq!['p', 'a', 'w', 'n'],
    }
}

/// The token of a move. An ordinary move is the names of its two squares,
/// as in `e2e4`; a promotion adds a space and the name of the new piece;
/// the castles and the resignation have fixed tokens.
pub open spec fn move_token(m: Move) -> Seq<char> {
    match m {
        Move::Piece(from, to) => square_name(from) + square_name(to),
        Move::Promotion(from, to, kind) => square_name(from) + square_name(to) + seq![' ']
            + piece_name(kind),
        Move::KingSideCastle => seq!['O', '-', 'O'],
        Move::QueenSideCastle => seq!['O', '-', 'O', '-', 'O'],
        Move::Resign => seq!['R', 'e', 's', 'i', 'g', 'n'],
    }
}

/// The letter of a column as text.
pub fn file_text(col: i32) -> (r: &'static str)
    ensures
        r@ == seq![file_char(col as int)],
{
    proof {
        reveal_strlit("a");
        reveal_strlit("b");
        reveal_strlit("c");
        reveal_strlit("d");
        reveal_strlit("e");
        reveal_strlit("f");
        reveal_strlit("g");
        reveal_strlit("h");
        reveal_strlit("?");
    }
    let r = if col == 0 {
        "a"
    } else if col == 1 {
        "b"
    } else if col == 2 {
        "c"
    } else if col == 3 {
        "d"
    } else if col == 4 {
        "e"
    } else if col == 5 {
        "f"
    } else if col == 6 {
        "g"
    } else if col == 7 {
        "h"
    } else {
        "?"
    };
    assert(r@ =~= seq![file_char(col as int)]);
    r
}

/// The character of a decimal digit.
pub fn digit_of(d: u64) -> (c: char)
    requires
        d < 10,
    ensures
        c == digit_char(d as int),
{
    if d == 0 {
        '0'
    } else if d == 1 {
        '1'
    } else if d == 2 {
        '2'
    } else if d == 3 {
        '3'
    } else if d == 4 {
        '4'
    } else if d == 5 {
        '5'
    } else if d == 6 {
        '6'
    } else if d == 7 {
        '7'
    } else if d == 8 {
        '8'
    } else {
        '9'
    }
}

/// Appends a natural number in decimal digits.
pub fn push_decimal(out: &mut String, n: u64)
    ensures
        final(out)@ == old(out)@ + decimal(n as nat),
    decreases n,
{
    if n >= 10 {
        push_decimal(out, n / 10);
    }
    push_char(out, digit_of(n % 10));
    assert(out@ =~= old(out)@ + decimal(n as nat));
}

/// Appends a whole number in decimal digits.
pub fn push_number(out: &mut String, n: i64)
    requires
        n > i64::MIN,
    ensures
        final(out)@ == old(out)@ + number_text(n as int),
{
    if n < 0 {
        push_char(out, '-');
        push_decimal(out, (-n) as u64);
    } else {
        push_decimal(out, n as u64);
    }
    assert(out@ =~= old(out)@ + number_text(n as int));
}

/// The name of a kind of piece as text.
pub fn piece_text(kind: PieceKind) -> (r: &'static str)
    ensures
        r@ == piece_name(kind),
{
    proof {
        reveal_strlit("king");
        reveal_strlit("queen");
        reveal_strlit("rook");
        reveal_strlit("bishop");
        reveal_strlit("knight");
        reveal_strlit("pawn");
    }
    let r = match kind {
        PieceKind::King => "king",
        PieceKind::Queen => "queen",
        PieceKind::Rook => "rook",
        PieceKind::Bishop => "bishop",
        PieceKind::Knight => "knight",
        PieceKind::Pawn => "pawn",
    };
    assert(r@ =~= piece_name(kind));
    r
}

/// Appends the name of a square to a text.
pub fn push_square(out: &mut String, sq: Square)
    ensures
        final(out)@ == old(out)@ + square_name(sq),
{
    out.append(file_text(sq.col));
    push_number(out, sq.row as i64 + 1);
    assert(out@ =~= old(out)@ + square_name(sq));
}

/// Writes a move in the short notation of the response: the token of the
/// move, for every move.
pub fn format_move(m: Move) -> (token: String)
    ensures
        token@ == move_token(m),
        token@.len() > 0,
{
    let mut out = String::new();
    match m {
        Move::Piece(from, to) => {
            push_square(&mut out, from);
            push_square(&mut out, to);
        },
        Move::Promotion(from, to, kind) => {
            push_square(&mut out, from);
            push_square(&mut out, to);
            proof {
                reveal_strlit(" ");
            }
            out.append(" ");
            out.append(piece_text(kind));
        },
        Move::KingSideCastle => {
            proof {
                reveal_strlit("O-O");
            }
            out.append("O-O");
        },
        Move::QueenSideCastle => {
            proof {
                reveal_strlit("O-O-O");
            }
            out.append("O-O-O");
        },
        Move::Resign => {
            proof {
                reveal_strlit("Resign");
            }
            out.append("Resign");
        },
    }
    assert(out@ =~= move_token(m));
    out
}

/// A number has at least one digit.
pub proof fn lemma_number_text_len(n: int)
    ensures
        number_text(n).len() >= 1,
{
    if n < 0 {
    } else if n < 10 {
    } else {
    }
}

/// Every move has a token that is not empty, and the token of an ordinary
/// move or of a promotion begins with the name of the square that the piece
/// leaves.
pub proof fn lemma_token_shape(m: Move)
    ensures
        move_token(m).len() > 0,
        match m {
            Move::Piece(from, _) => {
                &&& square_name(from).len() >= 2
                &&& move_token(m).len() >= square_name(from).len()
                &&& move_token(m).subrange(0, square_name(from).len() as int) == square_name(
                    from,
                )
            },
            Move::Promotion(from, _, _) => {
                &&& square_name(from).len() >= 2
                &&& move_token(m).len() >= square_name(from).len()
                &&& move_token(m).subrange(0, square_name(from).len() as int) == square_name(
                    from,
                )
            },
            _ => true,
        },
{
    match m {
        Move::Piece(from, _) => {
            lemma_number_text_len(from.row + 1);
            assert(move_token(m).subrange(0, square_name(from).len() as int) =~= square_name(
                from,
            ));
        },
        Move::Promotion(from, _, _) => {
            lemma_number_text_len(from.row + 1);
            assert(move_token(m).subrange(0, square_name(from).len() as int) =~= square_name(
                from,
            ));
        },
        _ => {},
    }
}

} // verus!
