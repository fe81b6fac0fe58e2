//! The text form of a position: Forsyth-Edwards notation.
//!
//! A position is written as six fields with one space between them: the
//! pieces rank by rank from the eighth to the first, the side to move, the
//! castling rights, the en-passant square and two clocks. The clocks are no
//! part of a position: they are read and dropped, and always written as 0.

use vstd::prelude::*;
use crate::board::{BoardState, BoardView, Castling};
use crate::moves::{file_char, rank_char, Color, Piece, PieceKind, Square};
use crate::text::{chars_of, part_views, push_char, split, split_chars};

verus! {

/// The letter of a piece: upper case for White, lower case for Black.
pub open spec fn piece_letter(p: Piece) -> char {
    match p.color {
        Color::White => match p.kind {
            PieceKind::King => 'K',
            PieceKind::Queen => 'Q',
            PieceKind::Rook => 'R',
            PieceKind::Bishop => 'B',
            PieceKind::Knight => 'N',
            PieceKind::Pawn => 'P',
        },
        Color::Black => match p.kind {
            PieceKind::King => 'k',
            PieceKind::Queen => 'q',
            PieceKind::Rook => 'r',
            PieceKind::Bishop => 'b',
            PieceKind::Knight => 'n',
            PieceKind::Pawn => 'p',
        },
    }
}

/// The piece that a letter stands for.
pub open spec fn letter_piece(c: char) -> Option<Piece> {
    if c == 'K' {
        Some(Piece { color: Color::White, kind: PieceKind::King })
    } else if c == 'Q' {
        Some(Piece { color: Color::White, kind: PieceKind::Queen })
    } else if c == 'R' {
        Some(Piece { color: Color::White, kind: PieceKind::Rook })
    } else if c == 'B' {
        Some(Piece { color: Color::White, kind: PieceKind::Bishop })
    } else if c == 'N' {
        Some(Piece { color: Color::White, kind: PieceKind::Knight })
    } else if c == 'P' {
        Some(Piece { color: Color::White, kind: PieceKind::Pawn })
    } else if c == 'k' {
        Some(Piece { color: Color::Black, kind: PieceKind::King })
    } else if c == 'q' {
        Some(Piece { color: Color::Black, kind: PieceKind::Queen })
    } else if c == 'r' {
        Some(Piece { color: Color::Black, kind: PieceKind::Rook })
    } else if c == 'b' {
        Some(Piece { color: Color::Black, kind: PieceKind::Bishop })
    } else if c == 'n' {
        Some(Piece { color: Color::Black, kind: PieceKind::Knight })
    } else if c == 'p' {
        Some(Piece { color: Color::Black, kind: PieceKind::Pawn })
    } else {
        None
    }
}

/// The number of empty squares that a digit from `1` to `8` stands for.
pub open spec fn run_value(c: char) -> Option<int> {
    if c == '1' {
        Some(1)
    } else if c == '2' {
        Some(2)
    } else if c == '3' {
        Some(3)
    } else if c == '4' {
        Some(4)
    } else if c == '5' {
        Some(5)
    } else if c == '6' {
        Some(6)
    } else if c == '7' {
        Some(7)
    } else if c == '8' {
        Some(8)
    } else {
        None
    }
}

/// The digit of a run of empty squares; no text for no run.
pub open spec fn run_text(run: int) -> Seq<char> {
    if run <= 0 {
        Seq::empty()
    } else {
        seq![rank_char(run - 1)]
    }
}

/// `n` empty squares.
pub open spec fn empties(n: int) -> Seq<Option<Piece>> {
    Seq::new(n as nat, |i: int| None)
}

/// Squares written from left to right: the text so far, and how many empty
/// squares at the end are not written yet.
pub open spec fn rank_fold(cells: Seq<Option<Piece>>) -> (Seq<char>, int)
    decreases cells.len(),
{
    if cells.len() == 0 {
        (Seq::empty(), 0)
    } else {
        let (text, run) = rank_fold(cells.drop_last());
        match cells.last() {
            None => (text, run + 1),
            Some(p) => (text + run_text(run) + seq![piece_letter(p)], 0),
        }
    }
}

/// The text of the squares of one rank: a letter for each piece and a digit
/// for each longest run of empty squares.
pub open spec fn rank_text(cells: Seq<Option<Piece>>) -> Seq<char> {
    rank_fold(cells).0 + run_text(rank_fold(cells).1)
}

/// The squares that the text of a rank stands for, however many they are.
pub open spec fn rank_cells(text: Seq<char>) -> Option<Seq<Option<Piece>>>
    decreases text.len(),
{
    if text.len() == 0 {
        Some(Seq::empty())
    } else {
        match rank_cells(text.drop_last()) {
            None => None,
            Some(cells) => match letter_piece(text.last()) {
                Some(p) => Some(cells.push(Some(p))),
                None => match run_value(text.last()) {
                    Some(n) => Some(cells + empties(n)),
                    None => None,
                },
            },
        }
    }
}

/// The rank that is `row` rows above the first, out of the 64 squares.
pub open spec fn row_of(squares: Seq<Option<Piece>>, row: int) -> Seq<Option<Piece>> {
    squares.subrange(8 * row, 8 * row + 8)
}

/// The text of the `k` highest ranks, with `/` between them.
pub open spec fn ranks_text(squares: Seq<Option<Piece>>, k: nat) -> Seq<char>
    decreases k,
{
    if k == 0 {
        Seq::empty()
    } else if k == 1 {
        rank_text(row_of(squares, 7))
    } else {
        ranks_text(squares, (k - 1) as nat) + seq!['/'] + rank_text(row_of(squares, 8 - k))
    }
}

/// The squares of the `k` lowest ranks, read from the parts of a placement
/// field, of which the last is the first rank.
pub open spec fn rows_of(parts: Seq<Seq<char>>, k: nat) -> Option<Seq<Option<Piece>>>
    decreases k,
{
    if k == 0 {
        Some(Seq::empty())
    } else {
        match rows_of(parts, (k - 1) as nat) {
            None => None,
            Some(squares) => match rank_cells(parts[8 - k]) {
                None => None,
                Some(cells) => if cells.len() == 8 {
                    Some(squares + cells)
                } else {
                    None
                },
            },
        }
    }
}

/// The 64 squares that a placement field stands for.
pub open spec fn placement_of(text: Seq<char>) -> Option<Seq<Option<Piece>>> {
    let parts = split(text, '/');
    if parts.len() != 8 {
        None
    } else {
        rows_of(parts, 8)
    }
}

/// The letter of the side to move.
pub open spec fn turn_text(turn: Color) -> Seq<char> {
    match turn {
        Color::White => seq!['w'],
        Color::Black => seq!['b'],
    }
}

/// The side that a turn field stands for.
pub open spec fn turn_of(text: Seq<char>) -> Option<Color> {
    if text == seq!['w'] {
        Some(Color::White)
    } else if text == seq!['b'] {
        Some(Color::Black)
    } else {
        None
    }
}

/// One letter where a right is held, no text where it is not.
pub open spec fn flag_text(held: bool, c: char) -> Seq<char> {
    if held {
        seq![c]
    } else {
        Seq::empty()
    }
}

/// The castling field: `K`, `Q`, `k` and `q` for the rights that are held,
/// in this order, or `-` for none.
pub open spec fn castling_text(c: Castling) -> Seq<char> {
    if !c.white_kingside && !c.white_queenside && !c.black_kingside && !c.black_queenside {
        seq!['-']
    } else {
        flag_text(c.white_kingside, 'K') + flag_text(c.white_queenside, 'Q') + flag_text(
            c.black_kingside,
            'k',
        ) + flag_text(c.black_queenside, 'q')
    }
}

/// Whether a text begins with a character.
pub open spec fn starts_with(text: Seq<char>, c: char) -> bool {
    text.len() > 0 && text[0] == c
}

/// A text without a first character `c`, if it has one.
pub open spec fn without(text: Seq<char>, c: char) -> Seq<char> {
    if starts_with(text, c) {
        text.drop_first()
    } else {
        text
    }
}

/// The rights that a castling field stands for. The letters must stand in
/// the order `KQkq`, each at most once, and `-` stands alone.
pub open spec fn castling_of(text: Seq<char>) -> Option<Castling> {
    if text == seq!['-'] {
        Some(
            Castling {
                white_kingside: false,
                white_queenside: false,
                black_kingside: false,
                black_queenside: false,
            },
        )
    } else {
        let t1 = without(text, 'K');
        let t2 = without(t1, 'Q');
        let t3 = without(t2, 'k');
        let t4 = without(t3, 'q');
        if text.len() == 0 || t4.len() != 0 {
            None
        } else {
            Some(
                Castling {
                    white_kingside: starts_with(text, 'K'),
                    white_queenside: starts_with(t1, 'Q'),
                    black_kingside: starts_with(t2, 'k'),
                    black_queenside: starts_with(t3, 'q'),
                },
            )
        }
    }
}

/// The en-passant field: the name of the square, or `-` for none.
pub open spec fn en_passant_text(sq: Option<Square>) -> Seq<char> {
    match sq {
        None => seq!['-'],
        Some(sq) => seq![file_char(sq.col as int), rank_char(sq.row as int)],
    }
}

/// The column that a letter from `a` to `h` stands for.
pub open spec fn file_value(c: char) -> Option<i32> {
    if c == 'a' {
        Some(0)
    } else if c == 'b' {
        Some(1)
    } else if c == 'c' {
        Some(2)
    } else if c == 'd' {
        Some(3)
    } else if c == 'e' {
        Some(4)
    } else if c == 'f' {
        Some(5)
    } else if c == 'g' {
        Some(6)
    } else if c == 'h' {
        Some(7)
    } else {
        None
    }
}

/// The row that a digit from `1` to `8` stands for.
pub open spec fn rank_value(c: char) -> Option<i32> {
    match run_value(c) {
        Some(n) => Some((n - 1) as i32),
        None => None,
    }
}

/// The square, or none, that an en-passant field stands for.
pub open spec fn en_passant_of(text: Seq<char>) -> Option<Option<Square>> {
    if text == seq!['-'] {
        Some(None)
    } else if text.len() != 2 {
        None
    } else {
        match (file_value(text[0]), rank_value(text[1])) {
            (Some(col), Some(row)) => Some(Some(Square { row, col })),
            _ => None,
        }
    }
}

/// Whether a character is a decimal digit.
pub open spec fn is_digit(c: char) -> bool {
    c == '0' || c == '1' || c == '2' || c == '3' || c == '4' || c == '5' || c == '6' || c == '7'
        || c == '8' || c == '9'
}

/// Whether a text is a clock: one decimal digit or more.
pub open spec fn is_clock(text: Seq<char>) -> bool {
    text.len() > 0 && forall|i: int| 0 <= i < text.len() ==> is_digit(#[trigger] text[i])
}

/// The text of a position, with both clocks at 0.
pub open spec fn fen_text(v: BoardView) -> Seq<char> {
    ranks_text(v.squares, 8) + seq![' '] + turn_text(v.turn) + seq![' '] + castling_text(
        v.castling,
    ) + seq![' '] + en_passant_text(v.en_passant) + seq![' ', '0', ' ', '0']
}

/// The position that a text stands for, if it stands for one.
pub open spec fn parse_fen(s: Seq<char>) -> Option<BoardView> {
    let fields = split(s, ' ');
    if fields.len() != 6 {
        None
    } else {
        match (
            placement_of(fields[0]),
            turn_of(fields[1]),
            castling_of(fields[2]),
            en_passant_of(fields[3]),
        ) {
            (Some(squares), Some(turn), Some(castling), Some(en_passant)) => {
                if is_clock(fields[4]) && is_clock(fields[5]) {
                    Some(BoardView { squares, turn, castling, en_passant })
                } else {
                    None
                }
            },
            _ => None,
        }
    }
}

/// The letter of a piece.
pub fn letter_of(p: Piece) -> (c: char)
    ensures
        c == piece_letter(p),
{
    match p.color {
        Color::White => match p.kind {
            PieceKind::King => 'K',
            PieceKind::Queen => 'Q',
            PieceKind::Rook => 'R',
            PieceKind::Bishop => 'B',
            PieceKind::Knight => 'N',
            PieceKind::Pawn => 'P',
        },
        Color::Black => match p.kind {
            PieceKind::King => 'k',
            PieceKind::Queen => 'q',
            PieceKind::Rook => 'r',
            PieceKind::Bishop => 'b',
            PieceKind::Knight => 'n',
            PieceKind::Pawn => 'p',
        },
    }
}

/// The piece that a letter stands for.
pub fn piece_of(c: char) -> (r: Option<Piece>)
    ensures
        r == letter_piece(c),
{
    if c == 'K' {
        Some(Piece { color: Color::White, kind: PieceKind::King })
    } else if c == 'Q' {
        Some(Piece { color: Color::White, kind: PieceKind::Queen })
    } else if c == 'R' {
        Some(Piece { color: Color::White, kind: PieceKind::Rook })
    } else if c == 'B' {
        Some(Piece { color: Color::White, kind: PieceKind::Bishop })
    } else if c == 'N' {
        Some(Piece { color: Color::White, kind: PieceKind::Knight })
    } else if c == 'P' {
        Some(Piece { color: Color::White, kind: PieceKind::Pawn })
    } else if c == 'k' {
        Some(Piece { color: Color::Black, kind: PieceKind::King })
    } else if c == 'q' {
        Some(Piece { color: Color::Black, kind: PieceKind::Queen })
    } else if c == 'r' {
        Some(Piece { color: Color::Black, kind: PieceKind::Rook })
    } else if c == 'b' {
        Some(Piece { color: Color::Black, kind: PieceKind::Bishop })
    } else if c == 'n' {
        Some(Piece { color: Color::Black, kind: PieceKind::Knight })
    } else if c == 'p' {
        Some(Piece { color: Color::Black, kind: PieceKind::Pawn })
    } else {
        None
    }
}

/// The number that a digit from `1` to `8` stands for.
pub fn run_of(c: char) -> (r: Option<u8>)
    ensures
        match r {
            Some(n) => run_value(c) == Some(n as int),
            None => run_value(c) is None,
        },
{
    if c == '1' {
        Some(1)
    } else if c == '2' {
        Some(2)
    } else if c == '3' {
        Some(3)
    } else if c == '4' {
        Some(4)
    } else if c == '5' {
        Some(5)
    } else if c == '6' {
        Some(6)
    } else if c == '7' {
        Some(7)
    } else if c == '8' {
        Some(8)
    } else {
        None
    }
}

/// The column that a letter from `a` to `h` stands for.
pub fn file_of(c: char) -> (r: Option<i32>)
    ensures
        r == file_value(c),
{
    if c == 'a' {
        Some(0)
    } else if c == 'b' {
        Some(1)
    } else if c == 'c' {
        Some(2)
    } else if c == 'd' {
        Some(3)
    } else if c == 'e' {
        Some(4)
    } else if c == 'f' {
        Some(5)
    } else if c == 'g' {
        Some(6)
    } else if c == 'h' {
        Some(7)
    } else {
        None
    }
}

/// The letter of a column.
pub fn file_letter(col: i32) -> (c: char)
    ensures
        c == file_char(col as int),
{
    if col == 0 {
        'a'
    } else if col == 1 {
        'b'
    } else if col == 2 {
        'c'
    } else if col == 3 {
        'd'
    } else if col == 4 {
        'e'
    } else if col == 5 {
        'f'
    } else if col == 6 {
        'g'
    } else if col == 7 {
        'h'
    } else {
        '?'
    }
}

/// The digit of a row.
pub fn rank_digit(row: i32) -> (c: char)
    ensures
        c == rank_char(row as int),
{
    if row == 0 {
        '1'
    } else if row == 1 {
        '2'
    } else if row == 2 {
        '3'
    } else if row == 3 {
        '4'
    } else if row == 4 {
        '5'
    } else if row == 5 {
        '6'
    } else if row == 6 {
        '7'
    } else if row == 7 {
        '8'
    } else {
        '?'
    }
}

/// Appends the digit of a run of empty squares, if there is a run.
fn push_run(out: &mut String, run: u8)
    requires
        run <= 8,
    ensures
        final(out)@ == old(out)@ + run_text(run as int),
{
    if run > 0 {
        push_char(out, rank_digit((run - 1) as i32));
        assert(out@ =~= old(out)@ + run_text(run as int));
    } else {
        assert(out@ =~= old(out)@ + run_text(run as int));
    }
}

/// Appends the text of one rank.
fn push_rank(out: &mut String, squares: &Vec<Option<Piece>>, row: usize)
    requires
        squares@.len() == 64,
        row < 8,
    ensures
        final(out)@ == old(out)@ + rank_text(row_of(squares@, row as int)),
{
    let ghost cells = row_of(squares@, row as int);
    let mut run: u8 = 0;
    let mut col: usize = 0;
    while col < 8
        invariant
            col <= 8,
            row < 8,
            squares@.len() == 64,
            cells == row_of(squares@, row as int),
            run <= col,
            run == rank_fold(cells.take(col as int)).1,
            out@ == old(out)@ + rank_fold(cells.take(col as int)).0,
        decreases 8 - col,
    {
        proof {
            assert(cells.take(col + 1).drop_last() =~= cells.take(col as int));
            assert(cells.take(col + 1).last() == squares@[8 * row + col]);
        }
        let ghost so_far = rank_fold(cells.take(col as int)).0;
        match squares[8 * row + col] {
            None => {
                run = run + 1;
            },
            Some(p) => {
                push_run(out, run);
                push_char(out, letter_of(p));
                assert(out@ =~= old(out)@ + (so_far + run_text(run as int) + seq![
                    piece_letter(p),
                ]));
                run = 0;
            },
        }
        col = col + 1;
    }
    assert(cells.take(8) =~= cells);
    let ghost so_far = rank_fold(cells).0;
    push_run(out, run);
    assert(out@ =~= old(out)@ + (so_far + run_text(run as int)));
}

/// Appends the placement field.
fn push_placement(out: &mut String, squares: &Vec<Option<Piece>>)
    requires
        squares@.len() == 64,
    ensures
        final(out)@ == old(out)@ + ranks_text(squares@, 8),
{
    let mut k: usize = 0;
    assert(out@ =~= old(out)@ + ranks_text(squares@, 0));
    while k < 8
        invariant
            k <= 8,
            squares@.len() == 64,
            out@ == old(out)@ + ranks_text(squares@, k as nat),
        decreases 8 - k,
    {
        let ghost before = ranks_text(squares@, k as nat);
        if k > 0 {
            push_char(out, '/');
        }
        push_rank(out, squares, 7 - k);
        proof {
            let rank = rank_text(row_of(squares@, 7 - k));
            if k > 0 {
                assert(out@ =~= old(out)@ + (before + seq!['/'] + rank));
            } else {
                assert(out@ =~= old(out)@ + rank);
            }
        }
        k = k + 1;
    }
}

/// Appends the turn field.
fn push_turn(out: &mut String, turn: Color)
    ensures
        final(out)@ == old(out)@ + turn_text(turn),
{
    match turn {
        Color::White => push_char(out, 'w'),
        Color::Black => push_char(out, 'b'),
    }
    assert(out@ =~= old(out)@ + turn_text(turn));
}

/// Appends one letter where a right is held.
fn push_flag(out: &mut String, held: bool, c: char)
    ensures
        final(out)@ == old(out)@ + flag_text(held, c),
{
    if held {
        push_char(out, c);
    }
    assert(out@ =~= old(out)@ + flag_text(held, c));
}

/// Appends the castling field.
fn push_castling(out: &mut String, c: Castling)
    ensures
        final(out)@ == old(out)@ + castling_text(c),
{
    if !c.white_kingside && !c.white_queenside && !c.black_kingside && !c.black_queenside {
        push_char(out, '-');
        assert(out@ =~= old(out)@ + castling_text(c));
    } else {
        push_flag(out, c.white_kingside, 'K');
        push_flag(out, c.white_queenside, 'Q');
        push_flag(out, c.black_kingside, 'k');
        push_flag(out, c.black_queenside, 'q');
        assert(out@ =~= old(out)@ + castling_text(c));
    }
}

/// Appends the en-passant field.
fn push_en_passant(out: &mut String, sq: Option<Square>)
    ensures
        final(out)@ == old(out)@ + en_passant_text(sq),
{
    match sq {
        None => push_char(out, '-'),
        Some(sq) => {
            push_char(out, file_letter(sq.col));
            push_char(out, rank_digit(sq.row));
        },
    }
    assert(out@ =~= old(out)@ + en_passant_text(sq));
}

/// Writes a position as text, with both clocks at 0.
pub fn board_text(state: &BoardState) -> (s: String)
    requires
        state@.squares.len() == 64,
    ensures
        s@ == fen_text(state@),
{
    let mut out = String::new();
    push_placement(&mut out, &state.squares);
    push_char(&mut out, ' ');
    push_turn(&mut out, state.turn);
    push_char(&mut out, ' ');
    push_castling(&mut out, state.castling);
    push_char(&mut out, ' ');
    push_en_passant(&mut out, state.en_passant);
    push_char(&mut out, ' ');
    push_char(&mut out, '0');
    push_char(&mut out, ' ');
    push_char(&mut out, '0');
    assert(out@ =~= fen_text(state@));
    out
}

/// Once a character of a rank cannot be read, no longer text can.
pub proof fn lemma_rank_fails(text: Seq<char>, j: int, k: int)
    requires
        0 <= j <= k <= text.len(),
        rank_cells(text.take(j)) is None,
    ensures
        rank_cells(text.take(k)) is None,
    decreases k,
{
    if j < k {
        lemma_rank_fails(text, j, k - 1);
        assert(text.take(k).drop_last() =~= text.take(k - 1));
    }
}

/// Reads the squares that the text of a rank stands for.
pub fn parse_rank(text: &Vec<char>) -> (r: Option<Vec<Option<Piece>>>)
    ensures
        match r {
            Some(cells) => rank_cells(text@) == Some(cells@),
            None => rank_cells(text@) is None,
        },
{
    let mut cells: Vec<Option<Piece>> = Vec::new();
    let mut i: usize = 0;
    while i < text.len()
        invariant
            i <= text@.len(),
            rank_cells(text@.take(i as int)) == Some(cells@),
        decreases text@.len() - i,
    {
        let c = text[i];
        proof {
            assert(text@.take(i + 1).drop_last() =~= text@.take(i as int));
            assert(text@.take(i + 1).last() == c);
        }
        match piece_of(c) {
            Some(p) => {
                cells.push(Some(p));
            },
            None => match run_of(c) {
                Some(n) => {
                    let ghost before = cells@;
                    let mut j: u8 = 0;
                    while j < n
                        invariant
                            j <= n,
                            cells@ == before + empties(j as int),
                        decreases n - j,
                    {
                        cells.push(None);
                        assert(cells@ =~= before + empties(j + 1));
                        j = j + 1;
                    }
                },
                None => {
                    proof {
                        lemma_rank_fails(text@, i + 1, text@.len() as int);
                        assert(text@.take(text@.len() as int) =~= text@);
                    }
                    return None;
                },
            },
        }
        i = i + 1;
    }
    assert(text@.take(text@.len() as int) =~= text@);
    Some(cells)
}

/// Once a rank cannot be read, no larger number of ranks can.
pub proof fn lemma_rows_fail(parts: Seq<Seq<char>>, j: nat, k: nat)
    requires
        j <= k,
        rows_of(parts, j) is None,
    ensures
        rows_of(parts, k) is None,
    decreases k,
{
    if j < k {
        lemma_rows_fail(parts, j, (k - 1) as nat);
    }
}

/// The squares of `k` ranks that can be read are `8 * k`.
pub proof fn lemma_rows_len(parts: Seq<Seq<char>>, k: nat)
    requires
        rows_of(parts, k) is Some,
    ensures
        rows_of(parts, k)->0.len() == 8 * k,
    decreases k,
{
    if k > 0 {
        lemma_rows_len(parts, (k - 1) as nat);
    }
}

/// Reads the 64 squares that a placement field stands for.
pub fn parse_placement(text: &Vec<char>) -> (r: Option<Vec<Option<Piece>>>)
    ensures
        match r {
            Some(squares) => placement_of(text@) == Some(squares@) && squares@.len() == 64,
            None => placement_of(text@) is None,
        },
{
    let parts = split_chars(text, '/');
    if parts.len() != 8 {
        return None;
    }
    let ghost pv = part_views(parts@);
    let mut squares: Vec<Option<Piece>> = Vec::new();
    let mut k: usize = 0;
    while k < 8
        invariant
            k <= 8,
            parts@.len() == 8,
            pv == part_views(parts@),
            pv == split(text@, '/'),
            rows_of(pv, k as nat) == Some(squares@),
        decreases 8 - k,
    {
        assert(pv[7 - k] == parts@[7 - k]@);
        match parse_rank(&parts[7 - k]) {
            None => {
                proof {
                    lemma_rows_fail(pv, (k + 1) as nat, 8);
                }
                return None;
            },
            Some(cells) => {
                if cells.len() != 8 {
                    proof {
                        lemma_rows_fail(pv, (k + 1) as nat, 8);
                    }
                    return None;
                }
                let ghost before = squares@;
                let mut j: usize = 0;
                while j < 8
                    invariant
                        j <= 8,
                        cells@.len() == 8,
                        squares@ == before + cells@.take(j as int),
                    decreases 8 - j,
                {
                    squares.push(cells[j]);
                    assert(squares@ =~= before + cells@.take(j + 1));
                    j = j + 1;
                }
                assert(cells@.take(8) =~= cells@);
            },
        }
        k = k + 1;
    }
    proof {
        lemma_rows_len(pv, 8);
    }
    Some(squares)
}

/// Reads the side that a turn field stands for.
pub fn parse_turn(text: &Vec<char>) -> (r: Option<Color>)
    ensures
        r == turn_of(text@),
{
    if text.len() != 1 {
        return None;
    }
    if text[0] == 'w' {
        assert(text@ =~= seq!['w']);
        Some(Color::White)
    } else if text[0] == 'b' {
        assert(text@ =~= seq!['b']);
        Some(Color::Black)
    } else {
        None
    }
}

/// Whether the text has the character `c` at `at`.
fn has_at(text: &Vec<char>, at: usize, c: char) -> (r: bool)
    requires
        at <= text@.len(),
    ensures
        r == starts_with(text@.skip(at as int), c),
        without(text@.skip(at as int), c) == text@.skip(
            if r {
                at + 1
            } else {
                at as int
            },
        ),
{
    let r = at < text.len() && text[at] == c;
    proof {
        if r {
            assert(text@.skip(at as int).drop_first() =~= text@.skip(at + 1));
        }
    }
    r
}

/// Reads the rights that a castling field stands for.
pub fn parse_castling(text: &Vec<char>) -> (r: Option<Castling>)
    ensures
        r == castling_of(text@),
{
    if text.len() == 1 && text[0] == '-' {
        assert(text@ =~= seq!['-']);
        return Some(
            Castling {
                white_kingside: false,
                white_queenside: false,
                black_kingside: false,
                black_queenside: false,
            },
        );
    }
    assert(text@.skip(0) =~= text@);
    let mut at: usize = 0;
    let white_kingside = has_at(text, at, 'K');
    if white_kingside {
        at = at + 1;
    }
    let white_queenside = has_at(text, at, 'Q');
    if white_queenside {
        at = at + 1;
    }
    let black_kingside = has_at(text, at, 'k');
    if black_kingside {
        at = at + 1;
    }
    let black_queenside = has_at(text, at, 'q');
    if black_queenside {
        at = at + 1;
    }
    if text.len() == 0 || at != text.len() {
        return None;
    }
    Some(Castling { white_kingside, white_queenside, black_kingside, black_queenside })
}

/// Reads the square, or none, that an en-passant field stands for.
pub fn parse_en_passant(text: &Vec<char>) -> (r: Option<Option<Square>>)
    ensures
        r == en_passant_of(text@),
{
    if text.len() == 1 && text[0] == '-' {
        assert(text@ =~= seq!['-']);
        return Some(None);
    }
    if text.len() != 2 {
        return None;
    }
    match (file_of(text[0]), run_of(text[1])) {
        (Some(col), Some(n)) => Some(Some(Square { row: (n - 1) as i32, col })),
        _ => None,
    }
}

/// Whether a text is a clock.
pub fn check_clock(text: &Vec<char>) -> (r: bool)
    ensures
        r == is_clock(text@),
{
    if text.len() == 0 {
        return false;
    }
    let mut i: usize = 0;
    while i < text.len()
        invariant
            i <= text@.len(),
            forall|j: int| 0 <= j < i ==> is_digit(#[trigger] text@[j]),
        decreases text@.len() - i,
    {
        let c = text[i];
        let digit = c == '0' || c == '1' || c == '2' || c == '3' || c == '4' || c == '5' || c
            == '6' || c == '7' || c == '8' || c == '9';
        if !digit {
            assert(!is_digit(text@[i as int]));
            return false;
        }
        i = i + 1;
    }
    true
}

/// Reads a position from its text.
pub fn parse_board(s: &str) -> (r: Option<BoardState>)
    ensures
        match r {
            Some(state) => parse_fen(s@) == Some(state@) && state.wf(),
            None => parse_fen(s@) is None,
        },
{
    let chars = chars_of(s);
    let fields = split_chars(&chars, ' ');
    if fields.len() != 6 {
        return None;
    }
    let ghost fv = part_views(fields@);
    assert(fv[0] == fields@[0]@);
    assert(fv[1] == fields@[1]@);
    assert(fv[2] == fields@[2]@);
    assert(fv[3] == fields@[3]@);
    assert(fv[4] == fields@[4]@);
    assert(fv[5] == fields@[5]@);
    let squares = match parse_placement(&fields[0]) {
        None => {
            return None;
        },
        Some(squares) => squares,
    };
    let turn = match parse_turn(&fields[1]) {
        None => {
            return None;
        },
        Some(turn) => turn,
    };
    let castling = match parse_castling(&fields[2]) {
        None => {
            return None;
        },
        Some(castling) => castling,
    };
    let en_passant = match parse_en_passant(&fields[3]) {
        None => {
            return None;
        },
        Some(en_passant) => en_passant,
    };
    if !check_clock(&fields[4]) || !check_clock(&fields[5]) {
        return None;
    }
    Some(BoardState { squares, turn, castling, en_passant })
}

} // verus!
