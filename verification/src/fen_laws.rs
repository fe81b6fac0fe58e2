//! What holds of the text form of a position: a position is read back from
//! its text.

use vstd::prelude::*;
use crate::board::{BoardView, Castling};
use crate::fen::{
    castling_of, castling_text, empties, en_passant_of, en_passant_text, fen_text, file_value,
    flag_text, is_clock, is_digit, letter_piece, parse_fen, piece_letter, placement_of,
    rank_cells, rank_fold, rank_text, rank_value, ranks_text, row_of, rows_of, run_text,
    run_value, starts_with, turn_of, turn_text, without,
};
use crate::engine::play_outcome;
use crate::moves::{file_char, rank_char, Color, Move, Piece, PieceKind, Square};
use crate::text::split;

verus! {

/// Whether a text has no occurrence of a character.
pub open spec fn free_of(s: Seq<char>, c: char) -> bool {
    forall|i: int| 0 <= i < s.len() ==> s[i] != c
}

/// A letter stands for the piece it is the letter of, and is neither a
/// digit nor a separator.
pub proof fn lemma_letter_of_piece(p: Piece)
    ensures
        letter_piece(piece_letter(p)) == Some(p),
        run_value(piece_letter(p)) is None,
        piece_letter(p) != '/',
        piece_letter(p) != ' ',
{
}

/// The digit of a run stands for the run, and is neither a letter nor a
/// separator.
pub proof fn lemma_digit_of_run(run: int)
    requires
        1 <= run <= 8,
    ensures
        run_value(rank_char(run - 1)) == Some(run),
        letter_piece(rank_char(run - 1)) is None,
        rank_char(run - 1) != '/',
        rank_char(run - 1) != ' ',
{
}

/// Squares that are written except for a run of empty squares at their end
/// are read back except for that run.
pub proof fn lemma_rank_fold(cells: Seq<Option<Piece>>)
    requires
        cells.len() <= 8,
    ensures
        ({
            let (text, run) = rank_fold(cells);
            &&& 0 <= run <= cells.len()
            &&& rank_cells(text) == Some(cells.take(cells.len() - run))
            &&& forall|i: int| cells.len() - run <= i < cells.len() ==> cells[i] is None
            &&& free_of(text, '/')
            &&& free_of(text, ' ')
        }),
    decreases cells.len(),
{
    if cells.len() == 0 {
        assert(cells.take(0) =~= Seq::<Option<Piece>>::empty());
    } else {
        let front = cells.drop_last();
        lemma_rank_fold(front);
        let (text, run) = rank_fold(front);
        let kept = front.take(front.len() - run);
        match cells.last() {
            None => {
                assert(cells.take(cells.len() - (run + 1)) =~= kept);
                assert forall|i: int| cells.len() - (run + 1) <= i < cells.len() implies cells[i]
                    is None by {
                    if i < front.len() {
                        assert(cells[i] == front[i]);
                    }
                }
            },
            Some(p) => {
                lemma_letter_of_piece(p);
                let with_run = text + run_text(run);
                assert(rank_cells(with_run) == Some(front)) by {
                    if run == 0 {
                        assert(with_run =~= text);
                        assert(kept =~= front);
                    } else {
                        lemma_digit_of_run(run);
                        assert(with_run.drop_last() =~= text);
                        assert(with_run.last() == rank_char(run - 1));
                        assert(kept + empties(run) =~= front);
                    }
                }
                let whole = with_run + seq![piece_letter(p)];
                assert(whole.drop_last() =~= with_run);
                assert(whole.last() == piece_letter(p));
                assert(front.push(Some(p)) =~= cells);
                assert(cells.take(cells.len() as int) =~= cells);
                if run > 0 {
                    lemma_digit_of_run(run);
                }
            },
        }
    }
}

/// The squares of a rank are read back from their text, and the text has
/// no separator in it.
pub proof fn lemma_rank_round_trip(cells: Seq<Option<Piece>>)
    requires
        cells.len() == 8,
    ensures
        rank_cells(rank_text(cells)) == Some(cells),
        free_of(rank_text(cells), '/'),
        free_of(rank_text(cells), ' '),
{
    lemma_rank_fold(cells);
    let (text, run) = rank_fold(cells);
    let kept = cells.take(cells.len() - run);
    if run == 0 {
        assert(rank_text(cells) =~= text);
        assert(kept =~= cells);
    } else {
        lemma_digit_of_run(run);
        assert(rank_text(cells).drop_last() =~= text);
        assert(rank_text(cells).last() == rank_char(run - 1));
        assert(kept + empties(run) =~= cells);
    }
}

/// A text without the separator is one part.
pub proof fn lemma_split_free(s: Seq<char>, sep: char)
    requires
        free_of(s, sep),
    ensures
        split(s, sep) == seq![s],
    decreases s.len(),
{
    if s.len() == 0 {
        assert(s =~= Seq::<char>::empty());
    } else {
        lemma_split_free(s.drop_last(), sep);
        assert(s.drop_last().push(s.last()) =~= s);
        assert(seq![s.drop_last()].drop_last().push(s) =~= seq![s]);
    }
}

/// A part after a separator is one more part.
pub proof fn lemma_split_append(a: Seq<char>, b: Seq<char>, sep: char)
    requires
        free_of(b, sep),
    ensures
        split(a + seq![sep] + b, sep) == split(a, sep).push(b),
    decreases b.len(),
{
    let whole = a + seq![sep] + b;
    if b.len() == 0 {
        assert(whole.drop_last() =~= a);
        assert(b =~= Seq::<char>::empty());
    } else {
        let front = b.drop_last();
        lemma_split_append(a, front, sep);
        assert(whole.drop_last() =~= a + seq![sep] + front);
        assert(whole.last() == b.last());
        assert(front.push(b.last()) =~= b);
        assert(split(a, sep).push(front).drop_last() =~= split(a, sep));
    }
}

/// The text of the ranks from the eighth down, as a list.
pub open spec fn rank_texts(squares: Seq<Option<Piece>>, k: nat) -> Seq<Seq<char>> {
    Seq::new(k, |i: int| rank_text(row_of(squares, 7 - i)))
}

/// The placement field splits into the texts of its ranks, and has no space
/// in it.
pub proof fn lemma_ranks_split(squares: Seq<Option<Piece>>, k: nat)
    requires
        squares.len() == 64,
        1 <= k <= 8,
    ensures
        split(ranks_text(squares, k), '/') == rank_texts(squares, k),
        free_of(ranks_text(squares, k), ' '),
    decreases k,
{
    let rank = rank_text(row_of(squares, 8 - k));
    lemma_rank_round_trip(row_of(squares, 8 - k));
    if k == 1 {
        lemma_split_free(rank, '/');
        assert(rank_texts(squares, 1) =~= seq![rank]);
    } else {
        lemma_ranks_split(squares, (k - 1) as nat);
        lemma_split_append(ranks_text(squares, (k - 1) as nat), rank, '/');
        assert(rank_texts(squares, (k - 1) as nat).push(rank) =~= rank_texts(squares, k));
    }
}

/// The lowest `k` ranks are read back from the texts of the ranks.
pub proof fn lemma_rows_round_trip(squares: Seq<Option<Piece>>, k: nat)
    requires
        squares.len() == 64,
        k <= 8,
    ensures
        rows_of(rank_texts(squares, 8), k) == Some(squares.subrange(0, 8 * (k as int))),
    decreases k,
{
    if k == 0 {
        assert(squares.subrange(0, 0) =~= Seq::<Option<Piece>>::empty());
    } else {
        lemma_rows_round_trip(squares, (k - 1) as nat);
        lemma_rank_round_trip(row_of(squares, k - 1));
        assert(rank_texts(squares, 8)[8 - k] == rank_text(row_of(squares, k - 1)));
        assert(squares.subrange(0, 8 * (k - 1)) + row_of(squares, k - 1) =~= squares.subrange(
            0,
            8 * (k as int),
        ));
    }
}

/// The 64 squares are read back from the placement field.
pub proof fn lemma_placement_round_trip(squares: Seq<Option<Piece>>)
    requires
        squares.len() == 64,
    ensures
        placement_of(ranks_text(squares, 8)) == Some(squares),
        free_of(ranks_text(squares, 8), ' '),
{
    lemma_ranks_split(squares, 8);
    lemma_rows_round_trip(squares, 8);
    assert(squares.subrange(0, 64) =~= squares);
}

/// The side to move is read back from the turn field.
pub proof fn lemma_turn_round_trip(turn: Color)
    ensures
        turn_of(turn_text(turn)) == Some(turn),
        free_of(turn_text(turn), ' '),
{
    assert(seq!['w'] != seq!['b']) by {
        assert(seq!['w'][0] != seq!['b'][0]);
    }
}

/// The castling rights are read back from the castling field.
pub proof fn lemma_castling_round_trip(c: Castling)
    ensures
        castling_of(castling_text(c)) == Some(c),
        free_of(castling_text(c), ' '),
{
    let text = castling_text(c);
    if !c.white_kingside && !c.white_queenside && !c.black_kingside && !c.black_queenside {
    } else {
        let k = flag_text(c.white_kingside, 'K');
        let q = flag_text(c.white_queenside, 'Q');
        let bk = flag_text(c.black_kingside, 'k');
        let bq = flag_text(c.black_queenside, 'q');
        assert(text == k + q + bk + bq);
        assert(text != seq!['-']) by {
            assert(text.len() > 0);
            assert(text[0] != '-');
        }
        let t1 = without(text, 'K');
        assert(starts_with(text, 'K') == c.white_kingside);
        assert(t1 =~= q + bk + bq);
        let t2 = without(t1, 'Q');
        assert(starts_with(t1, 'Q') == c.white_queenside);
        assert(t2 =~= bk + bq);
        let t3 = without(t2, 'k');
        assert(starts_with(t2, 'k') == c.black_kingside);
        assert(t3 =~= bq);
        let t4 = without(t3, 'q');
        assert(starts_with(t3, 'q') == c.black_queenside);
        assert(t4 =~= Seq::<char>::empty());
    }
}

/// An en-passant square on the board, or none, is read back from the
/// en-passant field.
pub proof fn lemma_en_passant_round_trip(sq: Option<Square>)
    requires
        sq matches Some(s) ==> s.on_board(),
    ensures
        en_passant_of(en_passant_text(sq)) == Some(sq),
        free_of(en_passant_text(sq), ' '),
{
    match sq {
        None => {},
        Some(s) => {
            let text = en_passant_text(sq);
            assert(text != seq!['-']) by {
                assert(text.len() == 2);
            }
            assert(file_value(file_char(s.col as int)) == Some(s.col));
            assert(rank_value(rank_char(s.row as int)) == Some(s.row));
        },
    }
}

/// A position is read back from its text.
pub proof fn lemma_parse_fen_text(v: BoardView)
    requires
        v.wf(),
    ensures
        parse_fen(fen_text(v)) == Some(v),
{
    let f0 = ranks_text(v.squares, 8);
    let f1 = turn_text(v.turn);
    let f2 = castling_text(v.castling);
    let f3 = en_passant_text(v.en_passant);
    let zero = seq!['0'];
    let sp = seq![' '];
    lemma_placement_round_trip(v.squares);
    lemma_turn_round_trip(v.turn);
    lemma_castling_round_trip(v.castling);
    lemma_en_passant_round_trip(v.en_passant);
    assert(is_digit('0'));
    assert(is_clock(zero));
    assert(free_of(zero, ' '));
    let s1 = f0 + sp + f1;
    let s2 = s1 + sp + f2;
    let s3 = s2 + sp + f3;
    let s4 = s3 + sp + zero;
    let s5 = s4 + sp + zero;
    assert(fen_text(v) =~= s5);
    lemma_split_free(f0, ' ');
    lemma_split_append(f0, f1, ' ');
    lemma_split_append(s1, f2, ' ');
    lemma_split_append(s2, f3, ' ');
    lemma_split_append(s3, zero, ' ');
    lemma_split_append(s4, zero, ' ');
    let fields = split(s5, ' ');
    assert(fields =~= seq![f0, f1, f2, f3, zero, zero]);
}

/// Writing a position and reading it again keeps the game: the side to
/// move is the same, and the board gives the same answer to every move, so
/// the same moves are legal.
pub proof fn lemma_text_keeps_the_game(v: BoardView, m: Move)
    requires
        v.wf(),
    ensures
        parse_fen(fen_text(v)) is Some,
        parse_fen(fen_text(v))->0.turn == v.turn,
        play_outcome(parse_fen(fen_text(v))->0, m) == play_outcome(v, m),
{
    lemma_parse_fen_text(v);
}

} // verus!
