use chess_turn::board::{BoardState, Castling};
use chess_turn::fen::{board_text, parse_board};
use chess_turn::moves::{Color, Piece, PieceKind, Square};

const START: &str = "rnbqkbnr/pppppppp/8/8/8/8/PPPPPPPP/RNBQKBNR w KQkq - 0 1";

fn piece(color: Color, kind: PieceKind) -> Option<Piece> {
    Some(Piece { color, kind })
}

fn at(state: &BoardState, row: usize, col: usize) -> Option<Piece> {
    state.squares[row * 8 + col]
}

#[test]
fn reads_the_starting_position() {
    let state = parse_board(START).unwrap();
    assert_eq!(state.squares.len(), 64);
    assert_eq!(state.turn, Color::White);
    assert_eq!(
        state.castling,
        Castling {
            white_kingside: true,
            white_queenside: true,
            black_kingside: true,
            black_queenside: true
        }
    );
    assert_eq!(state.en_passant, None);
    assert_eq!(at(&state, 0, 0), piece(Color::White, PieceKind::Rook));
    assert_eq!(at(&state, 0, 1), piece(Color::White, PieceKind::Knight));
    assert_eq!(at(&state, 0, 2), piece(Color::White, PieceKind::Bishop));
    assert_eq!(at(&state, 0, 3), piece(Color::White, PieceKind::Queen));
    assert_eq!(at(&state, 0, 4), piece(Color::White, PieceKind::King));
    assert_eq!(at(&state, 7, 3), piece(Color::Black, PieceKind::Queen));
    assert_eq!(at(&state, 7, 4), piece(Color::Black, PieceKind::King));
    for col in 0..8 {
        assert_eq!(at(&state, 1, col), piece(Color::White, PieceKind::Pawn));
        assert_eq!(at(&state, 6, col), piece(Color::Black, PieceKind::Pawn));
        for row in 2..6 {
            assert_eq!(at(&state, row, col), None);
        }
    }
}

#[test]
fn writes_the_starting_position_with_clocks_at_zero() {
    let state = parse_board(START).unwrap();
    assert_eq!(
        board_text(&state),
        "rnbqkbnr/pppppppp/8/8/8/8/PPPPPPPP/RNBQKBNR w KQkq - 0 0"
    );
}

#[test]
fn clocks_are_read_and_dropped() {
    let a = parse_board("8/8/8/8/8/8/8/K6k b - - 12 34").unwrap();
    let b = parse_board("8/8/8/8/8/8/8/K6k b - - 0 0").unwrap();
    assert_eq!(board_text(&a), "8/8/8/8/8/8/8/K6k b - - 0 0");
    assert_eq!(board_text(&a), board_text(&b));
    assert_eq!(a.squares, b.squares);
}

#[test]
fn reads_and_writes_an_en_passant_square() {
    let text = "rnbqkbnr/pppp1ppp/8/4p3/4P3/8/PPPP1PPP/RNBQKBNR w KQkq e6 0 0";
    let state = parse_board(text).unwrap();
    assert_eq!(state.en_passant, Some(Square { row: 5, col: 4 }));
    assert_eq!(at(&state, 4, 4), piece(Color::Black, PieceKind::Pawn));
    assert_eq!(at(&state, 3, 4), piece(Color::White, PieceKind::Pawn));
    assert_eq!(board_text(&state), text);
}

#[test]
fn reads_and_writes_every_set_of_castling_rights() {
    for bits in 0..16u8 {
        let castling = Castling {
            white_kingside: bits & 1 != 0,
            white_queenside: bits & 2 != 0,
            black_kingside: bits & 4 != 0,
            black_queenside: bits & 8 != 0,
        };
        let mut field = String::new();
        if castling.white_kingside {
            field.push('K');
        }
        if castling.white_queenside {
            field.push('Q');
        }
        if castling.black_kingside {
            field.push('k');
        }
        if castling.black_queenside {
            field.push('q');
        }
        if field.is_empty() {
            field.push('-');
        }
        let text = format!("r3k2r/8/8/8/8/8/8/R3K2R b {} - 0 0", field);
        let state = parse_board(&text).unwrap();
        assert_eq!(state.castling, castling);
        assert_eq!(board_text(&state), text);
    }
}

#[test]
fn text_and_position_go_round() {
    let texts = [
        "rnbqkbnr/pppppppp/8/8/8/8/PPPPPPPP/RNBQKBNR w KQkq - 0 0",
        "r1bqkb1r/pppp1ppp/2n2n2/4p2Q/2B1P3/8/PPPP1PPP/RNB1K1NR w KQkq - 0 0",
        "8/8/8/8/8/8/8/8 w - - 0 0",
        "1p1p1p1p/p1p1p1p1/1P1P1P1P/P1P1P1P1/7k/K7/8/8 b - a3 0 0",
        "6k1/5ppp/8/8/8/8/8/R3K3 w Q - 0 0",
        "PPPPPPPP/8/8/8/8/8/8/pppppppp b - h6 0 0",
    ];
    for text in texts {
        let state = parse_board(text).unwrap();
        assert_eq!(board_text(&state), text);
        let again = parse_board(&board_text(&state)).unwrap();
        assert_eq!(again.squares, state.squares);
        assert_eq!(again.turn, state.turn);
        assert_eq!(again.castling, state.castling);
        assert_eq!(again.en_passant, state.en_passant);
    }
}

#[test]
fn a_run_of_empty_squares_may_be_written_in_pieces() {
    let a = parse_board("44/8/8/8/8/8/8/K1111111 w - - 0 1").unwrap();
    assert_eq!(board_text(&a), "8/8/8/8/8/8/8/K7 w - - 0 0");
}

#[test]
fn refuses_text_that_is_no_position() {
    let bad = [
        "",
        " ",
        "rnbqkbnr/pppppppp/8/8/8/8/PPPPPPPP/RNBQKBNR",
        "rnbqkbnr/pppppppp/8/8/8/8/PPPPPPPP/RNBQKBNR w KQkq - 0",
        "rnbqkbnr/pppppppp/8/8/8/8/PPPPPPPP/RNBQKBNR w KQkq - 0 1 ",
        " rnbqkbnr/pppppppp/8/8/8/8/PPPPPPPP/RNBQKBNR w KQkq - 0 1",
        "rnbqkbnr/pppppppp/8/8/8/8/PPPPPPPP/RNBQKBNR  w KQkq - 0 1",
        "rnbqkbnr/pppppppp/8/8/8/8/PPPPPPPP w KQkq - 0 1",
        "rnbqkbnr/pppppppp/8/8/8/8/8/PPPPPPPP/RNBQKBNR w KQkq - 0 1",
        "rnbqkbnr/pppppppp/9/8/8/8/PPPPPPPP/RNBQKBNR w KQkq - 0 1",
        "rnbqkbnr/pppppppp/7/8/8/8/PPPPPPPP/RNBQKBNR w KQkq - 0 1",
        "rnbqkbnr/pppppppp/0/8/8/8/PPPPPPPP/RNBQKBNR w KQkq - 0 1",
        "rnbqkbnrr/pppppppp/8/8/8/8/PPPPPPPP/RNBQKBNR w KQkq - 0 1",
        "rnbqkbnx/pppppppp/8/8/8/8/PPPPPPPP/RNBQKBNR w KQkq - 0 1",
        "rnbqkbnr/pppppppp/8/8/8/8/PPPPPPPP/RNBQKBNR x KQkq - 0 1",
        "rnbqkbnr/pppppppp/8/8/8/8/PPPPPPPP/RNBQKBNR W KQkq - 0 1",
        "rnbqkbnr/pppppppp/8/8/8/8/PPPPPPPP/RNBQKBNR w QK - 0 1",
        "rnbqkbnr/pppppppp/8/8/8/8/PPPPPPPP/RNBQKBNR w KK - 0 1",
        "rnbqkbnr/pppppppp/8/8/8/8/PPPPPPPP/RNBQKBNR w K- - 0 1",
        "rnbqkbnr/pppppppp/8/8/8/8/PPPPPPPP/RNBQKBNR w KQkq e9 0 1",
        "rnbqkbnr/pppppppp/8/8/8/8/PPPPPPPP/RNBQKBNR w KQkq i3 0 1",
        "rnbqkbnr/pppppppp/8/8/8/8/PPPPPPPP/RNBQKBNR w KQkq e 0 1",
        "rnbqkbnr/pppppppp/8/8/8/8/PPPPPPPP/RNBQKBNR w KQkq - x 1",
        "rnbqkbnr/pppppppp/8/8/8/8/PPPPPPPP/RNBQKBNR w KQkq - 0 -1",
        "rnbqkbnr/pppppppp/8/8/8/8/PPPPPPPP/RNBQKBNR w KQkq - 0 ١",
        "rnbqkbnr/pppppppp/8/8/8/8/PPPPPPPP/RNBQKBNR\tw KQkq - 0 1",
    ];
    for text in bad {
        assert!(parse_board(text).is_none(), "{:?}", text);
    }
}
