use chess_engine::{Board, BoardBuilder, Color as EngineColor, Piece as EnginePiece, Position};
use chess_turn::board::Castling;
use chess_turn::fen::{board_text, parse_board};
use chess_turn::moves::{Color, Piece, PieceKind, Square};
use chess_turn::position::{from_engine, is_realizable, to_engine};

const START: &str = "rnbqkbnr/pppppppp/8/8/8/8/PPPPPPPP/RNBQKBNR w KQkq - 0 1";

#[test]
fn the_starting_position_is_the_engines_default_board() {
    let state = parse_board(START).unwrap();
    assert_eq!(to_engine(&state), Some(Board::default()));
}

#[test]
fn the_engines_default_board_is_the_starting_position() {
    let state = from_engine(&Board::default());
    assert_eq!(
        board_text(&state),
        "rnbqkbnr/pppppppp/8/8/8/8/PPPPPPPP/RNBQKBNR w KQkq - 0 0"
    );
}

#[test]
fn pieces_stand_where_the_text_puts_them() {
    let state = parse_board("8/8/8/3q4/8/8/1N6/K6k b - - 0 1").unwrap();
    let board = to_engine(&state).unwrap();
    assert_eq!(
        board.get_piece(Position::new(4, 3)),
        Some(EnginePiece::Queen(EngineColor::Black, Position::new(4, 3)))
    );
    assert_eq!(
        board.get_piece(Position::new(1, 1)),
        Some(EnginePiece::Knight(EngineColor::White, Position::new(1, 1)))
    );
    assert_eq!(
        board.get_piece(Position::new(0, 0)),
        Some(EnginePiece::King(EngineColor::White, Position::new(0, 0)))
    );
    assert_eq!(
        board.get_piece(Position::new(0, 7)),
        Some(EnginePiece::King(EngineColor::Black, Position::new(0, 7)))
    );
    assert_eq!(board.get_piece(Position::new(3, 3)), None);
    assert_eq!(board.get_turn_color(), EngineColor::Black);
    assert_eq!(board.get_en_passant(), None);
    let expected = BoardBuilder::default()
        .piece(EnginePiece::Queen(EngineColor::Black, Position::new(4, 3)))
        .piece(EnginePiece::Knight(EngineColor::White, Position::new(1, 1)))
        .piece(EnginePiece::King(EngineColor::White, Position::new(0, 0)))
        .piece(EnginePiece::King(EngineColor::Black, Position::new(0, 7)))
        .build()
        .set_turn(EngineColor::Black);
    assert_eq!(board, expected);
}

#[test]
fn every_kind_of_piece_goes_to_the_engine_and_back() {
    let text = "kqrbnp2/8/8/8/8/8/8/KQRBNP2 w - - 0 0";
    let state = parse_board(text).unwrap();
    let board = to_engine(&state).unwrap();
    let back = from_engine(&board);
    assert_eq!(board_text(&back), text);
    assert_eq!(back.squares[0], Some(Piece { color: Color::White, kind: PieceKind::King }));
    assert_eq!(back.squares[5], Some(Piece { color: Color::White, kind: PieceKind::Pawn }));
    assert_eq!(back.squares[56], Some(Piece { color: Color::Black, kind: PieceKind::King }));
    assert_eq!(back.squares[60], Some(Piece { color: Color::Black, kind: PieceKind::Knight }));
}

#[test]
fn castling_rights_go_to_the_engine_and_back() {
    for bits in 0..16u8 {
        let castling = Castling {
            white_kingside: bits & 1 != 0,
            white_queenside: bits & 2 != 0,
            black_kingside: bits & 4 != 0,
            black_queenside: bits & 8 != 0,
        };
        for turn in [Color::White, Color::Black] {
            let mut state = parse_board("r3k2r/8/8/8/8/8/8/R3K2R w - - 0 1").unwrap();
            state.castling = castling;
            state.turn = turn;
            let board = to_engine(&state).unwrap();
            let back = from_engine(&board);
            assert_eq!(back.castling, castling);
            assert_eq!(back.turn, turn);
            assert_eq!(back.squares, state.squares);
            assert_eq!(back.en_passant, None);
        }
    }
}

#[test]
fn castling_rights_are_seen_by_the_engine() {
    let with = parse_board("r3k2r/8/8/8/8/8/8/R3K2R w K - 0 1").unwrap();
    let without = parse_board("r3k2r/8/8/8/8/8/8/R3K2R w - - 0 1").unwrap();
    assert!(to_engine(&with).unwrap().can_kingside_castle(EngineColor::White));
    assert!(!to_engine(&with).unwrap().can_queenside_castle(EngineColor::White));
    assert!(!to_engine(&without).unwrap().can_kingside_castle(EngineColor::White));
    let black = parse_board("r3k2r/8/8/8/8/8/8/R3K2R b q - 0 1").unwrap();
    assert!(to_engine(&black).unwrap().can_queenside_castle(EngineColor::Black));
    assert!(!to_engine(&black).unwrap().can_kingside_castle(EngineColor::Black));
}

#[test]
fn an_en_passant_square_goes_to_the_engine_and_back() {
    let texts = [
        "rnbqkbnr/pppp1ppp/8/4p3/4P3/8/PPPP1PPP/RNBQKBNR w KQkq e6 0 0",
        "rnbqkbnr/pppppppp/8/8/4P3/8/PPPP1PPP/RNBQKBNR b KQkq e3 0 0",
        "rnbqkbnr/p1pppppp/8/1p6/8/8/PPPPPPPP/RNBQKBNR w Kq b6 0 0",
        "rnbqkbnr/pppppppp/8/8/7P/8/PPPPPPP1/RNBQKBNR b - h3 0 0",
    ];
    for text in texts {
        let state = parse_board(text).unwrap();
        assert!(is_realizable(&state));
        let board = to_engine(&state).unwrap();
        let sq = state.en_passant.unwrap();
        assert_eq!(board.get_en_passant(), Some(Position::new(sq.row, sq.col)));
        let back = from_engine(&board);
        assert_eq!(board_text(&back), text);
        assert_eq!(back.en_passant, Some(sq));
    }
}

#[test]
fn the_engine_reaches_the_same_board_by_playing_the_push() {
    let played = match Board::default().play_move(chess_engine::Move::Piece(
        Position::new(1, 4),
        Position::new(3, 4),
    )) {
        chess_engine::GameResult::Continuing(b) => b,
        _ => panic!("the opening move was refused"),
    };
    let state =
        parse_board("rnbqkbnr/pppppppp/8/8/4P3/8/PPPP1PPP/RNBQKBNR b KQkq e3 0 1").unwrap();
    assert_eq!(to_engine(&state), Some(played));
    assert_eq!(
        board_text(&from_engine(&played)),
        "rnbqkbnr/pppppppp/8/8/4P3/8/PPPP1PPP/RNBQKBNR b KQkq e3 0 0"
    );
}

#[test]
fn an_en_passant_square_that_does_not_fit_is_refused() {
    let bad = [
        "rnbqkbnr/pppppppp/8/8/8/8/PPPPPPPP/RNBQKBNR w KQkq e6 0 1",
        "rnbqkbnr/pppp1ppp/8/4p3/4P3/8/PPPP1PPP/RNBQKBNR w KQkq e3 0 1",
        "rnbqkbnr/pppp1ppp/8/4p3/4P3/8/PPPP1PPP/RNBQKBNR b KQkq e6 0 1",
        "rnbqkbnr/pppp1ppp/8/4p3/4P3/8/PPPP1PPP/RNBQKBNR w KQkq d6 0 1",
        "rnbqkbnr/pppp1ppp/8/4p3/4P3/8/PPPP1PPP/RNBQKBNR w KQkq e5 0 1",
        "rnbqkbnr/pppppppp/8/4p3/4P3/8/PPPP1PPP/RNBQKBNR w KQkq e6 0 1",
        "rnbqkbnr/pppp1ppp/8/4P3/8/8/PPPP1PPP/RNBQKBNR w KQkq e6 0 1",
    ];
    for text in bad {
        let state = parse_board(text).unwrap();
        assert!(!is_realizable(&state), "{}", text);
        assert_eq!(to_engine(&state), None, "{}", text);
    }
}

#[test]
fn a_position_of_another_size_is_refused() {
    let mut state = parse_board(START).unwrap();
    state.squares.pop();
    assert_eq!(to_engine(&state), None);
    state.squares.push(None);
    state.squares.push(None);
    assert_eq!(to_engine(&state), None);
}

#[test]
fn an_en_passant_square_beside_the_board_is_refused() {
    let mut state = parse_board(START).unwrap();
    state.en_passant = Some(Square { row: 5, col: 8 });
    assert_eq!(to_engine(&state), None);
    state.en_passant = Some(Square { row: 5, col: -1 });
    assert_eq!(to_engine(&state), None);
}

#[test]
fn a_castle_without_a_king_moves_nothing_and_keeps_the_en_passant_square() {
    let text = "4k3/8/8/4p3/8/8/8/7R w K e6 0 1";
    let state = parse_board(text).unwrap();
    let board = to_engine(&state).unwrap();
    let next = match board.play_move(chess_engine::Move::KingSideCastle) {
        chess_engine::GameResult::Continuing(b) => b,
        other => panic!("the castle was answered with {:?}", other),
    };
    assert_eq!(next.get_turn_color(), EngineColor::Black);
    assert_eq!(next.get_en_passant(), Some(Position::new(5, 4)));
    let read = from_engine(&next);
    assert_eq!(read.squares, state.squares);
    assert_eq!(read.castling, state.castling);
    assert_eq!(read.turn, Color::Black);
    assert_eq!(read.en_passant, Some(Square { row: 5, col: 4 }));
    assert_eq!(board_text(&read), "4k3/8/8/4p3/8/8/8/7R b K e6 0 0");
    assert!(!is_realizable(&read));
}
