use chess_engine::{Board, Evaluate, GameResult, Move as EngineMove};
use chess_turn::fen::{board_text, parse_board};
use chess_turn::position::{from_engine, to_engine};
use chess_turn::resolver::{make_move, GameState};

fn token(m: EngineMove) -> String {
    match m {
        EngineMove::Piece(from, to) => format!("{}{}", from, to),
        EngineMove::KingSideCastle => "O-O".to_string(),
        EngineMove::QueenSideCastle => "O-O-O".to_string(),
        EngineMove::Resign => "Resign".to_string(),
    }
}

fn play_through(mut board: Board, turns: usize, player_depth: i32) -> usize {
    let mut text = board_text(&from_engine(&board));
    let mut played = 0;
    for _ in 0..turns {
        let (player, _, _) = board.get_best_next_move(player_depth);
        if player == EngineMove::Resign {
            break;
        }
        let turn = make_move(&text, &token(player)).unwrap();
        let after_player = match board.play_move(player) {
            GameResult::Continuing(b) => b,
            GameResult::Victory(_) => {
                assert_eq!(turn.state, GameState::Win);
                assert_eq!(turn.reply, "");
                assert_eq!(to_engine(&turn.board), Some(board));
                break;
            }
            GameResult::Stalemate => {
                assert_eq!(turn.state, GameState::Draw);
                assert_eq!(turn.reply, "");
                assert_eq!(to_engine(&turn.board), Some(board));
                break;
            }
            GameResult::IllegalMove(_) => panic!("the engine refused its own move"),
        };
        let (reply, _, _) = after_player.get_best_next_move(2);
        assert_eq!(turn.reply, token(reply));
        match after_player.play_move(reply) {
            GameResult::Continuing(b) => {
                assert_eq!(turn.state, GameState::Ongoing);
                assert_eq!(to_engine(&turn.board), Some(b));
                board = b;
            }
            GameResult::Victory(_) => {
                assert_eq!(turn.state, GameState::Loss);
                assert_eq!(to_engine(&turn.board), Some(after_player));
                break;
            }
            GameResult::Stalemate => {
                assert_eq!(turn.state, GameState::Draw);
                assert_eq!(to_engine(&turn.board), Some(after_player));
                break;
            }
            GameResult::IllegalMove(_) => panic!("the engine refused its own reply"),
        }
        text = board_text(&turn.board);
        assert_eq!(to_engine(&parse_board(&text).unwrap()), Some(board));
        played += 1;
    }
    played
}

#[test]
fn a_game_through_texts_is_the_game_on_the_engine() {
    let played = play_through(Board::default(), 12, 1);
    assert!(played >= 4, "{} turns", played);
}

#[test]
fn a_game_from_a_middle_position_is_the_game_on_the_engine() {
    let state =
        parse_board("r3k2r/ppp2ppp/2n1bn2/3pp3/3PP3/2N1BN2/PPP2PPP/R3K2R w KQkq - 0 1").unwrap();
    let board = to_engine(&state).unwrap();
    let played = play_through(board, 8, 0);
    assert!(played >= 2, "{} turns", played);
}

#[test]
fn a_game_as_black_is_the_game_on_the_engine() {
    let state =
        parse_board("rnbqkbnr/pppppppp/8/8/3P4/8/PPP1PPPP/RNBQKBNR b KQkq d3 0 1").unwrap();
    let board = to_engine(&state).unwrap();
    let played = play_through(board, 8, 1);
    assert!(played >= 2, "{} turns", played);
}

#[test]
fn a_turn_that_starts_with_a_castle_without_a_king_is_the_turn_on_the_engine() {
    let text = "4k3/8/8/4p3/8/8/8/7R w K e6 0 1";
    let board = to_engine(&parse_board(text).unwrap()).unwrap();
    let turn = make_move(text, "O-O").unwrap();
    let after_player = match board.play_move(EngineMove::KingSideCastle) {
        GameResult::Continuing(b) => b,
        other => panic!("the castle was answered with {:?}", other),
    };
    let (reply, _, _) = after_player.get_best_next_move(2);
    assert_eq!(turn.reply, token(reply));
    match after_player.play_move(reply) {
        GameResult::Continuing(b) => {
            assert_eq!(turn.state, GameState::Ongoing);
            assert_eq!(board_text(&turn.board), board_text(&from_engine(&b)));
        }
        GameResult::Victory(_) => {
            assert_eq!(turn.state, GameState::Loss);
            assert_eq!(board_text(&turn.board), board_text(&from_engine(&after_player)));
        }
        GameResult::Stalemate => {
            assert_eq!(turn.state, GameState::Draw);
            assert_eq!(board_text(&turn.board), board_text(&from_engine(&after_player)));
        }
        GameResult::IllegalMove(_) => panic!("the engine refused its own reply"),
    }
}
