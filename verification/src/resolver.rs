//! The rules of one turn: the player's move is played, the engine picks a
//! reply and plays it, and the turn ends in one of four states or fails.
//!
//! The decisions are a small state machine, [`step`], that never sees a
//! board. [`make_move`] runs it against the engine.

use vstd::prelude::*;
use vstd::string::*;
use crate::board::{BoardState, BoardView};
use crate::engine::{
    best_reply, board_ok, board_view, engine_best_move, engine_parse_move, engine_play,
    parsed_move, play_outcome, PlayResult, PlayView,
};
use crate::error::TurnError;
use crate::fen::{parse_board, parse_fen};
use crate::moves::{format_move, lemma_token_shape, move_token, Move};
use crate::position::{from_engine, realizable, to_engine};
use crate::token::{splits_a_character, splits_character};

verus! {

/// How far the engine looks ahead when it picks its reply.
pub const SEARCH_DEPTH: i32 = 2;

/// How a turn ends. `Win` is the end of the game on the player's own move,
/// `Loss` its end on the engine's reply.
#[derive(Clone, Copy, Debug, PartialEq, Eq, Structural)]
pub enum GameState {
    Ongoing,
    Win,
    Loss,
    Draw,
}

impl GameState {
    /// The number that stands for the state in a response.
    pub open spec fn spec_code(self) -> u8 {
        match self {
            GameState::Ongoing => 0,
            GameState::Win => 1,
            GameState::Loss => 2,
            GameState::Draw => 3,
        }
    }

    /// The number that stands for the state in a response: one of 0, 1, 2
    /// and 3.
    #[verifier::when_used_as_spec(spec_code)]
    pub fn code(self) -> (c: u8)
        ensures
            c == self.spec_code(),
            c < 4,
    {
        match self {
            GameState::Ongoing => 0,
            GameState::Win => 1,
            GameState::Loss => 2,
            GameState::Draw => 3,
        }
    }

    /// The state that a number stands for, if it stands for one.
    pub fn from_code(c: u8) -> (r: Option<GameState>)
        ensures
            r matches Some(s) ==> s.code() == c,
            r is None <==> c >= 4,
    {
        if c == 0 {
            Some(GameState::Ongoing)
        } else if c == 1 {
            Some(GameState::Win)
        } else if c == 2 {
            Some(GameState::Loss)
        } else if c == 3 {
            Some(GameState::Draw)
        } else {
            None
        }
    }
}

/// What a board says to a move, without the next position.
#[derive(Clone, Copy, Debug, PartialEq, Eq, Structural)]
pub enum Verdict {
    Continuing,
    Victory,
    Stalemate,
    Illegal,
}

/// The verdict in an answer of the board.
pub open spec fn verdict_of(p: PlayView) -> Verdict {
    match p {
        PlayView::Continuing(_) => Verdict::Continuing,
        PlayView::Victory => Verdict::Victory,
        PlayView::Stalemate => Verdict::Stalemate,
        PlayView::Illegal => Verdict::Illegal,
    }
}

/// Where a turn stands.
#[derive(Clone, Copy, Debug, PartialEq, Eq, Structural)]
pub enum Phase {
    AwaitingPlayerMove,
    PlayerMoveApplied,
    AwaitingReplyMove,
    Resolved(GameState),
    Fatal(TurnError),
}

/// What happens in a turn.
#[derive(Clone, Copy, Debug, PartialEq, Eq, Structural)]
pub enum Event {
    /// The board has answered the player's move.
    PlayerMove(Verdict),
    /// The engine has picked its reply.
    ReplyChosen,
    /// The board has answered the reply.
    ReplyMove(Verdict),
}

/// The phase after an event. An event that does not belong to the phase
/// changes nothing, so a resolved or failed turn stays as it is.
pub open spec fn next_phase(phase: Phase, event: Event) -> Phase {
    match (phase, event) {
        (Phase::AwaitingPlayerMove, Event::PlayerMove(v)) => match v {
            Verdict::Continuing => Phase::PlayerMoveApplied,
            Verdict::Victory => Phase::Resolved(GameState::Win),
            Verdict::Stalemate => Phase::Resolved(GameState::Draw),
            Verdict::Illegal => Phase::Fatal(TurnError::IllegalGameState),
        },
        (Phase::PlayerMoveApplied, Event::ReplyChosen) => Phase::AwaitingReplyMove,
        (Phase::AwaitingReplyMove, Event::ReplyMove(v)) => match v {
            Verdict::Continuing => Phase::Resolved(GameState::Ongoing),
            Verdict::Victory => Phase::Resolved(GameState::Loss),
            Verdict::Stalemate => Phase::Resolved(GameState::Draw),
            Verdict::Illegal => Phase::Fatal(TurnError::IllegalGameState),
        },
        _ => phase,
    }
}

/// Takes a turn from one phase to the next.
pub fn step(phase: Phase, event: Event) -> (next: Phase)
    ensures
        next == next_phase(phase, event),
{
    match (phase, event) {
        (Phase::AwaitingPlayerMove, Event::PlayerMove(v)) => match v {
            Verdict::Continuing => Phase::PlayerMoveApplied,
            Verdict::Victory => Phase::Resolved(GameState::Win),
            Verdict::Stalemate => Phase::Resolved(GameState::Draw),
            Verdict::Illegal => Phase::Fatal(TurnError::IllegalGameState),
        },
        (Phase::PlayerMoveApplied, Event::ReplyChosen) => Phase::AwaitingReplyMove,
        (Phase::AwaitingReplyMove, Event::ReplyMove(v)) => match v {
            Verdict::Continuing => Phase::Resolved(GameState::Ongoing),
            Verdict::Victory => Phase::Resolved(GameState::Loss),
            Verdict::Stalemate => Phase::Resolved(GameState::Draw),
            Verdict::Illegal => Phase::Fatal(TurnError::IllegalGameState),
        },
        _ => phase,
    }
}

/// A resolved turn: the position it ends in, the engine's reply in short
/// notation (empty where the turn ended on the player's move) and the state
/// of the game.
#[derive(Debug)]
pub struct TurnResult {
    pub board: BoardState,
    pub reply: String,
    pub state: GameState,
}

/// A resolved turn as a mathematical value.
pub struct TurnView {
    pub board: BoardView,
    pub reply: Seq<char>,
    pub state: GameState,
}

impl View for TurnResult {
    type V = TurnView;

    open spec fn view(&self) -> TurnView {
        TurnView { board: self.board@, reply: self.reply@, state: self.state }
    }
}

/// The view of a turn's result, resolved or failed.
pub open spec fn result_view(r: Result<TurnResult, TurnError>) -> Result<TurnView, TurnError> {
    match r {
        Ok(t) => Ok(t@),
        Err(e) => Err(e),
    }
}

/// The second half of a turn, from the position after the player's move:
/// the engine's reply is put to the board. Where the reply ends the game,
/// the board gives no next position, and the position stays the one after
/// the player's move.
pub open spec fn reply_spec(board: BoardView) -> Result<TurnView, TurnError> {
    let reply = best_reply(board, SEARCH_DEPTH as int);
    let answer = play_outcome(board, reply);
    match next_phase(Phase::AwaitingReplyMove, Event::ReplyMove(verdict_of(answer))) {
        Phase::Resolved(state) => Ok(
            TurnView {
                board: match answer {
                    PlayView::Continuing(next) => next,
                    _ => board,
                },
                reply: move_token(reply),
                state,
            },
        ),
        Phase::Fatal(e) => Err(e),
        _ => Err(TurnError::IllegalGameState),
    }
}

/// A whole turn from a position and the player's move. Where the game ends
/// on the player's move, there is no reply, and the position stays the one
/// before that move, not the one after it: the board gives no next position
/// with a victory or a stalemate.
pub open spec fn resolve_spec(board: BoardView, m: Move) -> Result<TurnView, TurnError> {
    let answer = play_outcome(board, m);
    match next_phase(Phase::AwaitingPlayerMove, Event::PlayerMove(verdict_of(answer))) {
        Phase::Resolved(state) => Ok(TurnView { board, reply: Seq::empty(), state }),
        Phase::Fatal(e) => Err(e),
        _ => match answer {
            PlayView::Continuing(next) => reply_spec(next),
            _ => Err(TurnError::IllegalGameState),
        },
    }
}

/// What holds of a turn that is resolved from the position `before`. A
/// turn that ends on the player's move leaves the position as it was and
/// has no reply. A turn that ends on the reply has a reply; where the game
/// goes on after it, both moves are played and the turn is the player's
/// again, else the reply is not played and the turn is the engine's.
pub open spec fn turn_shape(before: BoardView, turn: TurnView) -> bool {
    &&& turn.board.wf()
    &&& turn.state == GameState::Win ==> turn.board == before && turn.reply.len() == 0
    &&& turn.reply.len() == 0 ==> turn.board == before && (turn.state == GameState::Win
        || turn.state == GameState::Draw)
    &&& turn.state == GameState::Ongoing ==> turn.board.turn == before.turn && turn.reply.len()
        > 0
    &&& turn.state == GameState::Loss ==> turn.board.turn == before.turn.opponent()
        && turn.reply.len() > 0
}

/// The verdict in an answer of the board.
fn verdict(p: &PlayResult) -> (v: Verdict)
    ensures
        v == verdict_of(p@),
{
    match p {
        PlayResult::Continuing(_) => Verdict::Continuing,
        PlayResult::Victory => Verdict::Victory,
        PlayResult::Stalemate => Verdict::Stalemate,
        PlayResult::Illegal => Verdict::Illegal,
    }
}

/// Picks the engine's reply on the board after the player's move and plays
/// it.
fn resolve_reply(b: &chess_engine::Board) -> (r: Result<TurnResult, TurnError>)
    requires
        board_ok(*b),
    ensures
        result_view(r) == reply_spec(board_view(*b)),
        r matches Ok(t) ==> {
            &&& t.board.wf()
            &&& t.reply@.len() > 0
            &&& t.state != GameState::Win
            &&& t.state == GameState::Ongoing ==> t.board@.turn == board_view(*b).turn.opponent()
            &&& t.state != GameState::Ongoing ==> t.board@ == board_view(*b)
        },
{
    let phase = step(Phase::PlayerMoveApplied, Event::ReplyChosen);
    let reply = engine_best_move(b, SEARCH_DEPTH);
    let answer = engine_play(b, reply);
    match step(phase, Event::ReplyMove(verdict(&answer))) {
        Phase::Resolved(state) => {
            let board = match answer {
                PlayResult::Continuing(next) => from_engine(&next),
                _ => from_engine(b),
            };
            Ok(TurnResult { board, reply: format_move(reply), state })
        },
        Phase::Fatal(e) => Err(e),
        _ => Err(TurnError::IllegalGameState),
    }
}

/// Plays the player's move on a board of the engine, and the engine's reply
/// where the game goes on.
fn resolve(b: &chess_engine::Board, m: Move) -> (r: Result<TurnResult, TurnError>)
    requires
        board_ok(*b),
        !(m is Promotion),
        m.near_board(),
    ensures
        result_view(r) == resolve_spec(board_view(*b), m),
        r matches Ok(t) ==> turn_shape(board_view(*b), t@),
{
    let answer = engine_play(b, m);
    match step(Phase::AwaitingPlayerMove, Event::PlayerMove(verdict(&answer))) {
        Phase::Resolved(state) => Ok(
            TurnResult { board: from_engine(b), reply: String::new(), state },
        ),
        Phase::Fatal(e) => Err(e),
        _ => match answer {
            PlayResult::Continuing(next) => resolve_reply(&next),
            _ => Err(TurnError::IllegalGameState),
        },
    }
}

/// A whole turn from the text of a position and the player's move token.
/// The text must stand for a position that the engine can hold, and the
/// token must be one that the engine's parser can take and a move in its
/// reading; else the request is malformed.
pub open spec fn make_move_spec(fen: Seq<char>, token: Seq<char>) -> Result<TurnView, TurnError> {
    match parse_fen(fen) {
        None => Err(TurnError::MalformedInput),
        Some(board) => {
            if !realizable(board) || splits_a_character(token) {
                Err(TurnError::MalformedInput)
            } else {
                match parsed_move(token) {
                    None => Err(TurnError::MalformedInput),
                    Some(m) => resolve_spec(board, m),
                }
            }
        },
    }
}

/// Resolves one turn: reads the position and the player's move, plays the
/// move, and lets the engine reply where the game goes on.
pub fn make_move(board_fen: &str, player_move: &str) -> (r: Result<TurnResult, TurnError>)
    ensures
        result_view(r) == make_move_spec(board_fen@, player_move@),
        r matches Ok(t) ==> parse_fen(board_fen@) matches Some(before) && turn_shape(before, t@),
{
    let state = match parse_board(board_fen) {
        None => {
            return Err(TurnError::MalformedInput);
        },
        Some(state) => state,
    };
    let board = match to_engine(&state) {
        None => {
            return Err(TurnError::MalformedInput);
        },
        Some(board) => board,
    };
    if splits_character(player_move) {
        return Err(TurnError::MalformedInput);
    }
    match engine_parse_move(player_move) {
        None => Err(TurnError::MalformedInput),
        Some(m) => resolve(&board, m),
    }
}

/// A move that the board does not refuse is never the reason why a turn
/// fails: the turn then ends on that move, or goes on to the reply. And a
/// move that the board refuses always fails the turn.
pub proof fn lemma_legal_move_is_applied(board: BoardView, m: Move)
    ensures
        play_outcome(board, m) is Illegal <==> next_phase(
            Phase::AwaitingPlayerMove,
            Event::PlayerMove(verdict_of(play_outcome(board, m))),
        ) is Fatal,
        play_outcome(board, m) is Illegal ==> resolve_spec(board, m) == Err::<
            TurnView,
            TurnError,
        >(TurnError::IllegalGameState),
        play_outcome(board, m) is Victory ==> resolve_spec(board, m) == Ok::<TurnView, TurnError>(
            TurnView { board, reply: Seq::empty(), state: GameState::Win },
        ),
        play_outcome(board, m) is Stalemate ==> resolve_spec(board, m) == Ok::<
            TurnView,
            TurnError,
        >(TurnView { board, reply: Seq::empty(), state: GameState::Draw }),
        play_outcome(board, m) matches PlayView::Continuing(next) ==> resolve_spec(board, m)
            == reply_spec(next),
{
}

/// A turn that is resolved on the reply has a reply that is not empty, and
/// its state is one of `Ongoing`, `Loss` and `Draw`; a turn never fails as
/// malformed once the position and the move are read.
pub proof fn lemma_reply_shape(board: BoardView)
    ensures
        match reply_spec(board) {
            Ok(turn) => turn.reply.len() > 0 && turn.state != GameState::Win,
            Err(e) => e == TurnError::IllegalGameState,
        },
{
    lemma_token_shape(best_reply(board, SEARCH_DEPTH as int));
}

/// The table of a turn, over what the board answers to the player's move
/// and, where the game goes on, to the reply that the search picks.
pub open spec fn turn_table(board: BoardView, m: Move) -> Result<TurnView, TurnError> {
    match play_outcome(board, m) {
        PlayView::Illegal => Err(TurnError::IllegalGameState),
        PlayView::Victory => Ok(TurnView { board, reply: Seq::empty(), state: GameState::Win }),
        PlayView::Stalemate => Ok(
            TurnView { board, reply: Seq::empty(), state: GameState::Draw },
        ),
        PlayView::Continuing(next) => {
            let reply = best_reply(next, SEARCH_DEPTH as int);
            match play_outcome(next, reply) {
                PlayView::Illegal => Err(TurnError::IllegalGameState),
                PlayView::Victory => Ok(
                    TurnView { board: next, reply: move_token(reply), state: GameState::Loss },
                ),
                PlayView::Stalemate => Ok(
                    TurnView { board: next, reply: move_token(reply), state: GameState::Draw },
                ),
                PlayView::Continuing(last) => Ok(
                    TurnView { board: last, reply: move_token(reply), state: GameState::Ongoing },
                ),
            }
        },
    }
}

/// A turn is its table: the state is derived from the answers of the board
/// and from nothing else, and the reply is the token of the move that the
/// search picked, which is not empty.
pub proof fn lemma_turn_table(board: BoardView, m: Move)
    ensures
        resolve_spec(board, m) == turn_table(board, m),
        turn_table(board, m) matches Ok(turn) ==> (turn.reply.len() == 0 <==> !(play_outcome(
            board,
            m,
        ) is Continuing)),
{
    match play_outcome(board, m) {
        PlayView::Continuing(next) => {
            lemma_token_shape(best_reply(next, SEARCH_DEPTH as int));
        },
        _ => {},
    }
}

/// A turn fails only as an illegal state of the game, and exactly when the
/// board refuses the player's move or the reply. So where the player's move
/// is legal and the reply of the search is legal on the board that follows,
/// the turn is resolved.
pub proof fn lemma_fails_only_when_refused(board: BoardView, m: Move)
    ensures
        resolve_spec(board, m) matches Err(e) ==> e == TurnError::IllegalGameState,
        resolve_spec(board, m) is Err <==> (play_outcome(board, m) is Illegal || (play_outcome(
            board,
            m,
        ) matches PlayView::Continuing(next) && play_outcome(
            next,
            best_reply(next, SEARCH_DEPTH as int),
        ) is Illegal)),
{
    lemma_turn_table(board, m);
}

/// A request whose position and move can be read is answered by the table
/// of the turn, and a request is malformed exactly when one of them cannot
/// be read.
pub proof fn lemma_make_move_table(fen: Seq<char>, token: Seq<char>)
    ensures
        make_move_spec(fen, token) == Err::<TurnView, TurnError>(TurnError::MalformedInput) <==> (
        parse_fen(fen) is None || !realizable(parse_fen(fen)->0) || splits_a_character(token)
            || parsed_move(token) is None),
        (parse_fen(fen) matches Some(board) && realizable(board) && !splits_a_character(token)
            && parsed_move(token) is Some) ==> make_move_spec(fen, token) == turn_table(
            parse_fen(fen)->0,
            parsed_move(token)->0,
        ),
{
    if parse_fen(fen) is Some && parsed_move(token) is Some {
        lemma_fails_only_when_refused(parse_fen(fen)->0, parsed_move(token)->0);
    }
}

} // verus!
