//! One turn of a chess game against an automated opponent, resolved as a pure
//! function from a request buffer to a response buffer.
//!
//! A request is a tuple of two texts in the contract ABI layout: a position
//! in Forsyth-Edwards notation and the player's move. The player's move is
//! played, the engine picks its reply and plays it, and the response is the
//! tuple of the position as it came, the position after the turn, the reply
//! and the state of the game.
//!
//! - [`abi`] is the codec for tuples of texts and numbers, over the words of
//!   [`word`]; [`abi_laws`] proves that decoding and encoding undo each
//!   other, and [`params`] holds a tuple with its field types.
//! - [`moves`] holds moves, squares and pieces, and the short notation of a
//!   move.
//! - [`board`] is the position as plain values, [`fen`] its text form, over
//!   the helpers of [`text`]; [`fen_laws`] proves that a position is read
//!   back from its text.
//! - [`token`] tells which move tokens the engine's parser can take.
//! - [`engine`] is the boundary to the chess engine: what its calls do is
//!   stated there without proof. [`position`] carries a position to the
//!   engine's board and back.
//! - [`resolver`] holds the rules of a turn and [`driver`] the pipeline from
//!   bytes to bytes; [`error`] names the two ways a turn can fail.

pub mod error;
pub mod text;
pub mod word;
pub mod abi;
pub mod abi_laws;
pub mod params;
pub mod moves;
pub mod token;
pub mod board;
pub mod fen;
pub mod fen_laws;
pub mod engine;
pub mod position;
pub mod resolver;
pub mod driver;
