//! Why a turn has no response.

use vstd::prelude::*;

verus! {

/// Why a turn has no response. Either kind ends the turn at once: there is
/// no partial response.
#[derive(Clone, Copy, Debug, PartialEq, Eq, Structural)]
pub enum TurnError {
    /// The request cannot be read: its bytes, its board or its move token.
    MalformedInput,
    /// The board has refused a move, the player's or the engine's own.
    IllegalGameState,
}

} // verus!
