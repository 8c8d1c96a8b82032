//! Messages from the server to a client.

use vstd::prelude::*;
use crate::game::GameId;

verus! {

/// What the server tells a client.
#[derive(Debug, Clone, PartialEq, Eq)]
pub enum Event<GameEvent, GameDetails> {
    /// The games there are.
    GameListing(Vec<GameDetails>),
    /// A game was created.
    GameCreated(GameDetails),
    /// A game was joined.
    GameJoined(GameDetails),
    /// A game was abandoned.
    GameAbandoned(GameId),
    /// A move or other event within a game.
    GameEvent(GameId, GameEvent),
}

} // verus!
