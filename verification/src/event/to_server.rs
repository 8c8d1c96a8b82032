//! Messages from a client to the server.

use vstd::prelude::*;
use crate::game::{GameId, Player};

verus! {

/// A message from a client: who sends it, and what it asks for.
#[derive(Debug, Clone, PartialEq, Eq)]
pub struct Event<GameEvent, GameDescription> {
    pub player: Player,
    pub payload: Payload<GameEvent, GameDescription>,
}

/// What a client asks of the server.
#[derive(Debug, Clone, PartialEq, Eq)]
pub enum Payload<GameEvent, GameDescription> {
    /// Authenticate.
    Auth,
    /// List the games.
    ListGames,
    /// Create a game as described.
    NewGame(GameDescription),
    /// Join a game.
    JoinGame(GameId),
    /// Leave a game.
    AbandonGame(GameId),
    /// A move or other event within a game.
    GameEvent(GameId, GameEvent),
}

} // verus!
