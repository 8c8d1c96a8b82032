//! Who plays, and which game a message is about.

use vstd::prelude::*;

verus! {

/// Identifies one game hosted by a server.
#[derive(Debug, Clone, Copy, PartialEq, Eq, Structural, Hash)]
pub struct GameId(u64);

impl GameId {
    /// The game with the given number.
    pub fn new(raw: u64) -> (id: GameId)
        ensures
            id.raw_spec() == raw,
    {
        GameId(raw)
    }

    /// The number of the game.
    pub closed spec fn raw_spec(&self) -> u64 {
        self.0
    }

    /// The number of the game.
    pub fn raw(&self) -> (raw: u64)
        ensures
            raw == self.raw_spec(),
    {
        self.0
    }
}

/// A human player.
#[derive(Eq, PartialEq, Clone, Debug, Hash)]
pub struct Human {
    pub id: u64,
    pub name: String,
}

/// A participant in a game.
#[derive(Eq, PartialEq, Clone, Debug, Hash)]
pub enum Player {
    Human(Human),
    /// A computer player, slotted in when the game starts.
    AI,
}

} // verus!
