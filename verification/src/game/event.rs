//! Viewer targeting for authoritative game events.

use vstd::prelude::*;

use crate::ids::PlayerId;
use crate::model::ServerMessage;

verus! {

/// Recipients of one emitted server message.
#[derive(Debug, Clone, Copy, PartialEq, Eq, Structural)]
pub enum Audience {
    /// Every currently connected player.
    Everyone,
    /// Exactly one player, used for secrets and private feedback.
    Player(PlayerId),
    /// Every connected player except the named player.
    EveryoneExcept(PlayerId),
}

/// One authoritative message and its privacy boundary.
#[derive(Debug, Clone, PartialEq, Eq)]
pub struct EmittedEvent {
    /// Intended recipients.
    pub audience: Audience,
    /// Wire-safe message to deliver.
    pub message: ServerMessage,
}

impl EmittedEvent {
    /// Creates a room-wide event.
    pub fn everyone(message: ServerMessage) -> (e: Self)
        ensures
            e == (EmittedEvent { audience: Audience::Everyone, message }),
    {
        EmittedEvent { audience: Audience::Everyone, message }
    }

    /// Creates a private event.
    pub fn player(player_id: PlayerId, message: ServerMessage) -> (e: Self)
        ensures
            e == (EmittedEvent { audience: Audience::Player(player_id), message }),
    {
        EmittedEvent { audience: Audience::Player(player_id), message }
    }

    /// Creates an event for existing peers after one player joins or resumes.
    pub fn everyone_except(player_id: PlayerId, message: ServerMessage) -> (e: Self)
        ensures
            e == (EmittedEvent { audience: Audience::EveryoneExcept(player_id), message }),
    {
        EmittedEvent { audience: Audience::EveryoneExcept(player_id), message }
    }
}

} // verus!
