//! Domain errors of the game engine: word pools, canvas mutations, game
//! rules, and room attachment.

use vstd::prelude::*;

use crate::error::ValidationError;

verus! {

/// Invalid word-pool configuration.
#[derive(Debug, Clone, PartialEq, Eq)]
pub enum WordDeckError {
    /// The pool cannot satisfy one unique offer.
    TooSmall { required: usize, actual: usize },
    /// One word is empty or otherwise invalid.
    InvalidWord { index: usize, reason: &'static str },
    /// Two entries normalize to the same guess value.
    DuplicateWord { index: usize },
}

/// Failure while constructing a game.
#[derive(Debug, Clone, PartialEq, Eq)]
pub enum GameBuildError {
    /// Room settings violate protocol constraints.
    InvalidSettings(ValidationError),
    /// Word-pool construction failed.
    WordDeck(WordDeckError),
}

/// Invalid mutation of the authoritative canvas.
#[derive(Debug, Clone, PartialEq, Eq)]
pub enum CanvasError {
    /// A stroke began (or another action arrived) while a stroke was active.
    StrokeAlreadyActive,
    /// A point or end operation referenced no active stroke.
    NoActiveStroke,
    /// A stroke identity was already used this turn.
    DuplicateStroke,
    /// An operation references a different stroke from the active one.
    WrongStroke,
    /// A point batch arrived out of sequence.
    WrongSequence { expected: u16, received: u16 },
    /// Sequence increment would overflow.
    SequenceExhausted,
    /// Protocol-level drawing validation failed.
    InvalidOperation(ValidationError),
    /// Current drawing exceeded its state-memory budget.
    PointBudgetExceeded,
    /// Current drawing exceeded its retained action budget.
    ActionBudgetExceeded,
}

/// A structurally valid action rejected by authoritative game rules.
#[derive(Debug, Clone, PartialEq, Eq)]
pub enum RuleError {
    /// Player identity is unknown to this room.
    UnknownPlayer,
    /// Player currently has no attached connection.
    PlayerDisconnected,
    /// Only the current host may perform the action.
    HostOnly,
    /// Action is not valid in the current phase.
    InvalidPhase,
    /// Too few connected players are available to start.
    NotEnoughPlayers,
    /// Room has reached its configured capacity.
    RoomFull,
    /// New identities may only join the initial lobby.
    GameAlreadyStarted,
    /// Selected word index is not in the current offer.
    InvalidWordChoice,
    /// Only the current drawer may mutate the shared canvas.
    DrawerOnly,
    /// Drawer cannot submit a guess for their own word.
    DrawerCannotGuess,
    /// Drawer cannot rate their own completed drawing.
    DrawerCannotVote,
    /// Rating referenced a turn other than the currently displayed result.
    WrongTurn,
    /// Player has already guessed correctly this turn.
    AlreadyGuessed,
    /// Chat text would expose the current secret word.
    Spoiler,
    /// Host attempted to kick their own identity.
    CannotKickSelf,
    /// Current drawer cannot be kicked during an active turn.
    CannotKickDrawer,
    /// Kick target does not exist.
    InvalidKickTarget,
    /// Action arrived after the current phase deadline.
    DeadlineElapsed,
    /// Action payload failed protocol validation.
    InvalidMessage(ValidationError),
    /// Canvas mutation failed.
    Canvas(CanvasError),
    /// Player identifier space was exhausted.
    PlayerIdExhausted,
    /// Turn identifier space was exhausted.
    TurnIdExhausted,
}

/// Failure while attaching a WebSocket session to a room.
#[derive(Debug, Clone, PartialEq, Eq)]
pub enum JoinError {
    /// New player attempted to enter after the lobby.
    GameAlreadyStarted,
    /// Room is at capacity.
    RoomFull,
    /// Host previously removed this anonymous token.
    Kicked,
    /// Profile failed protocol validation.
    InvalidProfile(ValidationError),
    /// Room is shutting down or no longer reachable.
    RoomClosed,
    /// Socket writer queue was already closed or saturated during attachment.
    OutboundUnavailable,
    /// Player identifier space was exhausted.
    PlayerIdExhausted,
}

/// Failure to enqueue a command into the bounded room mailbox.
#[derive(Debug, Clone, Copy, PartialEq, Eq, Structural)]
pub enum MailboxError {
    /// Actor is still alive but its mailbox is currently full.
    Full,
    /// Actor has stopped and dropped its receiver.
    Closed,
}

} // verus!
