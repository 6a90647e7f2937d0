//! Phase state of a game and read-only diagnostics.

use vstd::prelude::*;

use crate::canvas::CanvasState;
use crate::ids::{PlayerId, TurnId};
use crate::model::{DrawingVote, GamePhase, PlayerProfile, TurnAward};
use crate::time::GameDeadline;

verus! {

/// Authoritative mutable player record retained across reconnects.
#[derive(Debug, Clone, PartialEq, Eq)]
pub struct PlayerState {
    /// Room-scoped identity.
    pub player_id: PlayerId,
    /// User-visible profile.
    pub profile: PlayerProfile,
    /// Accumulated game score.
    pub score: u32,
    /// Whether a current connection generation exists.
    pub connected: bool,
    /// Monotonic insertion order used for host transfer.
    pub joined_order: u64,
}

/// Players gather before the first turn.
#[derive(Debug)]
pub struct LobbyState {
    /// Room-lifecycle deadline shown to clients.
    pub deadline: GameDeadline,
}

/// The drawer privately picks one of the offered words.
#[derive(Debug)]
pub struct ChoosingWordState {
    pub drawer: PlayerId,
    pub turn_id: TurnId,
    pub options: Vec<String>,
    pub deadline: GameDeadline,
}

/// One drawing and guessing turn.
#[derive(Debug)]
pub struct DrawingState {
    pub drawer: PlayerId,
    pub turn_id: TurnId,
    pub secret_word: String,
    pub word_characters: Vec<char>,
    /// Which positions of the word the public mask shows.
    pub revealed: Vec<bool>,
    /// Players who guessed correctly and are still in the room.
    pub guessed: Vec<PlayerId>,
    /// Points of every correct guess this turn, keyed by player.
    pub guess_awards: Vec<(PlayerId, u32)>,
    pub guesser_score_total: u32,
    pub canvas: CanvasState,
    pub deadline: GameDeadline,
    pub hint_deadlines: Vec<GameDeadline>,
    /// Index of the next hint deadline not yet reached.
    pub next_hint: usize,
}

/// Results of the turn that just ended, open for rating.
#[derive(Debug)]
pub struct RoundEndState {
    pub drawer: PlayerId,
    pub turn_id: TurnId,
    pub secret_word: String,
    pub canvas: CanvasState,
    pub awards: Vec<TurnAward>,
    /// Current vote of each voter.
    pub votes: Vec<(PlayerId, DrawingVote)>,
    pub deadline: GameDeadline,
}

/// Internal phase state.
#[derive(Debug)]
pub enum PhaseState {
    Lobby(LobbyState),
    ChoosingWord(ChoosingWordState),
    Drawing(DrawingState),
    RoundEnd(RoundEndState),
    GameOver,
}

/// Public phase of an internal phase state.
pub open spec fn public_phase_of(p: PhaseState) -> GamePhase {
    match p {
        PhaseState::Lobby(_) => GamePhase::Lobby,
        PhaseState::ChoosingWord(_) => GamePhase::ChoosingWord,
        PhaseState::Drawing(_) => GamePhase::Drawing,
        PhaseState::RoundEnd(_) => GamePhase::RoundEnd,
        PhaseState::GameOver => GamePhase::GameOver,
    }
}

impl PhaseState {
    /// The phase clients see.
    pub fn public_phase(&self) -> (p: GamePhase)
        ensures
            p == public_phase_of(*self),
    {
        match self {
            PhaseState::Lobby(_) => GamePhase::Lobby,
            PhaseState::ChoosingWord(_) => GamePhase::ChoosingWord,
            PhaseState::Drawing(_) => GamePhase::Drawing,
            PhaseState::RoundEnd(_) => GamePhase::RoundEnd,
            PhaseState::GameOver => GamePhase::GameOver,
        }
    }
}

/// Compact immutable view intended for tests, diagnostics, and metrics.
#[derive(Debug, Clone, PartialEq, Eq)]
pub struct GameStateView {
    /// Current public phase.
    pub phase: GamePhase,
    /// Current one-based round, or zero in the lobby.
    pub round: u8,
    /// Current host, if one has joined.
    pub host: Option<PlayerId>,
    /// Current drawer, if a turn exists.
    pub drawer: Option<PlayerId>,
    /// Current turn identity, if a turn exists.
    pub turn_id: Option<TurnId>,
    /// Players with active connections.
    pub connected_players: usize,
    /// Scores in deterministic player order.
    pub scores: Vec<(PlayerId, u32)>,
}

} // verus!
