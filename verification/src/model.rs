//! Data structures shared by client and server messages.

use vstd::prelude::*;

use crate::ids::{ClientToken, PlayerId, RoomCode, StrokeId, TurnId};

verus! {

/// User-controlled identity displayed to other room members.
#[derive(Debug, Clone, PartialEq, Eq)]
pub struct PlayerProfile {
    /// Display name shown in the lobby, chat, and scoreboard.
    pub display_name: String,
    /// Opaque client-owned avatar configuration.
    pub avatar: [u8; 8],
}

/// Validated gameplay configuration chosen when a room is created.
#[derive(Debug, Clone, Copy, PartialEq, Eq, Structural)]
pub struct RoomSettings {
    /// Number of complete passes through the player rotation.
    pub rounds: u8,
    /// Drawing duration for each turn.
    pub draw_seconds: u16,
    /// Number of candidate words offered to a drawer.
    pub word_choices: u8,
    /// Maximum number of players allowed in this room.
    pub max_players: u8,
}

impl RoomSettings {
    /// Three rounds of one hundred seconds, four choices, twelve players.
    pub open spec fn spec_default() -> RoomSettings {
        RoomSettings { rounds: 3, draw_seconds: 100, word_choices: 4, max_players: 12 }
    }
}

impl Default for RoomSettings {
    fn default() -> (r: Self)
        ensures
            r == RoomSettings::spec_default(),
    {
        RoomSettings { rounds: 3, draw_seconds: 100, word_choices: 4, max_players: 12 }
    }
}

/// A point in the fixed logical canvas coordinate space.
#[derive(Debug, Clone, Copy, PartialEq, Eq, Structural)]
pub struct Point {
    /// Horizontal logical coordinate.
    pub x: u16,
    /// Vertical logical coordinate.
    pub y: u16,
}

/// One client request that mutates the current drawing.
#[derive(Debug, Clone, PartialEq, Eq)]
pub enum DrawOp {
    /// Starts a new stroke.
    Begin { stroke_id: StrokeId, color: u32, width: u8, start: Point },
    /// Appends an ordered point batch to the active stroke.
    Points { stroke_id: StrokeId, sequence: u16, points: Vec<Point> },
    /// Completes an active stroke.
    End { stroke_id: StrokeId, sequence: u16 },
    /// Removes the most recently completed canvas action.
    Undo,
    /// Removes every stroke from the current canvas.
    Clear,
    /// Flood-fills the contiguous color region containing `at`.
    Fill { color: u32, at: Point },
}

/// Complete stroke representation used in reconnect snapshots.
#[derive(Debug, Clone, PartialEq, Eq)]
pub struct Stroke {
    /// Stroke identity within its turn.
    pub stroke_id: StrokeId,
    /// RGB color encoded as `0x00RRGGBB`.
    pub color: u32,
    /// Brush width in logical canvas units.
    pub width: u8,
    /// Ordered stroke points, including its starting point.
    pub points: Vec<Point>,
}

/// One completed canvas mutation retained in authoritative rendering order.
#[derive(Debug, Clone, PartialEq, Eq)]
pub enum CanvasAction {
    /// One completed or currently active stroke.
    Stroke(Stroke),
    /// A point-seeded contiguous-region fill.
    Fill { color: u32, at: Point },
}

/// Current canvas contents sent when a player joins or resumes.
#[derive(Debug, Clone, PartialEq, Eq)]
pub struct CanvasSnapshot {
    /// Completed strokes and fills in authoritative rendering order.
    pub actions: Vec<CanvasAction>,
}

/// First application message sent by a newly upgraded client.
#[derive(Debug, Clone, PartialEq, Eq)]
pub struct Hello {
    /// Browser-persisted anonymous identity.
    pub client_token: ClientToken,
    /// User-visible profile for this room.
    pub profile: PlayerProfile,
}

/// Public information about one player.
#[derive(Debug, Clone, PartialEq, Eq)]
pub struct PlayerView {
    /// Server-assigned player identity.
    pub player_id: PlayerId,
    /// User-visible profile.
    pub profile: PlayerProfile,
    /// Accumulated game score.
    pub score: u32,
    /// Whether this player currently has an attached connection.
    pub connected: bool,
    /// Whether this player currently owns host controls.
    pub is_host: bool,
    /// Whether this player has guessed the current word.
    pub has_guessed: bool,
}

/// Public game phase visible to clients.
#[derive(Debug, Clone, Copy, PartialEq, Eq, Structural)]
pub enum GamePhase {
    /// Players are gathering and the host may start the game.
    Lobby,
    /// The drawer is privately choosing a word.
    ChoosingWord,
    /// A drawing and guessing turn is active.
    Drawing,
    /// Scores for the previous turn are being displayed.
    RoundEnd,
    /// The configured number of rounds has completed.
    GameOver,
}

/// Public state associated with the current phase.
#[derive(Debug, Clone, PartialEq, Eq)]
pub struct PhaseView {
    /// Current phase.
    pub phase: GamePhase,
    /// One-based round number, or zero while still in the initial lobby.
    pub round: u8,
    /// Configured total number of rounds.
    pub total_rounds: u8,
    /// Current drawer when a turn exists.
    pub drawer: Option<PlayerId>,
    /// Current turn identity when a turn exists.
    pub turn_id: Option<TurnId>,
    /// Server-authoritative deadline represented as Unix milliseconds.
    pub deadline_unix_ms: Option<u64>,
    /// Partially revealed word displayed to guessers.
    pub masked_word: Option<String>,
}

/// Candidate words sent only to the current drawer.
#[derive(Debug, Clone, PartialEq, Eq)]
pub struct WordOptions {
    /// Turn for which the choices are valid.
    pub turn_id: TurnId,
    /// Ordered candidate words. The client replies with an index.
    pub words: Vec<String>,
}

/// Newly revealed public word mask.
#[derive(Debug, Clone, PartialEq, Eq)]
pub struct HintView {
    /// Turn receiving the hint.
    pub turn_id: TurnId,
    /// Word with unrevealed positions replaced by placeholders.
    pub masked_word: String,
}

/// Authoritative drawing operation rebroadcast by the server.
#[derive(Debug, Clone, PartialEq, Eq)]
pub struct DrawEvent {
    /// Drawer who produced the operation.
    pub player_id: PlayerId,
    /// Turn to which the operation belongs.
    pub turn_id: TurnId,
    /// Validated canvas mutation.
    pub operation: DrawOp,
}

/// Chat message accepted by the server.
#[derive(Debug, Clone, PartialEq, Eq)]
pub struct ChatEvent {
    /// Message author.
    pub player_id: PlayerId,
    /// Whether the submitted text was ordinary chat or a non-winning guess.
    pub kind: ChatKind,
    /// Plain-text message.
    pub text: String,
}

/// Public text category displayed in the shared chat timeline.
#[derive(Debug, Clone, Copy, PartialEq, Eq, Structural)]
pub enum ChatKind {
    /// Explicit chat.
    Chat,
    /// An incorrect or close guess safe to reveal to all participants.
    Guess,
}

/// Result of evaluating a guess.
#[derive(Debug, Clone, Copy, PartialEq, Eq, Structural)]
pub enum GuessOutcome {
    /// Guess does not sufficiently resemble the secret word.
    Incorrect,
    /// Guess is close enough for a private hint but is not correct.
    Close,
    /// Guess is correct and earned the included number of points.
    Correct { points: u32 },
}

/// Server response describing one evaluated guess.
#[derive(Debug, Clone, Copy, PartialEq, Eq)]
pub struct GuessResult {
    /// Player whose guess was evaluated.
    pub player_id: PlayerId,
    /// Authoritative outcome.
    pub outcome: GuessOutcome,
}

/// One authoritative scoreboard update.
#[derive(Debug, Clone, Copy, PartialEq, Eq)]
pub struct ScoreView {
    /// Player whose score changed.
    pub player_id: PlayerId,
    /// New total score.
    pub total_score: u32,
    /// Signed delta applied by this update.
    pub delta: i32,
}

/// Why a player received points during the completed turn.
#[derive(Debug, Clone, Copy, PartialEq, Eq, Structural)]
pub enum AwardReason {
    /// The player correctly guessed the secret word.
    CorrectGuess,
    /// The drawer received one quarter of the turn's combined guesser points.
    DrawerBonus,
}

/// One score contribution shown in the completed-turn summary.
#[derive(Debug, Clone, Copy, PartialEq, Eq)]
pub struct TurnAward {
    /// Player who received the points.
    pub player_id: PlayerId,
    /// Points added during this turn.
    pub points: u32,
    /// Server-authoritative reason for the award.
    pub reason: AwardReason,
}

/// Authoritative summary retained while a completed drawing is displayed.
#[derive(Debug, Clone, PartialEq, Eq)]
pub struct TurnResultView {
    /// Completed turn identity.
    pub turn_id: TurnId,
    /// Revealed word for the completed drawing.
    pub word: String,
    /// Awards in deterministic room-player order.
    pub awards: Vec<TurnAward>,
}

/// Positive or negative feedback on a completed drawing.
#[derive(Debug, Clone, Copy, PartialEq, Eq, Structural)]
pub enum DrawingVote {
    /// Viewer liked the completed drawing.
    Like,
    /// Viewer disliked the completed drawing.
    Dislike,
}

/// Viewer-specific rating state included in reconnect snapshots.
#[derive(Debug, Clone, Copy, PartialEq, Eq)]
pub struct DrawingRatingView {
    /// Completed turn identity.
    pub turn_id: TurnId,
    /// Current number of likes.
    pub likes: u8,
    /// Current number of dislikes.
    pub dislikes: u8,
    /// This snapshot viewer's current vote, if any.
    pub viewer_vote: Option<DrawingVote>,
}

/// Public update emitted after one player changes their drawing vote.
#[derive(Debug, Clone, Copy, PartialEq, Eq)]
pub struct DrawingVoteUpdate {
    /// Completed turn identity.
    pub turn_id: TurnId,
    /// Player whose vote changed.
    pub player_id: PlayerId,
    /// New vote, or `None` when the player removed it.
    pub vote: Option<DrawingVote>,
    /// Authoritative like count after the change.
    pub likes: u8,
    /// Authoritative dislike count after the change.
    pub dislikes: u8,
}

/// Stable machine-readable server error category.
#[derive(Debug, Clone, Copy, PartialEq, Eq, Structural)]
pub enum ErrorCode {
    /// Message is not legal in the current game phase.
    InvalidPhase,
    /// Player does not have permission to perform the action.
    Forbidden,
    /// Message contains an invalid value.
    InvalidMessage,
    /// Per-connection rate limit was exceeded.
    RateLimited,
    /// Room command queue is temporarily saturated.
    ServerBusy,
}

/// Non-fatal application error returned to one client.
#[derive(Debug, Clone, PartialEq, Eq)]
pub struct ProtocolError {
    /// Stable category for programmatic handling.
    pub code: ErrorCode,
    /// Short user-safe explanation.
    pub message: String,
}

/// Reason the server is ending a client session.
#[derive(Debug, Clone, Copy, PartialEq, Eq, Structural)]
pub enum ByeReason {
    /// Room actor has completed its lifecycle.
    RoomClosed,
    /// Host removed this player.
    Kicked,
    /// A newer connection reused the same client token.
    Replaced,
    /// Peer failed the application heartbeat.
    TimedOut,
    /// Server is shutting down gracefully.
    ServerShutdown,
    /// Peer sent an unrecoverable protocol violation.
    ProtocolViolation,
}

/// Complete viewer-specific room state used by welcome and resume messages.
#[derive(Debug, Clone, PartialEq, Eq)]
pub struct RoomSnapshot {
    /// Immutable room configuration.
    pub settings: RoomSettings,
    /// Currently known players in deterministic display order.
    pub players: Vec<PlayerView>,
    /// Current public phase state.
    pub phase: PhaseView,
    /// Current drawing reconstructed for a joining client.
    pub canvas: CanvasSnapshot,
    /// Private options included only when the viewer is choosing a word.
    pub word_options: Option<WordOptions>,
    /// Private word included only when the viewer is the current drawer.
    pub secret_word: Option<String>,
    /// Bounded recent chat backlog.
    pub chat_history: Vec<ChatEvent>,
    /// Completed-turn score breakdown, present only during round end.
    pub turn_result: Option<TurnResultView>,
    /// Completed drawing rating, including this viewer's vote.
    pub drawing_rating: Option<DrawingRatingView>,
}

/// Initial session acknowledgement for a new player.
#[derive(Debug, Clone, PartialEq, Eq)]
pub struct Welcome {
    /// Identity assigned to this connection.
    pub player_id: PlayerId,
    /// Room joined by this connection.
    pub room_code: RoomCode,
    /// Viewer-specific authoritative room state.
    pub snapshot: RoomSnapshot,
}

/// Session acknowledgement when reclaiming an existing player slot.
#[derive(Debug, Clone, PartialEq, Eq)]
pub struct Resume {
    /// Reclaimed player identity.
    pub player_id: PlayerId,
    /// Viewer-specific authoritative room state.
    pub snapshot: RoomSnapshot,
}

/// A fully decoded client-to-server application message.
#[derive(Debug, Clone, PartialEq, Eq)]
pub enum ClientMessage {
    /// First message on every newly upgraded WebSocket.
    Hello(Hello),
    /// Host request to leave the lobby and begin the game.
    StartGame,
    /// Drawer selects an offered word by zero-based index.
    PickWord { choice: u8 },
    /// Drawer submits one canvas mutation.
    Draw(DrawOp),
    /// Guesser submits text for server-side evaluation.
    Guess { text: String },
    /// Player submits a plain-text room message.
    Chat { text: String },
    /// Host requests removal of another player.
    KickPlayer { player_id: PlayerId },
    /// Host requests a new game using the same room and roster.
    Rematch,
    /// Heartbeat response echoing the server nonce.
    Pong { nonce: u32 },
    /// Adds, changes, or removes feedback on the just-completed drawing.
    VoteDrawing { turn_id: TurnId, vote: Option<DrawingVote> },
}

/// A fully decoded server-to-client application message.
#[derive(Debug, Clone, PartialEq, Eq)]
pub enum ServerMessage {
    /// New player session and its authoritative snapshot.
    Welcome(Welcome),
    /// Restored player session and its authoritative snapshot.
    Resume(Resume),
    /// A player became part of the visible roster.
    PlayerJoined(PlayerView),
    /// A player lost their active connection.
    PlayerLeft { player_id: PlayerId },
    /// Host authority moved to another player.
    HostChanged { player_id: PlayerId },
    /// Public game phase or deadline changed.
    PhaseChanged(PhaseView),
    /// Private candidate words for the current drawer.
    WordOptions(WordOptions),
    /// Private selected word for the current drawer.
    SecretWord { turn_id: TurnId, word: String },
    /// Public word mask changed.
    HintRevealed(HintView),
    /// Authoritative drawing operation.
    Draw(DrawEvent),
    /// Accepted room chat message.
    Chat(ChatEvent),
    /// Public or private result of an evaluated guess.
    GuessResult(GuessResult),
    /// Authoritative score update.
    ScoreChanged(ScoreView),
    /// Recoverable error associated with a client action.
    Error(ProtocolError),
    /// Application heartbeat request.
    Ping { nonce: u32 },
    /// Final session message before socket closure.
    Bye { reason: ByeReason },
    /// Complete score breakdown for the turn that just ended.
    TurnResult(TurnResultView),
    /// Authoritative drawing-rating counts after one vote changed.
    DrawingVoteChanged(DrawingVoteUpdate),
}

impl Default for CanvasSnapshot {
    /// An empty canvas.
    fn default() -> (c: CanvasSnapshot)
        ensures
            c.actions@.len() == 0,
    {
        CanvasSnapshot { actions: Vec::new() }
    }
}

} // verus!
