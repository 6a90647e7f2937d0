//! Semantic validation for decoded and outgoing protocol values.
//!
//! Each `validate` returns the first constraint violation in a fixed check
//! order; the `check_*` spec functions state that order and its errors.

use std::collections::HashSet;

use vstd::prelude::*;

use crate::error::ValidationError;
use crate::ids::PlayerId;
use crate::limit::{
    CANVAS_HEIGHT, CANVAS_WIDTH, MAX_BRUSH_WIDTH, MAX_CANVAS_ACTIONS, MAX_CHAT_HISTORY, MAX_COLOR,
    MAX_DRAW_SECONDS, MAX_NAME_GRAPHEMES, MAX_PLAYERS_IN_ROOM, MAX_POINTS_PER_BATCH,
    MAX_POINTS_PER_STROKE, MAX_ROUNDS, MAX_TEXT_BYTES, MAX_WORD_BYTES, MAX_WORD_CHOICES,
    MIN_DRAW_SECONDS, MIN_ROOM_PLAYERS, MIN_ROUNDS, MIN_WORD_CHOICES,
};
use crate::model::{
    CanvasAction, CanvasSnapshot, ChatEvent, ClientMessage, DrawOp, GamePhase, PhaseView, PlayerProfile,
    PlayerView, Point, ProtocolError, Resume, RoomSettings, RoomSnapshot, ScoreView, ServerMessage,
    Stroke, TurnAward, TurnResultView, Welcome, WordOptions,
};
use crate::text::{
    all_whitespace, any_control, byte_len, chars_of, has_control, is_blank, trim_bounds, trimmed,
    utf8_len,
};
use crate::unicode::{extended_grapheme_count, grapheme_count};

verus! {

broadcast use vstd::std_specs::hash::group_hash_axioms;

/// Sequencing of two checks: the first error wins.
pub open spec fn and_then(
    first: Result<(), ValidationError>,
    second: Result<(), ValidationError>,
) -> Result<(), ValidationError> {
    if first is Err {
        first
    } else {
        second
    }
}

/// Length check with inclusive bounds.
pub open spec fn check_count(field: &'static str, actual: usize, minimum: usize, maximum: usize) -> Result<
    (),
    ValidationError,
> {
    if actual < minimum {
        Err(ValidationError::TooShort { field, minimum, actual })
    } else if actual > maximum {
        Err(ValidationError::TooLong { field, maximum, actual })
    } else {
        Ok(())
    }
}

/// Numeric check with inclusive bounds.
pub open spec fn check_range(field: &'static str, actual: u64, minimum: u64, maximum: u64) -> Result<
    (),
    ValidationError,
> {
    if minimum <= actual && actual <= maximum {
        Ok(())
    } else {
        Err(ValidationError::OutOfRange { field, minimum, maximum, actual })
    }
}

/// Non-blank, bounded UTF-8 length, and free of control characters.
pub open spec fn check_plain_text(field: &'static str, s: Seq<char>, maximum_bytes: usize) -> Result<
    (),
    ValidationError,
> {
    if all_whitespace(s) {
        Err(ValidationError::Empty { field })
    } else if utf8_len(s) > maximum_bytes {
        Err(ValidationError::TooLong { field, maximum: maximum_bytes, actual: utf8_len(s) })
    } else if has_control(s) {
        Err(ValidationError::ControlCharacter { field })
    } else {
        Ok(())
    }
}

/// A word or masked word.
pub open spec fn check_word(field: &'static str, s: Seq<char>) -> Result<(), ValidationError> {
    check_plain_text(field, s, MAX_WORD_BYTES)
}

/// First error among `check` applied to each element in order.
pub open spec fn check_each<T>(s: Seq<T>, check: spec_fn(T) -> Result<(), ValidationError>) -> Result<
    (),
    ValidationError,
>
    decreases s.len(),
{
    if s.len() == 0 {
        Ok(())
    } else {
        and_then(check(s[0]), check_each(s.drop_first(), check))
    }
}

proof fn lemma_check_each_step<T>(s: Seq<T>, i: int, check: spec_fn(T) -> Result<(), ValidationError>)
    requires
        0 <= i < s.len(),
    ensures
        check_each(s.skip(i), check) == and_then(check(s[i]), check_each(s.skip(i + 1), check)),
{
    assert(s.skip(i).drop_first() =~= s.skip(i + 1));
}

/// Display name: trimmed, non-empty, control-free, 1..=24 graphemes.
pub open spec fn check_profile(p: PlayerProfile) -> Result<(), ValidationError> {
    check_display_name(p.display_name@)
}

/// A display name: visible, already trimmed, free of control characters,
/// and of 1 to 24 grapheme clusters.
pub open spec fn check_display_name(name: Seq<char>) -> Result<(), ValidationError> {
    if all_whitespace(name) {
        Err(ValidationError::Empty { field: "display_name" })
    } else if trimmed(name) != name {
        Err(
            ValidationError::Inconsistent {
                field: "display_name",
                reason: "leading and trailing whitespace is not allowed",
            },
        )
    } else if has_control(name) {
        Err(ValidationError::ControlCharacter { field: "display_name" })
    } else {
        check_count("display_name", extended_grapheme_count(name), 1, MAX_NAME_GRAPHEMES)
    }
}

/// Supported game-configuration ranges.
pub open spec fn check_settings(s: RoomSettings) -> Result<(), ValidationError> {
    and_then(
        check_range("rounds", s.rounds as u64, MIN_ROUNDS as u64, MAX_ROUNDS as u64),
        and_then(
            check_range(
                "draw_seconds",
                s.draw_seconds as u64,
                MIN_DRAW_SECONDS as u64,
                MAX_DRAW_SECONDS as u64,
            ),
            and_then(
                check_range(
                    "word_choices",
                    s.word_choices as u64,
                    MIN_WORD_CHOICES as u64,
                    MAX_WORD_CHOICES as u64,
                ),
                check_range(
                    "max_players",
                    s.max_players as u64,
                    MIN_ROOM_PLAYERS as u64,
                    MAX_PLAYERS_IN_ROOM as u64,
                ),
            ),
        ),
    )
}

/// Point on the logical canvas.
pub open spec fn check_point(p: Point) -> Result<(), ValidationError> {
    and_then(
        check_range("point.x", p.x as u64, 0, CANVAS_WIDTH as u64),
        check_range("point.y", p.y as u64, 0, CANVAS_HEIGHT as u64),
    )
}

/// Every point of a sequence.
pub open spec fn check_points(s: Seq<Point>) -> Result<(), ValidationError> {
    check_each(s, |p: Point| check_point(p))
}

/// One drawing operation.
pub open spec fn check_draw_op(op: DrawOp) -> Result<(), ValidationError> {
    match op {
        DrawOp::Begin { color, width, start, .. } => and_then(
            check_range("draw.color", color as u64, 0, MAX_COLOR as u64),
            and_then(
                check_range("draw.width", width as u64, 1, MAX_BRUSH_WIDTH as u64),
                check_point(start),
            ),
        ),
        DrawOp::Points { points, .. } => and_then(
            check_count("draw.points", points@.len() as usize, 1, MAX_POINTS_PER_BATCH),
            check_points(points@),
        ),
        DrawOp::Fill { color, at } => and_then(
            check_range("draw.color", color as u64, 0, MAX_COLOR as u64),
            check_point(at),
        ),
        _ => Ok(()),
    }
}

/// One complete stroke.
pub open spec fn check_stroke(s: Stroke) -> Result<(), ValidationError> {
    and_then(
        check_range("stroke.color", s.color as u64, 0, MAX_COLOR as u64),
        and_then(
            check_range("stroke.width", s.width as u64, 1, MAX_BRUSH_WIDTH as u64),
            and_then(
                check_count("stroke.points", s.points@.len() as usize, 1, MAX_POINTS_PER_STROKE),
                check_points(s.points@),
            ),
        ),
    )
}

/// Canvas actions in order, with `seen` the identifiers of earlier strokes.
pub open spec fn check_actions(s: Seq<CanvasAction>, seen: Set<u32>) -> Result<(), ValidationError>
    decreases s.len(),
{
    if s.len() == 0 {
        Ok(())
    } else {
        match s[0] {
            CanvasAction::Stroke(stroke) => if check_stroke(stroke) is Err {
                check_stroke(stroke)
            } else if seen.contains(stroke.stroke_id.0) {
                Err(
                    ValidationError::Inconsistent {
                        field: "canvas.actions",
                        reason: "stroke identifiers must be unique",
                    },
                )
            } else {
                check_actions(s.drop_first(), seen.insert(stroke.stroke_id.0))
            },
            CanvasAction::Fill { color, at } => and_then(
                check_range("canvas.fill.color", color as u64, 0, MAX_COLOR as u64),
                and_then(check_point(at), check_actions(s.drop_first(), seen)),
            ),
        }
    }
}

/// A reconnect canvas snapshot.
pub open spec fn check_canvas(c: CanvasSnapshot) -> Result<(), ValidationError> {
    and_then(
        check_count("canvas.actions", c.actions@.len() as usize, 0, MAX_CANVAS_ACTIONS),
        check_actions(c.actions@, Set::empty()),
    )
}

/// Public phase state.
pub open spec fn check_phase(p: PhaseView) -> Result<(), ValidationError> {
    and_then(
        check_range("phase.total_rounds", p.total_rounds as u64, MIN_ROUNDS as u64, MAX_ROUNDS as u64),
        and_then(
            check_range("phase.round", p.round as u64, 0, p.total_rounds as u64),
            match p.masked_word {
                Some(w) => check_word("phase.masked_word", w@),
                None => Ok(()),
            },
        ),
    )
}

/// Private word options.
pub open spec fn check_word_options(o: WordOptions) -> Result<(), ValidationError> {
    and_then(
        check_count(
            "word_options.words",
            o.words@.len() as usize,
            MIN_WORD_CHOICES as usize,
            MAX_WORD_CHOICES as usize,
        ),
        check_each(o.words@, |w: String| check_word("word_options.word", w@)),
    )
}

/// A score update must not imply a negative previous score.
pub open spec fn check_score(s: ScoreView) -> Result<(), ValidationError> {
    if (s.total_score as int) - (s.delta as int) < 0 {
        Err(
            ValidationError::Inconsistent {
                field: "score.delta",
                reason: "delta implies a negative previous score",
            },
        )
    } else {
        Ok(())
    }
}

/// Awards in order, with `seen` the players awarded earlier.
pub open spec fn check_awards(s: Seq<TurnAward>, seen: Set<u32>) -> Result<(), ValidationError>
    decreases s.len(),
{
    if s.len() == 0 {
        Ok(())
    } else if s[0].points == 0 {
        Err(
            ValidationError::OutOfRange {
                field: "turn_result.award.points",
                minimum: 1,
                maximum: 0xffff_ffff,
                actual: 0,
            },
        )
    } else if seen.contains(s[0].player_id.0) {
        Err(
            ValidationError::Inconsistent {
                field: "turn_result.awards",
                reason: "a player may have at most one award per turn",
            },
        )
    } else {
        check_awards(s.drop_first(), seen.insert(s[0].player_id.0))
    }
}

/// Completed-turn summary.
pub open spec fn check_turn_result(r: TurnResultView) -> Result<(), ValidationError> {
    and_then(
        check_word("turn_result.word", r.word@),
        and_then(
            check_count("turn_result.awards", r.awards@.len() as usize, 0, MAX_PLAYERS_IN_ROOM),
            check_awards(r.awards@, Set::empty()),
        ),
    )
}

/// At most twelve votes in total.
pub open spec fn check_rating_counts(likes: u8, dislikes: u8) -> Result<(), ValidationError> {
    check_count("drawing_rating.votes", (likes as usize + dislikes as usize) as usize, 0, MAX_PLAYERS_IN_ROOM)
}

/// A chat event.
pub open spec fn check_chat(e: ChatEvent) -> Result<(), ValidationError> {
    check_plain_text("chat.text", e.text@, MAX_TEXT_BYTES)
}

/// A user-visible error.
pub open spec fn check_protocol_error(e: ProtocolError) -> Result<(), ValidationError> {
    check_plain_text("error.message", e.message@, MAX_TEXT_BYTES)
}

/// Players in order, with `seen` the identifiers of earlier players.
pub open spec fn check_players(s: Seq<PlayerView>, seen: Set<u32>) -> Result<(), ValidationError>
    decreases s.len(),
{
    if s.len() == 0 {
        Ok(())
    } else if check_profile(s[0].profile) is Err {
        check_profile(s[0].profile)
    } else if seen.contains(s[0].player_id.0) {
        Err(
            ValidationError::Inconsistent {
                field: "snapshot.players",
                reason: "player identifiers must be unique",
            },
        )
    } else {
        check_players(s.drop_first(), seen.insert(s[0].player_id.0))
    }
}

/// Number of players flagged as host.
pub open spec fn host_count(s: Seq<PlayerView>) -> nat
    decreases s.len(),
{
    if s.len() == 0 {
        0
    } else {
        (if s[0].is_host {
            1nat
        } else {
            0nat
        }) + host_count(s.drop_first())
    }
}

/// Whether some player in the roster has the identifier.
pub open spec fn roster_has(s: Seq<PlayerView>, id: PlayerId) -> bool {
    exists|i: int| 0 <= i < s.len() && #[trigger] s[i].player_id == id
}

/// The part of the snapshot check that follows the roster.
pub open spec fn check_snapshot_tail(s: RoomSnapshot) -> Result<(), ValidationError> {
    and_then(
        match s.word_options {
            Some(o) => and_then(
                check_word_options(o),
                if o.words@.len() != s.settings.word_choices as nat {
                    Err(
                        ValidationError::Inconsistent {
                            field: "snapshot.word_options",
                            reason: "option count must match room settings",
                        },
                    )
                } else {
                    Ok(())
                },
            ),
            None => Ok(()),
        },
        and_then(
            match s.secret_word {
                Some(w) => check_word("snapshot.secret_word", w@),
                None => Ok(()),
            },
            and_then(
                match s.turn_result {
                    Some(r) => and_then(
                        check_turn_result(r),
                        if s.phase.phase != GamePhase::RoundEnd || s.phase.turn_id != Some(r.turn_id) {
                            Err(
                                ValidationError::Inconsistent {
                                    field: "snapshot.turn_result",
                                    reason: "must describe the current round-end turn",
                                },
                            )
                        } else if exists|i: int|
                            0 <= i < r.awards@.len() && !roster_has(
                                s.players@,
                                #[trigger] r.awards@[i].player_id,
                            ) {
                            Err(
                                ValidationError::Inconsistent {
                                    field: "snapshot.turn_result.awards",
                                    reason: "award recipients must exist in the room roster",
                                },
                            )
                        } else {
                            Ok(())
                        },
                    ),
                    None => Ok(()),
                },
                and_then(
                    match s.drawing_rating {
                        Some(rating) => and_then(
                            check_rating_counts(rating.likes, rating.dislikes),
                            if (match s.turn_result {
                                Some(r) => r.turn_id != rating.turn_id,
                                None => true,
                            }) {
                                Err(
                                    ValidationError::Inconsistent {
                                        field: "snapshot.drawing_rating",
                                        reason: "must describe the included completed turn",
                                    },
                                )
                            } else {
                                Ok(())
                            },
                        ),
                        None => Ok(()),
                    },
                    check_each(s.chat_history@, |e: ChatEvent| check_chat(e)),
                ),
            ),
        ),
    )
}

/// A complete viewer-specific room snapshot.
pub open spec fn check_snapshot(s: RoomSnapshot) -> Result<(), ValidationError> {
    and_then(
        check_settings(s.settings),
        and_then(
            check_phase(s.phase),
            and_then(
                check_canvas(s.canvas),
                and_then(
                    if s.phase.total_rounds != s.settings.rounds {
                        Err(
                            ValidationError::Inconsistent {
                                field: "snapshot.phase.total_rounds",
                                reason: "must match room settings",
                            },
                        )
                    } else {
                        Ok(())
                    },
                    and_then(
                        check_count(
                            "snapshot.players",
                            s.players@.len() as usize,
                            0,
                            s.settings.max_players as usize,
                        ),
                        and_then(
                            check_count(
                                "snapshot.chat_history",
                                s.chat_history@.len() as usize,
                                0,
                                MAX_CHAT_HISTORY,
                            ),
                            and_then(
                                check_players(s.players@, Set::empty()),
                                and_then(
                                    if host_count(s.players@) > 1 {
                                        Err(
                                            ValidationError::Inconsistent {
                                                field: "snapshot.players",
                                                reason: "at most one player may be the host",
                                            },
                                        )
                                    } else {
                                        Ok(())
                                    },
                                    check_snapshot_tail(s),
                                ),
                            ),
                        ),
                    ),
                ),
            ),
        ),
    )
}

/// New-session acknowledgement.
pub open spec fn check_welcome(w: Welcome) -> Result<(), ValidationError> {
    and_then(
        check_snapshot(w.snapshot),
        if !roster_has(w.snapshot.players@, w.player_id) {
            Err(
                ValidationError::Inconsistent {
                    field: "welcome.player_id",
                    reason: "assigned player must exist in the snapshot",
                },
            )
        } else {
            Ok(())
        },
    )
}

/// Resumed-session acknowledgement.
pub open spec fn check_resume(r: Resume) -> Result<(), ValidationError> {
    and_then(
        check_snapshot(r.snapshot),
        if !roster_has(r.snapshot.players@, r.player_id) {
            Err(
                ValidationError::Inconsistent {
                    field: "resume.player_id",
                    reason: "resumed player must exist in the snapshot",
                },
            )
        } else {
            Ok(())
        },
    )
}

/// Client-to-server message.
pub open spec fn check_client_message(m: ClientMessage) -> Result<(), ValidationError> {
    match m {
        ClientMessage::Hello(h) => check_profile(h.profile),
        ClientMessage::PickWord { choice } => check_range(
            "pick_word.choice",
            choice as u64,
            0,
            (MAX_WORD_CHOICES - 1) as u64,
        ),
        ClientMessage::Draw(op) => check_draw_op(op),
        ClientMessage::Guess { text } => check_plain_text("guess.text", text@, MAX_TEXT_BYTES),
        ClientMessage::Chat { text } => check_plain_text("chat.text", text@, MAX_TEXT_BYTES),
        _ => Ok(()),
    }
}

/// Server-to-client message.
pub open spec fn check_server_message(m: ServerMessage) -> Result<(), ValidationError> {
    match m {
        ServerMessage::Welcome(w) => check_welcome(w),
        ServerMessage::Resume(r) => check_resume(r),
        ServerMessage::PlayerJoined(p) => check_profile(p.profile),
        ServerMessage::PhaseChanged(p) => check_phase(p),
        ServerMessage::WordOptions(o) => check_word_options(o),
        ServerMessage::SecretWord { word, .. } => check_word("secret_word.word", word@),
        ServerMessage::HintRevealed(h) => check_word("hint.masked_word", h.masked_word@),
        ServerMessage::Draw(e) => check_draw_op(e.operation),
        ServerMessage::Chat(e) => check_chat(e),
        ServerMessage::ScoreChanged(s) => check_score(s),
        ServerMessage::Error(e) => check_protocol_error(e),
        ServerMessage::TurnResult(r) => check_turn_result(r),
        ServerMessage::DrawingVoteChanged(u) => check_rating_counts(u.likes, u.dislikes),
        _ => Ok(()),
    }
}

// ---------------------------------------------------------------------------
// Executable checks
// ---------------------------------------------------------------------------

/// Checks that a count lies in `minimum..=maximum`.
pub fn validate_count(field: &'static str, actual: usize, minimum: usize, maximum: usize) -> (r: Result<
    (),
    ValidationError,
>)
    ensures
        r == check_count(field, actual, minimum, maximum),
{
    if actual < minimum {
        return Err(ValidationError::TooShort { field, minimum, actual });
    }
    if actual > maximum {
        return Err(ValidationError::TooLong { field, maximum, actual });
    }
    Ok(())
}

/// Checks that a value lies in `minimum..=maximum`.
pub fn validate_range(field: &'static str, actual: u64, minimum: u64, maximum: u64) -> (r: Result<
    (),
    ValidationError,
>)
    ensures
        r == check_range(field, actual, minimum, maximum),
{
    if !(minimum <= actual && actual <= maximum) {
        return Err(ValidationError::OutOfRange { field, minimum, maximum, actual });
    }
    Ok(())
}

/// Checks plain user text: non-blank, bounded, and free of control characters.
pub fn validate_plain_text(field: &'static str, value: &String, maximum_bytes: usize) -> (r: Result<
    (),
    ValidationError,
>)
    ensures
        r == check_plain_text(field, value@, maximum_bytes),
{
    let chars = chars_of(value.as_str());
    if is_blank(&chars) {
        return Err(ValidationError::Empty { field });
    }
    let len = byte_len(value);
    if len > maximum_bytes {
        return Err(ValidationError::TooLong { field, maximum: maximum_bytes, actual: len });
    }
    if any_control(&chars) {
        return Err(ValidationError::ControlCharacter { field });
    }
    Ok(())
}

/// Checks a word or masked word.
pub fn validate_word(field: &'static str, word: &String) -> (r: Result<(), ValidationError>)
    ensures
        r == check_word(field, word@),
{
    validate_plain_text(field, word, MAX_WORD_BYTES)
}

/// Checks that the like and dislike counts total at most twelve votes.
pub fn validate_rating_counts(likes: u8, dislikes: u8) -> (r: Result<(), ValidationError>)
    ensures
        r == check_rating_counts(likes, dislikes),
{
    let total = likes as usize + dislikes as usize;
    validate_count("drawing_rating.votes", total, 0, MAX_PLAYERS_IN_ROOM)
}

fn validate_points(points: &Vec<Point>) -> (r: Result<(), ValidationError>)
    ensures
        r == check_points(points@),
{
    let ghost check = |p: Point| check_point(p);
    let mut i: usize = 0;
    assert(points@.skip(0) =~= points@);
    while i < points.len()
        invariant
            i <= points.len(),
            check == (|p: Point| check_point(p)),
            check_each(points@, check) == check_each(points@.skip(i as int), check),
        decreases points.len() - i,
    {
        proof {
            lemma_check_each_step(points@, i as int, check);
        }
        let r = points[i].validate();
        if r.is_err() {
            return r;
        }
        i = i + 1;
    }
    assert(points@.skip(i as int) =~= Seq::<Point>::empty());
    Ok(())
}

/// Checks whether a value obeys protocol-level semantic constraints.
pub trait Validate {
    /// Returns the first detected constraint violation.
    fn validate(&self) -> Result<(), ValidationError>;
}

impl Validate for PlayerProfile {
    fn validate(&self) -> (r: Result<(), ValidationError>)
        ensures
            r == check_profile(*self),
    {
        let chars = chars_of(self.display_name.as_str());
        let (start, end) = trim_bounds(&chars);
        if start == end {
            return Err(ValidationError::Empty { field: "display_name" });
        }
        if start != 0 || end != chars.len() {
            proof {
                if trimmed(chars@) == chars@ {
                    assert(chars@.subrange(start as int, end as int).len() == chars@.len());
                }
            }
            return Err(
                ValidationError::Inconsistent {
                    field: "display_name",
                    reason: "leading and trailing whitespace is not allowed",
                },
            );
        }
        assert(chars@.subrange(0, chars@.len() as int) =~= chars@);
        if any_control(&chars) {
            return Err(ValidationError::ControlCharacter { field: "display_name" });
        }
        let graphemes = grapheme_count(self.display_name.as_str());
        validate_count("display_name", graphemes, 1, MAX_NAME_GRAPHEMES)
    }
}

impl Validate for RoomSettings {
    fn validate(&self) -> (r: Result<(), ValidationError>)
        ensures
            r == check_settings(*self),
    {
        validate_range("rounds", self.rounds as u64, MIN_ROUNDS as u64, MAX_ROUNDS as u64)?;
        validate_range(
            "draw_seconds",
            self.draw_seconds as u64,
            MIN_DRAW_SECONDS as u64,
            MAX_DRAW_SECONDS as u64,
        )?;
        validate_range(
            "word_choices",
            self.word_choices as u64,
            MIN_WORD_CHOICES as u64,
            MAX_WORD_CHOICES as u64,
        )?;
        validate_range(
            "max_players",
            self.max_players as u64,
            MIN_ROOM_PLAYERS as u64,
            MAX_PLAYERS_IN_ROOM as u64,
        )
    }
}

impl Validate for Point {
    fn validate(&self) -> (r: Result<(), ValidationError>)
        ensures
            r == check_point(*self),
    {
        validate_range("point.x", self.x as u64, 0, CANVAS_WIDTH as u64)?;
        validate_range("point.y", self.y as u64, 0, CANVAS_HEIGHT as u64)
    }
}

impl Validate for DrawOp {
    fn validate(&self) -> (r: Result<(), ValidationError>)
        ensures
            r == check_draw_op(*self),
    {
        match self {
            DrawOp::Begin { color, width, start, .. } => {
                validate_range("draw.color", *color as u64, 0, MAX_COLOR as u64)?;
                validate_range("draw.width", *width as u64, 1, MAX_BRUSH_WIDTH as u64)?;
                start.validate()
            },
            DrawOp::Points { points, .. } => {
                validate_count("draw.points", points.len(), 1, MAX_POINTS_PER_BATCH)?;
                validate_points(points)
            },
            DrawOp::Fill { color, at } => {
                validate_range("draw.color", *color as u64, 0, MAX_COLOR as u64)?;
                at.validate()
            },
            _ => Ok(()),
        }
    }
}

impl Validate for Stroke {
    fn validate(&self) -> (r: Result<(), ValidationError>)
        ensures
            r == check_stroke(*self),
    {
        validate_range("stroke.color", self.color as u64, 0, MAX_COLOR as u64)?;
        validate_range("stroke.width", self.width as u64, 1, MAX_BRUSH_WIDTH as u64)?;
        validate_count("stroke.points", self.points.len(), 1, MAX_POINTS_PER_STROKE)?;
        validate_points(&self.points)
    }
}

impl Validate for CanvasSnapshot {
    fn validate(&self) -> (r: Result<(), ValidationError>)
        ensures
            r == check_canvas(*self),
    {
        validate_count("canvas.actions", self.actions.len(), 0, MAX_CANVAS_ACTIONS)?;
        let mut seen: HashSet<u32> = HashSet::new();
        let mut i: usize = 0;
        assert(self.actions@.skip(0) =~= self.actions@);
        while i < self.actions.len()
            invariant
                i <= self.actions.len(),
                self.actions@.len() <= MAX_CANVAS_ACTIONS,
                check_actions(self.actions@, Set::empty()) == check_actions(
                    self.actions@.skip(i as int),
                    seen@,
                ),
            decreases self.actions.len() - i,
        {
            assert(self.actions@.skip(i as int).drop_first() =~= self.actions@.skip(i + 1));
            assert(self.actions@.skip(i as int)[0] == self.actions@[i as int]);
            match &self.actions[i] {
                CanvasAction::Stroke(stroke) => {
                    let sr = stroke.validate();
                    assert(self.actions@[i as int] == CanvasAction::Stroke(*stroke));
                    if sr.is_err() {
                        assert(check_actions(self.actions@.skip(i as int), seen@) == sr);
                        return sr;
                    }
                    let ghost before = seen@;
                    if !seen.insert(stroke.stroke_id.0) {
                        assert(before.contains(stroke.stroke_id.0));
                        return Err(
                            ValidationError::Inconsistent {
                                field: "canvas.actions",
                                reason: "stroke identifiers must be unique",
                            },
                        );
                    }
                },
                CanvasAction::Fill { color, at } => {
                    validate_range("canvas.fill.color", *color as u64, 0, MAX_COLOR as u64)?;
                    at.validate()?;
                },
            }
            i = i + 1;
        }
        assert(self.actions@.skip(i as int) =~= Seq::<CanvasAction>::empty());
        Ok(())
    }
}

impl Validate for PhaseView {
    fn validate(&self) -> (r: Result<(), ValidationError>)
        ensures
            r == check_phase(*self),
    {
        validate_range(
            "phase.total_rounds",
            self.total_rounds as u64,
            MIN_ROUNDS as u64,
            MAX_ROUNDS as u64,
        )?;
        validate_range("phase.round", self.round as u64, 0, self.total_rounds as u64)?;
        if let Some(masked_word) = &self.masked_word {
            validate_word("phase.masked_word", masked_word)?;
        }
        Ok(())
    }
}

impl Validate for WordOptions {
    fn validate(&self) -> (r: Result<(), ValidationError>)
        ensures
            r == check_word_options(*self),
    {
        validate_count(
            "word_options.words",
            self.words.len(),
            MIN_WORD_CHOICES as usize,
            MAX_WORD_CHOICES as usize,
        )?;
        let ghost check = |w: String| check_word("word_options.word", w@);
        let mut i: usize = 0;
        assert(self.words@.skip(0) =~= self.words@);
        while i < self.words.len()
            invariant
                i <= self.words.len(),
                check == (|w: String| check_word("word_options.word", w@)),
                MIN_WORD_CHOICES <= self.words@.len() <= MAX_WORD_CHOICES,
                check_each(self.words@, check) == check_each(self.words@.skip(i as int), check),
            decreases self.words.len() - i,
        {
            proof {
                lemma_check_each_step(self.words@, i as int, check);
            }
            validate_word("word_options.word", &self.words[i])?;
            i = i + 1;
        }
        assert(self.words@.skip(i as int) =~= Seq::<String>::empty());
        Ok(())
    }
}

impl Validate for ScoreView {
    fn validate(&self) -> (r: Result<(), ValidationError>)
        ensures
            r == check_score(*self),
    {
        let reconstructed_previous = self.total_score as i64 - self.delta as i64;
        if reconstructed_previous < 0 {
            return Err(
                ValidationError::Inconsistent {
                    field: "score.delta",
                    reason: "delta implies a negative previous score",
                },
            );
        }
        Ok(())
    }
}

impl Validate for TurnResultView {
    fn validate(&self) -> (r: Result<(), ValidationError>)
        ensures
            r == check_turn_result(*self),
    {
        validate_word("turn_result.word", &self.word)?;
        validate_count("turn_result.awards", self.awards.len(), 0, MAX_PLAYERS_IN_ROOM)?;
        let mut seen: HashSet<u32> = HashSet::new();
        let mut i: usize = 0;
        assert(self.awards@.skip(0) =~= self.awards@);
        while i < self.awards.len()
            invariant
                i <= self.awards.len(),
                self.awards@.len() <= MAX_PLAYERS_IN_ROOM,
                check_word("turn_result.word", self.word@) is Ok,
                check_awards(self.awards@, Set::empty()) == check_awards(
                    self.awards@.skip(i as int),
                    seen@,
                ),
            decreases self.awards.len() - i,
        {
            assert(self.awards@.skip(i as int).drop_first() =~= self.awards@.skip(i + 1));
            assert(self.awards@.skip(i as int)[0] == self.awards@[i as int]);
            let award = self.awards[i];
            if award.points == 0 {
                return Err(
                    ValidationError::OutOfRange {
                        field: "turn_result.award.points",
                        minimum: 1,
                        maximum: 0xffff_ffff,
                        actual: 0,
                    },
                );
            }
            if !seen.insert(award.player_id.0) {
                return Err(
                    ValidationError::Inconsistent {
                        field: "turn_result.awards",
                        reason: "a player may have at most one award per turn",
                    },
                );
            }
            i = i + 1;
        }
        assert(self.awards@.skip(i as int) =~= Seq::<TurnAward>::empty());
        Ok(())
    }
}

fn validate_chat_history(history: &Vec<ChatEvent>) -> (r: Result<(), ValidationError>)
    ensures
        r == check_each(history@, |e: ChatEvent| check_chat(e)),
{
    let ghost check = |e: ChatEvent| check_chat(e);
    let mut i: usize = 0;
    assert(history@.skip(0) =~= history@);
    while i < history.len()
        invariant
            i <= history.len(),
            check == (|e: ChatEvent| check_chat(e)),
            check_each(history@, check) == check_each(history@.skip(i as int), check),
        decreases history.len() - i,
    {
        proof {
            lemma_check_each_step(history@, i as int, check);
        }
        validate_plain_text("chat.text", &history[i].text, MAX_TEXT_BYTES)?;
        i = i + 1;
    }
    assert(history@.skip(i as int) =~= Seq::<ChatEvent>::empty());
    Ok(())
}

/// Whether the roster holds a player with the identifier.
pub fn roster_contains(players: &Vec<PlayerView>, id: PlayerId) -> (r: bool)
    ensures
        r == roster_has(players@, id),
{
    let mut i: usize = 0;
    while i < players.len()
        invariant
            i <= players.len(),
            forall|j: int| 0 <= j < i ==> #[trigger] players@[j].player_id != id,
        decreases players.len() - i,
    {
        if players[i].player_id == id {
            return true;
        }
        i = i + 1;
    }
    false
}

fn validate_players(players: &Vec<PlayerView>) -> (r: Result<usize, ValidationError>)
    ensures
        match r {
            Ok(hosts) => check_players(players@, Set::empty()) is Ok && hosts == host_count(
                players@,
            ),
            Err(e) => check_players(players@, Set::empty()) == Err::<(), ValidationError>(e),
        },
{
    let mut seen: HashSet<u32> = HashSet::new();
    let mut hosts: usize = 0;
    let mut i: usize = 0;
    assert(players@.skip(0) =~= players@);
    while i < players.len()
        invariant
            i <= players.len(),
            hosts <= i,
            check_players(players@, Set::empty()) == check_players(players@.skip(i as int), seen@),
            host_count(players@) == hosts + host_count(players@.skip(i as int)),
        decreases players.len() - i,
    {
        assert(players@.skip(i as int).drop_first() =~= players@.skip(i + 1));
        assert(players@.skip(i as int)[0] == players@[i as int]);
        players[i].profile.validate()?;
        if !seen.insert(players[i].player_id.0) {
            return Err(
                ValidationError::Inconsistent {
                    field: "snapshot.players",
                    reason: "player identifiers must be unique",
                },
            );
        }
        if players[i].is_host {
            hosts = hosts + 1;
        }
        i = i + 1;
    }
    assert(players@.skip(i as int) =~= Seq::<PlayerView>::empty());
    Ok(hosts)
}

fn validate_awards_in_roster(awards: &Vec<TurnAward>, players: &Vec<PlayerView>) -> (r: bool)
    ensures
        r == !(exists|i: int|
            0 <= i < awards@.len() && !roster_has(players@, #[trigger] awards@[i].player_id)),
{
    let mut i: usize = 0;
    while i < awards.len()
        invariant
            i <= awards.len(),
            forall|j: int| 0 <= j < i ==> roster_has(players@, #[trigger] awards@[j].player_id),
        decreases awards.len() - i,
    {
        if !roster_contains(players, awards[i].player_id) {
            return false;
        }
        i = i + 1;
    }
    true
}

fn validate_snapshot_tail(s: &RoomSnapshot) -> (r: Result<(), ValidationError>)
    ensures
        r == check_snapshot_tail(*s),
{
    if let Some(options) = &s.word_options {
        options.validate()?;
        if options.words.len() != s.settings.word_choices as usize {
            return Err(
                ValidationError::Inconsistent {
                    field: "snapshot.word_options",
                    reason: "option count must match room settings",
                },
            );
        }
    }
    if let Some(secret_word) = &s.secret_word {
        validate_word("snapshot.secret_word", secret_word)?;
    }
    if let Some(result) = &s.turn_result {
        result.validate()?;
        let round_end = match s.phase.phase {
            GamePhase::RoundEnd => true,
            _ => false,
        };
        let same_turn = match s.phase.turn_id {
            Some(t) => t == result.turn_id,
            None => false,
        };
        if !round_end || !same_turn {
            return Err(
                ValidationError::Inconsistent {
                    field: "snapshot.turn_result",
                    reason: "must describe the current round-end turn",
                },
            );
        }
        if !validate_awards_in_roster(&result.awards, &s.players) {
            return Err(
                ValidationError::Inconsistent {
                    field: "snapshot.turn_result.awards",
                    reason: "award recipients must exist in the room roster",
                },
            );
        }
    }
    if let Some(rating) = &s.drawing_rating {
        validate_rating_counts(rating.likes, rating.dislikes)?;
        let matches_result = match &s.turn_result {
            Some(result) => result.turn_id == rating.turn_id,
            None => false,
        };
        if !matches_result {
            return Err(
                ValidationError::Inconsistent {
                    field: "snapshot.drawing_rating",
                    reason: "must describe the included completed turn",
                },
            );
        }
    }
    validate_chat_history(&s.chat_history)
}

impl Validate for RoomSnapshot {
    fn validate(&self) -> (r: Result<(), ValidationError>)
        ensures
            r == check_snapshot(*self),
    {
        self.settings.validate()?;
        self.phase.validate()?;
        self.canvas.validate()?;
        if self.phase.total_rounds != self.settings.rounds {
            return Err(
                ValidationError::Inconsistent {
                    field: "snapshot.phase.total_rounds",
                    reason: "must match room settings",
                },
            );
        }
        validate_count("snapshot.players", self.players.len(), 0, self.settings.max_players as usize)?;
        validate_count("snapshot.chat_history", self.chat_history.len(), 0, MAX_CHAT_HISTORY)?;
        let host_count = validate_players(&self.players)?;
        if host_count > 1 {
            return Err(
                ValidationError::Inconsistent {
                    field: "snapshot.players",
                    reason: "at most one player may be the host",
                },
            );
        }
        validate_snapshot_tail(self)
    }
}

impl Validate for Welcome {
    fn validate(&self) -> (r: Result<(), ValidationError>)
        ensures
            r == check_welcome(*self),
    {
        self.snapshot.validate()?;
        if !roster_contains(&self.snapshot.players, self.player_id) {
            return Err(
                ValidationError::Inconsistent {
                    field: "welcome.player_id",
                    reason: "assigned player must exist in the snapshot",
                },
            );
        }
        Ok(())
    }
}

impl Validate for Resume {
    fn validate(&self) -> (r: Result<(), ValidationError>)
        ensures
            r == check_resume(*self),
    {
        self.snapshot.validate()?;
        if !roster_contains(&self.snapshot.players, self.player_id) {
            return Err(
                ValidationError::Inconsistent {
                    field: "resume.player_id",
                    reason: "resumed player must exist in the snapshot",
                },
            );
        }
        Ok(())
    }
}

impl Validate for ClientMessage {
    fn validate(&self) -> (r: Result<(), ValidationError>)
        ensures
            r == check_client_message(*self),
    {
        match self {
            ClientMessage::Hello(hello) => hello.profile.validate(),
            ClientMessage::PickWord { choice } => validate_range(
                "pick_word.choice",
                *choice as u64,
                0,
                (MAX_WORD_CHOICES - 1) as u64,
            ),
            ClientMessage::Draw(operation) => operation.validate(),
            ClientMessage::Guess { text } => validate_plain_text("guess.text", text, MAX_TEXT_BYTES),
            ClientMessage::Chat { text } => validate_plain_text("chat.text", text, MAX_TEXT_BYTES),
            _ => Ok(()),
        }
    }
}

impl Validate for ServerMessage {
    fn validate(&self) -> (r: Result<(), ValidationError>)
        ensures
            r == check_server_message(*self),
    {
        match self {
            ServerMessage::Welcome(message) => message.validate(),
            ServerMessage::Resume(message) => message.validate(),
            ServerMessage::PlayerJoined(player) => player.profile.validate(),
            ServerMessage::PhaseChanged(phase) => phase.validate(),
            ServerMessage::WordOptions(options) => options.validate(),
            ServerMessage::SecretWord { word, .. } => validate_word("secret_word.word", word),
            ServerMessage::HintRevealed(hint) => validate_word("hint.masked_word", &hint.masked_word),
            ServerMessage::Draw(event) => event.operation.validate(),
            ServerMessage::Chat(event) => validate_plain_text("chat.text", &event.text, MAX_TEXT_BYTES),
            ServerMessage::ScoreChanged(score) => score.validate(),
            ServerMessage::Error(error) => validate_plain_text(
                "error.message",
                &error.message,
                MAX_TEXT_BYTES,
            ),
            ServerMessage::TurnResult(result) => result.validate(),
            ServerMessage::DrawingVoteChanged(update) => validate_rating_counts(
                update.likes,
                update.dislikes,
            ),
            _ => Ok(()),
        }
    }
}

} // verus!
