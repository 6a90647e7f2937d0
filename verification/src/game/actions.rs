//! Player actions: starting, drawing, guessing, chatting, voting, rematch,
//! and the deadline clock.

use vstd::prelude::*;

use super::command::PlayerAction;
use super::event::{Audience, EmittedEvent};
use super::roster::{after_prefix, kick_done, starts_with, turn_follow_up};
use super::state::{DrawingState, PhaseState, PlayerState, RoundEndState};
use super::turns::{
    hint_done, next_turn_advanced, pick_done, sat_add32, turn_finished, wire_delta,
};
use super::views::{rating_counts, rating_of, same_chat, copy_chat};
use super::{
    connected_ids, count_connected, find_player, game_wf, keys_unique, lemma_connected_ids,
    lemma_find_player, lemma_find_same_ids, lemma_find_unique, seq_result, Game, GameView,
};
use crate::canvas::canvas_step;
use crate::failure::RuleError;
use crate::guess::{close_guess, contains_secret, correct_guess, is_close, is_correct, spoils};
use crate::ids::{PlayerId, TurnId};
use crate::limit::{MAX_CHAT_HISTORY, MAX_TEXT_BYTES};
use crate::model::{
    ChatEvent, ChatKind, DrawEvent, DrawOp, DrawingVote, DrawingVoteUpdate, GuessOutcome,
    GuessResult, ScoreView, ServerMessage,
};
use crate::scoring::{guess_score, spec_guess_score};
use crate::time::{GameDeadline, GameTime};
use crate::validate::{check_plain_text, validate_plain_text};

verus! {

// ---------------------------------------------------------------------------
// Keyed tables
// ---------------------------------------------------------------------------

/// Position of a key in a keyed table, or -1.
pub open spec fn key_pos<V>(s: Seq<(PlayerId, V)>, id: PlayerId) -> int
    decreases s.len(),
{
    if s.len() == 0 {
        -1
    } else {
        let k = key_pos(s.drop_last(), id);
        if k >= 0 {
            k
        } else if s.last().0 == id {
            s.len() - 1
        } else {
            -1
        }
    }
}

/// The table with `id` mapped to `v`.
pub open spec fn upsert<V>(s: Seq<(PlayerId, V)>, id: PlayerId, v: V) -> Seq<(PlayerId, V)> {
    if key_pos(s, id) >= 0 {
        s.update(key_pos(s, id), (id, v))
    } else {
        s.push((id, v))
    }
}

/// The table without `id`.
pub open spec fn remove_key<V>(s: Seq<(PlayerId, V)>, id: PlayerId) -> Seq<(PlayerId, V)> {
    if key_pos(s, id) >= 0 {
        s.remove(key_pos(s, id))
    } else {
        s
    }
}

proof fn lemma_key_pos<V>(s: Seq<(PlayerId, V)>, id: PlayerId)
    ensures
        -1 <= key_pos(s, id) < s.len(),
        key_pos(s, id) >= 0 ==> s[key_pos(s, id)].0 == id,
        forall|j: int|
            0 <= j < s.len() && (key_pos(s, id) < 0 || j < key_pos(s, id)) ==> (#[trigger] s[j]).0 != id,
    decreases s.len(),
{
    if s.len() > 0 {
        lemma_key_pos(s.drop_last(), id);
        assert forall|j: int| 0 <= j < s.len() && (key_pos(s, id) < 0 || j < key_pos(s, id)) implies (
        #[trigger] s[j]).0 != id by {
            if j < s.len() - 1 {
                assert(s[j] == s.drop_last()[j]);
            }
        }
        if key_pos(s.drop_last(), id) >= 0 {
            assert(s[key_pos(s, id)] == s.drop_last()[key_pos(s, id)]);
        }
    }
}

proof fn lemma_upsert_unique<V>(s: Seq<(PlayerId, V)>, id: PlayerId, v: V)
    requires
        keys_unique(s),
    ensures
        keys_unique(upsert(s, id, v)),
        keys_unique(remove_key(s, id)),
{
    lemma_key_pos(s, id);
    let u = upsert(s, id, v);
    assert forall|i: int, j: int| 0 <= i < u.len() && 0 <= j < u.len() && i != j implies #[trigger] u[i].0
        != #[trigger] u[j].0 by {
        if key_pos(s, id) < 0 {
            if i < s.len() && j < s.len() {
                assert(u[i] == s[i] && u[j] == s[j]);
            } else if i < s.len() {
                assert(u[i] == s[i]);
            } else {
                assert(u[j] == s[j]);
            }
        } else {
            let k = key_pos(s, id);
            if i != k && j != k {
                assert(u[i] == s[i] && u[j] == s[j]);
            } else if i == k {
                assert(u[j] == s[j]);
                assert(s[j].0 != s[k].0);
            } else {
                assert(u[i] == s[i]);
                assert(s[i].0 != s[k].0);
            }
        }
    }
    let m = remove_key(s, id);
    assert forall|i: int, j: int| 0 <= i < m.len() && 0 <= j < m.len() && i != j implies #[trigger] m[i].0
        != #[trigger] m[j].0 by {
        if key_pos(s, id) >= 0 {
            let k = key_pos(s, id);
            let i2 = if i < k { i } else { i + 1 };
            let j2 = if j < k { j } else { j + 1 };
            assert(m[i] == s[i2] && m[j] == s[j2]);
        }
    }
}

/// Maps `id` to `v` in a keyed table.
fn upsert_entry<V: Copy>(table: &mut Vec<(PlayerId, V)>, id: PlayerId, v: V)
    ensures
        final(table)@ == upsert(old(table)@, id, v),
{
    proof {
        lemma_key_pos(table@, id);
    }
    let mut i: usize = 0;
    while i < table.len()
        invariant
            i <= table@.len(),
            table@ == old(table)@,
            forall|j: int| 0 <= j < i ==> (#[trigger] table@[j]).0 != id,
            -1 <= key_pos(table@, id) < table@.len(),
            key_pos(table@, id) >= 0 ==> table@[key_pos(table@, id)].0 == id,
            forall|j: int|
                0 <= j < table@.len() && (key_pos(table@, id) < 0 || j < key_pos(table@, id))
                    ==> (#[trigger] table@[j]).0 != id,
        decreases table.len() - i,
    {
        if table[i].0 == id {
            proof {
                lemma_first_key(table@, id, i as int);
            }
            table.set(i, (id, v));
            return;
        }
        i = i + 1;
    }
    table.push((id, v));
}

/// Removes `id` from a keyed table.
fn remove_entry<V>(table: &mut Vec<(PlayerId, V)>, id: PlayerId)
    ensures
        final(table)@ == remove_key(old(table)@, id),
{
    proof {
        lemma_key_pos(table@, id);
    }
    let mut i: usize = 0;
    while i < table.len()
        invariant
            i <= table@.len(),
            table@ == old(table)@,
            forall|j: int| 0 <= j < i ==> (#[trigger] table@[j]).0 != id,
            -1 <= key_pos(table@, id) < table@.len(),
            key_pos(table@, id) >= 0 ==> table@[key_pos(table@, id)].0 == id,
            forall|j: int|
                0 <= j < table@.len() && (key_pos(table@, id) < 0 || j < key_pos(table@, id))
                    ==> (#[trigger] table@[j]).0 != id,
        decreases table.len() - i,
    {
        if table[i].0 == id {
            proof {
                lemma_first_key(table@, id, i as int);
            }
            table.remove(i);
            return;
        }
        i = i + 1;
    }
}

proof fn lemma_first_key<V>(s: Seq<(PlayerId, V)>, id: PlayerId, i: int)
    requires
        0 <= i < s.len(),
        s[i].0 == id,
        forall|j: int| 0 <= j < i ==> (#[trigger] s[j]).0 != id,
    ensures
        key_pos(s, id) == i,
{
    lemma_key_pos(s, id);
}

// ---------------------------------------------------------------------------
// Chat
// ---------------------------------------------------------------------------

/// Chat history after one more event, keeping the newest entries.
pub open spec fn retained(h: Seq<ChatEvent>, e: ChatEvent) -> Seq<ChatEvent> {
    if h.len() + 1 > MAX_CHAT_HISTORY {
        h.push(e).drop_first()
    } else {
        h.push(e)
    }
}

/// One public chat event carrying `e`.
pub open spec fn chat_event(ev: EmittedEvent, e: ChatEvent) -> bool {
    &&& ev.audience == Audience::Everyone
    &&& ev.message matches ServerMessage::Chat(c) && same_chat(c, e)
}

/// Outcome of a chat message.
pub open spec fn chat_done(
    g0: GameView,
    g1: GameView,
    id: PlayerId,
    text: String,
    r: Result<Seq<EmittedEvent>, RuleError>,
) -> bool {
    match check_plain_text("chat.text", text@, MAX_TEXT_BYTES) {
        Err(e) => r == Err::<Seq<EmittedEvent>, RuleError>(RuleError::InvalidMessage(e)) && g1 == g0,
        Ok(_) => if g0.phase matches PhaseState::Drawing(d) && spoils(text@, d.secret_word@) {
            r == Err::<Seq<EmittedEvent>, RuleError>(RuleError::Spoiler) && g1 == g0
        } else {
            let e = ChatEvent { player_id: id, kind: ChatKind::Chat, text };
            &&& g1 == GameView { chat_history: retained(g0.chat_history, e), ..g0 }
            &&& r matches Ok(evs) && (evs.len() == 1 && chat_event(evs[0], e))
        },
    }
}

// ---------------------------------------------------------------------------
// Guessing
// ---------------------------------------------------------------------------

/// The drawing state after a correct guess worth `points`.
pub open spec fn guess_recorded(d: DrawingState, d1: DrawingState, id: PlayerId, points: u32) -> bool {
    &&& d1.guessed@ == d.guessed@.push(id)
    &&& d1.guess_awards@ == upsert(d.guess_awards@, id, points)
    &&& d1.guesser_score_total == sat_add32(d.guesser_score_total, points)
    &&& d1.drawer == d.drawer
    &&& d1.turn_id == d.turn_id
    &&& d1.secret_word == d.secret_word
    &&& d1.word_characters == d.word_characters
    &&& d1.revealed == d.revealed
    &&& d1.canvas == d.canvas
    &&& d1.deadline == d.deadline
    &&& d1.hint_deadlines == d.hint_deadlines
    &&& d1.next_hint == d.next_hint
}

/// Points of a correct guess at `now` in turn `d`.
pub open spec fn guess_points(g: GameView, d: DrawingState, now: GameTime) -> u32 {
    spec_guess_score(d.deadline.0, now.0, (g.settings.draw_seconds * 1000) as u64)
}

/// Roster after a guesser earns `points`.
pub open spec fn guess_players(g: GameView, id: PlayerId, points: u32) -> Seq<PlayerState> {
    let i = find_player(g.players, id);
    if i >= 0 {
        g.players.update(i, PlayerState { score: sat_add32(g.players[i].score, points), ..g.players[i] })
    } else {
        g.players
    }
}

/// The guesser's total after earning `points`.
pub open spec fn guess_total(g: GameView, id: PlayerId, points: u32) -> u32 {
    let i = find_player(g.players, id);
    if i >= 0 {
        sat_add32(g.players[i].score, points)
    } else {
        points
    }
}

/// Public events of a correct guess: the verdict and the score update.
pub open spec fn correct_prefix(id: PlayerId, points: u32, total: u32) -> Seq<EmittedEvent> {
    seq![
        EmittedEvent {
            audience: Audience::Everyone,
            message: ServerMessage::GuessResult(
                GuessResult { player_id: id, outcome: GuessOutcome::Correct { points } },
            ),
        },
        EmittedEvent {
            audience: Audience::Everyone,
            message: ServerMessage::ScoreChanged(
                ScoreView { player_id: id, total_score: total, delta: wire_delta(points) },
            ),
        },
    ]
}

/// Outcome of a correct guess: the score, the public result and score
/// update, and the end of the turn once nobody is left to guess.
pub open spec fn correct_guess_done(
    g0: GameView,
    d: DrawingState,
    g1: GameView,
    id: PlayerId,
    now: GameTime,
    r: Result<Seq<EmittedEvent>, RuleError>,
) -> bool {
    let points = guess_points(g0, d, now);
    let prefix = correct_prefix(id, points, guess_total(g0, id, points));
    exists|gm: GameView|
        #![trigger turn_follow_up(gm, g1, prefix, r, false, now)]
        gm == (GameView { players: guess_players(g0, id, points), phase: gm.phase, ..g0 })
            && (gm.phase matches PhaseState::Drawing(dm) && guess_recorded(d, dm, id, points))
            && turn_follow_up(gm, g1, prefix, r, false, now)
}

/// Outcome of an incorrect guess: a private verdict, and the guess shown in
/// chat unless it spells out the secret.
pub open spec fn wrong_guess_done(
    g0: GameView,
    d: DrawingState,
    g1: GameView,
    id: PlayerId,
    text: String,
    r: Result<Seq<EmittedEvent>, RuleError>,
) -> bool {
    let outcome = if close_guess(text@, d.secret_word@) {
        GuessOutcome::Close
    } else {
        GuessOutcome::Incorrect
    };
    let verdict = EmittedEvent {
        audience: Audience::Player(id),
        message: ServerMessage::GuessResult(GuessResult { player_id: id, outcome }),
    };
    if spoils(text@, d.secret_word@) {
        g1 == g0 && r == Ok::<Seq<EmittedEvent>, RuleError>(seq![verdict])
    } else {
        let e = ChatEvent { player_id: id, kind: ChatKind::Guess, text };
        &&& g1 == GameView { chat_history: retained(g0.chat_history, e), ..g0 }
        &&& r matches Ok(evs) && (evs.len() == 2 && chat_event(evs[0], e) && evs[1] == verdict)
    }
}

/// Outcome of a guess.
pub open spec fn guess_done(
    g0: GameView,
    g1: GameView,
    id: PlayerId,
    text: String,
    now: GameTime,
    r: Result<Seq<EmittedEvent>, RuleError>,
) -> bool {
    match check_plain_text("guess.text", text@, MAX_TEXT_BYTES) {
        Err(e) => r == Err::<Seq<EmittedEvent>, RuleError>(RuleError::InvalidMessage(e)) && g1 == g0,
        Ok(_) => match g0.phase {
            PhaseState::Drawing(d) => if d.drawer == id {
                r == Err::<Seq<EmittedEvent>, RuleError>(RuleError::DrawerCannotGuess) && g1 == g0
            } else if d.guessed@.contains(id) {
                r == Err::<Seq<EmittedEvent>, RuleError>(RuleError::AlreadyGuessed) && g1 == g0
            } else if correct_guess(text@, d.secret_word@) {
                correct_guess_done(g0, d, g1, id, now, r)
            } else {
                wrong_guess_done(g0, d, g1, id, text, r)
            },
            _ => r == Err::<Seq<EmittedEvent>, RuleError>(RuleError::InvalidPhase) && g1 == g0,
        },
    }
}

// ---------------------------------------------------------------------------
// Drawing and voting
// ---------------------------------------------------------------------------

/// Outcome of a drawing operation.
pub open spec fn draw_done(
    g0: GameView,
    g1: GameView,
    id: PlayerId,
    op: DrawOp,
    r: Result<Seq<EmittedEvent>, RuleError>,
) -> bool {
    match g0.phase {
        PhaseState::Drawing(d) => if d.drawer != id {
            r == Err::<Seq<EmittedEvent>, RuleError>(RuleError::DrawerOnly) && g1 == g0
        } else {
            let (m, res) = canvas_step(d.canvas@, op);
            &&& g1 == GameView { phase: g1.phase, ..g0 }
            &&& g1.phase matches PhaseState::Drawing(d1) && d1.canvas@ == m && d1.drawer == d.drawer
                && d1.turn_id == d.turn_id && d1.secret_word == d.secret_word
                && d1.word_characters == d.word_characters && d1.revealed == d.revealed
                && d1.guessed == d.guessed && d1.guess_awards == d.guess_awards
                && d1.guesser_score_total == d.guesser_score_total && d1.deadline == d.deadline
                && d1.hint_deadlines == d.hint_deadlines && d1.next_hint == d.next_hint
            &&& match res {
                Err(e) => r == Err::<Seq<EmittedEvent>, RuleError>(RuleError::Canvas(e)),
                Ok(_) => r == Ok::<Seq<EmittedEvent>, RuleError>(
                    seq![
                        EmittedEvent {
                            audience: Audience::Everyone,
                            message: ServerMessage::Draw(
                                DrawEvent { player_id: id, turn_id: d.turn_id, operation: op },
                            ),
                        },
                    ],
                ),
            }
        },
        _ => r == Err::<Seq<EmittedEvent>, RuleError>(RuleError::InvalidPhase) && g1 == g0,
    }
}

/// Outcome of a drawing vote.
pub open spec fn vote_done(
    g0: GameView,
    g1: GameView,
    id: PlayerId,
    turn_id: TurnId,
    vote: Option<DrawingVote>,
    r: Result<Seq<EmittedEvent>, RuleError>,
) -> bool {
    match g0.phase {
        PhaseState::RoundEnd(s) => if s.turn_id != turn_id {
            r == Err::<Seq<EmittedEvent>, RuleError>(RuleError::WrongTurn) && g1 == g0
        } else if s.drawer == id {
            r == Err::<Seq<EmittedEvent>, RuleError>(RuleError::DrawerCannotVote) && g1 == g0
        } else {
            let votes = match vote {
                Some(v) => upsert(s.votes@, id, v),
                None => remove_key(s.votes@, id),
            };
            let counts = rating_of(votes);
            &&& g1 == GameView { phase: g1.phase, ..g0 }
            &&& g1.phase matches PhaseState::RoundEnd(s1) && s1.votes@ == votes && s1.drawer
                == s.drawer && s1.turn_id == s.turn_id && s1.secret_word == s.secret_word
                && s1.canvas == s.canvas && s1.awards == s.awards && s1.deadline == s.deadline
            &&& r == Ok::<Seq<EmittedEvent>, RuleError>(
                seq![
                    EmittedEvent {
                        audience: Audience::Everyone,
                        message: ServerMessage::DrawingVoteChanged(
                            DrawingVoteUpdate {
                                turn_id,
                                player_id: id,
                                vote,
                                likes: counts.0,
                                dislikes: counts.1,
                            },
                        ),
                    },
                ],
            )
        },
        _ => r == Err::<Seq<EmittedEvent>, RuleError>(RuleError::InvalidPhase) && g1 == g0,
    }
}

// ---------------------------------------------------------------------------
// Starting and restarting
// ---------------------------------------------------------------------------

/// Outcome of the host starting the game.
pub open spec fn start_done(
    g0: GameView,
    g1: GameView,
    id: PlayerId,
    now: GameTime,
    r: Result<Seq<EmittedEvent>, RuleError>,
) -> bool {
    if g0.host != Some(id) {
        r == Err::<Seq<EmittedEvent>, RuleError>(RuleError::HostOnly) && g1 == g0
    } else if !(g0.phase is Lobby) {
        r == Err::<Seq<EmittedEvent>, RuleError>(RuleError::InvalidPhase) && g1 == g0
    } else if count_connected(g0.players) < 2 {
        r == Err::<Seq<EmittedEvent>, RuleError>(RuleError::NotEnoughPlayers) && g1 == g0
    } else {
        next_turn_advanced(
            GameView { round: 1, remaining_drawers: connected_ids(g0.players), ..g0 },
            g1,
            r,
            now,
        )
    }
}

/// Every score back to zero.
pub open spec fn reset_scores(ps: Seq<PlayerState>) -> Seq<PlayerState> {
    Seq::new(ps.len(), |i: int| PlayerState { score: 0, ..ps[i] })
}

/// The wire delta that takes a score back to zero.
pub open spec fn reset_delta(score: u32) -> i32 {
    if score <= i32::MAX as u32 {
        -(score as int) as i32
    } else {
        (i32::MIN + 1) as i32
    }
}

/// Score updates announcing the reset of every positive score, in roster
/// order.
pub open spec fn reset_events(ps: Seq<PlayerState>) -> Seq<EmittedEvent>
    decreases ps.len(),
{
    if ps.len() == 0 {
        Seq::empty()
    } else {
        let r = reset_events(ps.drop_last());
        let p = ps.last();
        if p.score > 0 {
            r.push(
                EmittedEvent {
                    audience: Audience::Everyone,
                    message: ServerMessage::ScoreChanged(
                        ScoreView { player_id: p.player_id, total_score: 0, delta: reset_delta(p.score) },
                    ),
                },
            )
        } else {
            r
        }
    }
}

proof fn lemma_same_connected_ids(a: Seq<PlayerState>, b: Seq<PlayerState>)
    requires
        a.len() == b.len(),
        forall|j: int|
            0 <= j < a.len() ==> (#[trigger] a[j]).connected == b[j].connected && a[j].player_id
                == b[j].player_id,
    ensures
        connected_ids(a) == connected_ids(b),
    decreases a.len(),
{
    if a.len() > 0 {
        lemma_same_connected_ids(a.drop_last(), b.drop_last());
        assert(a.last().connected == b[b.len() - 1].connected);
    }
}

/// Outcome of the host restarting a finished game.
pub open spec fn rematch_done(
    g0: GameView,
    g1: GameView,
    id: PlayerId,
    now: GameTime,
    r: Result<Seq<EmittedEvent>, RuleError>,
) -> bool {
    if g0.host != Some(id) {
        r == Err::<Seq<EmittedEvent>, RuleError>(RuleError::HostOnly) && g1 == g0
    } else if !(g0.phase is GameOver) {
        r == Err::<Seq<EmittedEvent>, RuleError>(RuleError::InvalidPhase) && g1 == g0
    } else if count_connected(g0.players) < 2 {
        r == Err::<Seq<EmittedEvent>, RuleError>(RuleError::NotEnoughPlayers) && g1 == g0
    } else {
        let prefix = reset_events(g0.players);
        &&& starts_with(prefix, r)
        &&& next_turn_advanced(
            GameView {
                players: reset_scores(g0.players),
                round: 1,
                remaining_drawers: connected_ids(g0.players),
                ..g0
            },
            g1,
            after_prefix(prefix, r),
            now,
        )
    }
}

// ---------------------------------------------------------------------------
// Dispatch and deadlines
// ---------------------------------------------------------------------------

/// The next gameplay deadline of a phase: the earlier of the next hint and
/// the turn end while drawing.
pub open spec fn next_deadline_of(p: PhaseState) -> Option<GameDeadline> {
    match p {
        PhaseState::ChoosingWord(c) => Some(c.deadline),
        PhaseState::Drawing(d) => if d.next_hint < d.hint_deadlines@.len() {
            let h = d.hint_deadlines@[d.next_hint as int];
            Some(
                if h.0 <= d.deadline.0 {
                    h
                } else {
                    d.deadline
                },
            )
        } else {
            Some(d.deadline)
        },
        PhaseState::RoundEnd(s) => Some(s.deadline),
        _ => None,
    }
}

/// Outcome of one authenticated action.
pub open spec fn apply_done(
    g0: GameView,
    g1: GameView,
    id: PlayerId,
    action: PlayerAction,
    now: GameTime,
    r: Result<Seq<EmittedEvent>, RuleError>,
) -> bool {
    let i = find_player(g0.players, id);
    if i < 0 {
        r == Err::<Seq<EmittedEvent>, RuleError>(RuleError::UnknownPlayer) && g1 == g0
    } else if !g0.players[i].connected {
        r == Err::<Seq<EmittedEvent>, RuleError>(RuleError::PlayerDisconnected) && g1 == g0
    } else if next_deadline_of(g0.phase) matches Some(dl) && now.0 >= dl.0 {
        r == Err::<Seq<EmittedEvent>, RuleError>(RuleError::DeadlineElapsed) && g1 == g0
    } else {
        match action {
            PlayerAction::StartGame => start_done(g0, g1, id, now, r),
            PlayerAction::PickWord { choice } => pick_done(g0, g1, id, choice, now, r),
            PlayerAction::Draw(op) => draw_done(g0, g1, id, op, r),
            PlayerAction::Guess { text } => guess_done(g0, g1, id, text, now, r),
            PlayerAction::Chat { text } => chat_done(g0, g1, id, text, r),
            PlayerAction::KickPlayer { player_id } => kick_done(g0, g1, id, player_id, now, r),
            PlayerAction::Rematch => rematch_done(g0, g1, id, now, r),
            PlayerAction::VoteDrawing { turn_id, vote } => vote_done(g0, g1, id, turn_id, vote, r),
        }
    }
}

/// Outcome of the clock reaching `now`.
pub open spec fn deadline_done(
    g0: GameView,
    g1: GameView,
    now: GameTime,
    r: Result<Seq<EmittedEvent>, RuleError>,
) -> bool {
    if next_deadline_of(g0.phase) matches Some(dl) && now.0 >= dl.0 {
        match g0.phase {
            PhaseState::ChoosingWord(c) => pick_done(g0, g1, c.drawer, 0, now, r),
            PhaseState::Drawing(d) => if now.0 >= d.deadline.0 {
                r matches Ok(evs) && turn_finished(g0, d, g1, evs, now)
            } else {
                hint_done(g0, g1, r)
            },
            _ => next_turn_advanced(g0, g1, r, now),
        }
    } else {
        r == Ok::<Seq<EmittedEvent>, RuleError>(Seq::empty()) && g1 == g0
    }
}

impl Game {
    /// Succeeds only for the current host.
    fn require_host(&self, player_id: PlayerId) -> (r: Result<(), RuleError>)
        ensures
            r is Ok <==> self@.host == Some(player_id),
            r is Err ==> r == Err::<(), RuleError>(RuleError::HostOnly),
    {
        if self.host == Some(player_id) {
            Ok(())
        } else {
            Err(RuleError::HostOnly)
        }
    }

    /// Appends a chat event to the bounded history and returns a copy of it.
    fn retain_chat(&mut self, player_id: PlayerId, kind: ChatKind, text: String) -> (r: ChatEvent)
        requires
            old(self).wf(),
            check_plain_text("chat.text", text@, MAX_TEXT_BYTES) is Ok,
        ensures
            final(self).wf(),
            final(self)@ == (GameView {
                chat_history: retained(old(self)@.chat_history, ChatEvent { player_id, kind, text }),
                ..old(self)@
            }),
            same_chat(r, ChatEvent { player_id, kind, text }),
    {
        let e = ChatEvent { player_id, kind, text };
        let copy = copy_chat(&e);
        self.chat_history.push(e);
        if self.chat_history.len() > MAX_CHAT_HISTORY {
            self.chat_history.remove(0);
        }
        proof {
            assert(self@.chat_history =~= retained(old(self)@.chat_history, e));
            assert forall|i: int| 0 <= i < self@.chat_history.len() implies crate::validate::check_chat(
                #[trigger] self@.chat_history[i],
            ) is Ok by {
                let h = old(self)@.chat_history.push(e);
                if old(self)@.chat_history.len() + 1 > MAX_CHAT_HISTORY {
                    assert(self@.chat_history[i] == h[i + 1]);
                } else {
                    assert(self@.chat_history[i] == h[i]);
                }
            }
            assert(game_wf(self@));
        }
        copy
    }

    /// Starts the first turn of the game.
    fn start_game(&mut self, player_id: PlayerId, now: GameTime) -> (r: Result<Vec<EmittedEvent>, RuleError>)
        requires
            old(self).wf(),
        ensures
            final(self).wf(),
            start_done(old(self)@, final(self)@, player_id, now, seq_result(r)),
    {
        match self.require_host(player_id) {
            Ok(()) => {},
            Err(e) => {
                return Err(e);
            },
        }
        if !self.is_lobby() {
            return Err(RuleError::InvalidPhase);
        }
        if self.connected_count() < 2 {
            return Err(RuleError::NotEnoughPlayers);
        }
        self.round = 1;
        self.refill_drawers();
        self.begin_next_turn(now)
    }

    /// The drawer applies one canvas operation.
    fn draw(&mut self, player_id: PlayerId, operation: DrawOp) -> (r: Result<Vec<EmittedEvent>, RuleError>)
        requires
            old(self).wf(),
        ensures
            final(self).wf(),
            draw_done(old(self)@, final(self)@, player_id, operation, seq_result(r)),
    {
        let turn_id = match &mut self.phase {
            PhaseState::Drawing(state) => {
                if state.drawer != player_id {
                    return Err(RuleError::DrawerOnly);
                }
                match state.canvas.apply(&operation) {
                    Ok(()) => {},
                    Err(e) => {
                        return Err(RuleError::Canvas(e));
                    },
                }
                state.turn_id
            },
            _ => {
                return Err(RuleError::InvalidPhase);
            },
        };
        let mut events: Vec<EmittedEvent> = Vec::new();
        events.push(
            EmittedEvent::everyone(ServerMessage::Draw(DrawEvent { player_id, turn_id, operation })),
        );
        Ok(events)
    }

    /// A player submits room chat.
    fn chat(&mut self, player_id: PlayerId, text: String) -> (r: Result<Vec<EmittedEvent>, RuleError>)
        requires
            old(self).wf(),
        ensures
            final(self).wf(),
            chat_done(old(self)@, final(self)@, player_id, text, seq_result(r)),
    {
        match validate_plain_text("chat.text", &text, MAX_TEXT_BYTES) {
            Ok(()) => {},
            Err(e) => {
                return Err(RuleError::InvalidMessage(e));
            },
        }
        match &self.phase {
            PhaseState::Drawing(state) => {
                if contains_secret(text.as_str(), state.secret_word.as_str()) {
                    return Err(RuleError::Spoiler);
                }
            },
            _ => {},
        }
        let event = self.retain_chat(player_id, ChatKind::Chat, text);
        let mut events: Vec<EmittedEvent> = Vec::new();
        events.push(EmittedEvent::everyone(ServerMessage::Chat(event)));
        Ok(events)
    }

    /// A guesser submits a guess.
    fn guess(&mut self, player_id: PlayerId, text: String, now: GameTime) -> (r: Result<
        Vec<EmittedEvent>,
        RuleError,
    >)
        requires
            old(self).wf(),
        ensures
            final(self).wf(),
            guess_done(old(self)@, final(self)@, player_id, text, now, seq_result(r)),
    {
        match validate_plain_text("guess.text", &text, MAX_TEXT_BYTES) {
            Ok(()) => {},
            Err(e) => {
                return Err(RuleError::InvalidMessage(e));
            },
        }
        let ghost g0 = self@;
        let (deadline, correct, close, spoil) = match &self.phase {
            PhaseState::Drawing(state) => {
                if state.drawer == player_id {
                    return Err(RuleError::DrawerCannotGuess);
                }
                if super::views::contains_id(&state.guessed, player_id) {
                    return Err(RuleError::AlreadyGuessed);
                }
                let secret = state.secret_word.as_str();
                (
                    state.deadline,
                    is_correct(text.as_str(), secret),
                    is_close(text.as_str(), secret),
                    contains_secret(text.as_str(), secret),
                )
            },
            _ => {
                return Err(RuleError::InvalidPhase);
            },
        };
        if correct {
            let points = guess_score(deadline, now, self.settings.draw_seconds as u64 * 1000);
            let total: u32;
            match self.index_of(player_id) {
                Some(i) => {
                    let score = self.players[i].score.saturating_add(points);
                    self.set_score(i, score);
                    total = score;
                },
                None => {
                    total = points;
                },
            }
            match &mut self.phase {
                PhaseState::Drawing(state) => {
                    proof {
                        lemma_upsert_unique(state.guess_awards@, player_id, points);
                    }
                    state.guessed.push(player_id);
                    upsert_entry(&mut state.guess_awards, player_id, points);
                    state.guesser_score_total = state.guesser_score_total.saturating_add(points);
                },
                _ => {},
            }
            let mut events: Vec<EmittedEvent> = Vec::new();
            events.push(
                EmittedEvent::everyone(
                    ServerMessage::GuessResult(
                        GuessResult { player_id, outcome: GuessOutcome::Correct { points } },
                    ),
                ),
            );
            events.push(
                EmittedEvent::everyone(
                    ServerMessage::ScoreChanged(
                        ScoreView {
                            player_id,
                            total_score: total,
                            delta: super::views::positive_score_delta(points),
                        },
                    ),
                ),
            );
            proof {
                assert(game_wf(self@));
            }
            let ghost gm = self@;
            let ghost prefix = correct_prefix(player_id, points, total);
            assert(events@ =~= prefix);
            assert(points == guess_points(g0, g0.phase->Drawing_0, now));
            assert(total == guess_total(g0, player_id, points));
            assert(gm.phase matches PhaseState::Drawing(dm) && guess_recorded(g0.phase->Drawing_0, dm, player_id, points));
            assert(gm == (GameView { players: guess_players(g0, player_id, points), phase: gm.phase, ..g0 }));
            if self.all_active_guessers_correct() {
                match self.finish_turn(now) {
                    Ok(mut more) => {
                        let ghost tail = more@;
                        let ghost head = events@;
                        events.append(&mut more);
                        assert(events@.take(2) =~= head);
                        assert(events@.skip(2) =~= tail);
                        assert(turn_follow_up(gm, self@, prefix, seq_result(Ok::<Vec<EmittedEvent>, RuleError>(events)), false, now));
                        return Ok(events);
                    },
                    Err(e) => {
                        return Err(e);
                    },
                }
            }
            assert(turn_follow_up(gm, self@, prefix, seq_result(Ok::<Vec<EmittedEvent>, RuleError>(events)), false, now));
            return Ok(events);
        }
        let outcome = if close {
            GuessOutcome::Close
        } else {
            GuessOutcome::Incorrect
        };
        let mut events: Vec<EmittedEvent> = Vec::new();
        if !spoil {
            let event = self.retain_chat(player_id, ChatKind::Guess, text);
            events.push(EmittedEvent::everyone(ServerMessage::Chat(event)));
        }
        events.push(
            EmittedEvent::player(player_id, ServerMessage::GuessResult(GuessResult { player_id, outcome })),
        );
        Ok(events)
    }

    /// A player rates the displayed drawing or withdraws their rating.
    fn vote_drawing(&mut self, player_id: PlayerId, turn_id: TurnId, vote: Option<DrawingVote>) -> (r:
        Result<Vec<EmittedEvent>, RuleError>)
        requires
            old(self).wf(),
        ensures
            final(self).wf(),
            vote_done(old(self)@, final(self)@, player_id, turn_id, vote, seq_result(r)),
    {
        let (likes, dislikes) = match &mut self.phase {
            PhaseState::RoundEnd(state) => {
                if state.turn_id != turn_id {
                    return Err(RuleError::WrongTurn);
                }
                if state.drawer == player_id {
                    return Err(RuleError::DrawerCannotVote);
                }
                proof {
                    lemma_upsert_unique(state.votes@, player_id, DrawingVote::Like);
                    if let Some(v) = vote {
                        lemma_upsert_unique(state.votes@, player_id, v);
                    }
                }
                match vote {
                    Some(v) => upsert_entry(&mut state.votes, player_id, v),
                    None => remove_entry(&mut state.votes, player_id),
                }
                rating_counts(&state.votes)
            },
            _ => {
                return Err(RuleError::InvalidPhase);
            },
        };
        let mut events: Vec<EmittedEvent> = Vec::new();
        events.push(
            EmittedEvent::everyone(
                ServerMessage::DrawingVoteChanged(
                    DrawingVoteUpdate { turn_id, player_id, vote, likes, dislikes },
                ),
            ),
        );
        Ok(events)
    }

    /// The host starts another game after game over: every score returns to
    /// zero and a new rotation begins.
    fn rematch(&mut self, player_id: PlayerId, now: GameTime) -> (r: Result<Vec<EmittedEvent>, RuleError>)
        requires
            old(self).wf(),
        ensures
            final(self).wf(),
            rematch_done(old(self)@, final(self)@, player_id, now, seq_result(r)),
    {
        match self.require_host(player_id) {
            Ok(()) => {},
            Err(e) => {
                return Err(e);
            },
        }
        match &self.phase {
            PhaseState::GameOver => {},
            _ => {
                return Err(RuleError::InvalidPhase);
            },
        }
        if self.connected_count() < 2 {
            return Err(RuleError::NotEnoughPlayers);
        }
        let ghost g0 = self@;
        let mut events: Vec<EmittedEvent> = Vec::new();
        let mut i: usize = 0;
        while i < self.players.len()
            invariant
                self.wf(),
                i <= self@.players.len(),
                self@.players.len() == g0.players.len(),
                self@ == (GameView { players: self@.players, ..g0 }),
                forall|j: int| 0 <= j < i ==> #[trigger] self@.players[j] == (PlayerState { score: 0, ..g0.players[j] }),
                forall|j: int| i <= j < self@.players.len() ==> #[trigger] self@.players[j] == g0.players[j],
                events@ == reset_events(g0.players.take(i as int)),
            decreases self.players.len() - i,
        {
            assert(g0.players.take(i + 1).drop_last() =~= g0.players.take(i as int));
            let previous = self.players[i].score;
            self.set_score(i, 0);
            if previous > 0 {
                let delta: i32 = if previous <= 2147483647 {
                    -(previous as i32)
                } else {
                    -2147483647
                };
                events.push(
                    EmittedEvent::everyone(
                        ServerMessage::ScoreChanged(
                            ScoreView { player_id: self.players[i].player_id, total_score: 0, delta },
                        ),
                    ),
                );
            }
            i = i + 1;
        }
        assert(g0.players.take(i as int) =~= g0.players);
        assert(self@.players =~= reset_scores(g0.players));
        proof {
            assert forall|j: int| 0 <= j < self@.players.len() implies (#[trigger] self@.players[j]).connected
                == g0.players[j].connected && self@.players[j].player_id == g0.players[j].player_id by {}
            lemma_same_connected_ids(self@.players, g0.players);
        }
        self.round = 1;
        self.remaining_drawers = Vec::new();
        self.refill_drawers();
        let ghost prefix = events@;
        match self.begin_next_turn(now) {
            Ok(mut more) => {
                let ghost tail = more@;
                events.append(&mut more);
                assert(events@.take(prefix.len() as int) =~= prefix);
                assert(events@.skip(prefix.len() as int) =~= tail);
                Ok(events)
            },
            Err(e) => Err(e),
        }
    }

    /// Returns the next gameplay deadline, excluding room-lifecycle expiry.
    pub fn next_deadline(&self) -> (r: Option<GameDeadline>)
        ensures
            r == next_deadline_of(self@.phase),
    {
        match &self.phase {
            PhaseState::ChoosingWord(state) => Some(state.deadline),
            PhaseState::Drawing(state) => {
                if state.next_hint < state.hint_deadlines.len() {
                    Some(state.hint_deadlines[state.next_hint].min(state.deadline))
                } else {
                    Some(state.deadline)
                }
            },
            PhaseState::RoundEnd(state) => Some(state.deadline),
            _ => None,
        }
    }

    /// Applies one authenticated action at a caller-supplied monotonic time.
    pub fn apply(&mut self, player_id: PlayerId, action: PlayerAction, now: GameTime) -> (r: Result<
        Vec<EmittedEvent>,
        RuleError,
    >)
        requires
            old(self).wf(),
        ensures
            final(self).wf(),
            apply_done(old(self)@, final(self)@, player_id, action, now, seq_result(r)),
    {
        let i = match self.index_of(player_id) {
            Some(i) => i,
            None => {
                return Err(RuleError::UnknownPlayer);
            },
        };
        if !self.players[i].connected {
            return Err(RuleError::PlayerDisconnected);
        }
        match self.next_deadline() {
            Some(deadline) => {
                if deadline.is_due(now) {
                    return Err(RuleError::DeadlineElapsed);
                }
            },
            None => {},
        }
        match action {
            PlayerAction::StartGame => self.start_game(player_id, now),
            PlayerAction::PickWord { choice } => self.pick_word(player_id, choice, now),
            PlayerAction::Draw(operation) => self.draw(player_id, operation),
            PlayerAction::Guess { text } => self.guess(player_id, text, now),
            PlayerAction::Chat { text } => self.chat(player_id, text),
            PlayerAction::KickPlayer { player_id: target } => self.kick_player(player_id, target, now),
            PlayerAction::Rematch => self.rematch(player_id, now),
            PlayerAction::VoteDrawing { turn_id, vote } => self.vote_drawing(player_id, turn_id, vote),
        }
    }

    /// Advances one due hint or phase deadline.
    pub fn handle_deadline(&mut self, now: GameTime) -> (r: Result<Vec<EmittedEvent>, RuleError>)
        requires
            old(self).wf(),
        ensures
            final(self).wf(),
            deadline_done(old(self)@, final(self)@, now, seq_result(r)),
    {
        let deadline = match self.next_deadline() {
            Some(d) => d,
            None => {
                return Ok(Vec::new());
            },
        };
        if !deadline.is_due(now) {
            return Ok(Vec::new());
        }
        let (step, drawer): (u8, PlayerId) = match &self.phase {
            PhaseState::ChoosingWord(state) => (0, state.drawer),
            PhaseState::Drawing(state) => if state.deadline.is_due(now) {
                (1, state.drawer)
            } else {
                (2, state.drawer)
            },
            PhaseState::RoundEnd(state) => (3, state.drawer),
            _ => {
                return Ok(Vec::new());
            },
        };
        if step == 0 {
            self.pick_word(drawer, 0, now)
        } else if step == 1 {
            self.finish_turn(now)
        } else if step == 2 {
            self.reveal_hint()
        } else {
            self.begin_next_turn(now)
        }
    }
}

} // verus!
