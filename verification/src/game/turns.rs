//! Turn progression: drawer rotation, word choice, hints, and turn results.

use vstd::prelude::*;

use super::event::{Audience, EmittedEvent};
use super::state::{ChoosingWordState, DrawingState, PhaseState, PlayerState, RoundEndState};
use super::views::{copy_awards, copy_strings, mask, phase_view_ok, positive_score_delta, turn_of};
use super::{
    connected_ids, count_connected, find_player, game_wf, lemma_connected_ids, lemma_find_player,
    lemma_find_unique, player_connected, seq_result, Game, GameView, ROUND_END_DURATION, WORD_CHOICE_DURATION,
};
use crate::canvas::{snapshot_of, ActionView, CanvasModel, CanvasState};
use crate::failure::RuleError;
use crate::guess::normalized;
use crate::ids::{PlayerId, TurnId};
use crate::model::{AwardReason, HintView, ServerMessage, TurnAward, TurnResultView, WordOptions};
use crate::time::{clamp_millis, sat_add, GameDeadline, GameTime};
use crate::unicode::{alphanumeric, is_alphanumeric};
use crate::text::chars_of;
use crate::words::{deal, texts, words_at};

verus! {

/// Position of the first identity in `rem` whose player is connected, or -1.
pub open spec fn first_connected(rem: Seq<PlayerId>, ps: Seq<PlayerState>) -> int
    decreases rem.len(),
{
    if rem.len() == 0 {
        -1
    } else {
        let k = first_connected(rem.drop_last(), ps);
        if k >= 0 {
            k
        } else if player_connected(ps, rem.last()) {
            rem.len() - 1
        } else {
            -1
        }
    }
}

/// The next drawer, the drawers left after them, and the round of that turn;
/// `None` when the game is over.
pub open spec fn next_turn_plan(g: GameView) -> Option<(PlayerId, Seq<PlayerId>, u8)> {
    let k = first_connected(g.remaining_drawers, g.players);
    if k >= 0 {
        Some((g.remaining_drawers[k], g.remaining_drawers.skip(k + 1), g.round))
    } else if g.round >= g.settings.rounds || count_connected(g.players) == 0 {
        None
    } else {
        Some((connected_ids(g.players)[0], connected_ids(g.players).skip(1), (g.round + 1) as u8))
    }
}

/// A fresh word-choice phase: the offer holds `k` pool words with distinct
/// normalized forms and the drawer has fifteen seconds to pick.
pub open spec fn choosing_started(
    p: PhaseState,
    drawer: PlayerId,
    turn_id: TurnId,
    now: GameTime,
    pool: Seq<Seq<char>>,
    k: u8,
) -> bool {
    &&& p matches PhaseState::ChoosingWord(c)
    &&& c.drawer == drawer
    &&& c.turn_id == turn_id
    &&& c.options@.len() == k
    &&& forall|i: int| 0 <= i < c.options@.len() ==> pool.contains(#[trigger] c.options@[i]@)
    &&& forall|i: int, j: int|
        0 <= i < c.options@.len() && 0 <= j < c.options@.len() && i != j ==> normalized(
            #[trigger] c.options@[i]@,
        ) != normalized(#[trigger] c.options@[j]@)
    &&& c.deadline.0 == sat_add(now.0, clamp_millis(WORD_CHOICE_DURATION))
}

/// Events of a new turn: the public phase, then the private offer.
pub open spec fn turn_events(evs: Seq<EmittedEvent>, g: GameView) -> bool {
    &&& g.phase matches PhaseState::ChoosingWord(c)
    &&& evs.len() == 2
    &&& evs[0].audience == Audience::Everyone
    &&& evs[0].message matches ServerMessage::PhaseChanged(v) && phase_view_ok(v, g)
    &&& evs[1].audience == Audience::Player(c.drawer)
    &&& evs[1].message matches ServerMessage::WordOptions(o) && o.turn_id == c.turn_id && texts(
        o.words@,
    ) == texts(c.options@)
}

/// Every connected player other than the drawer has guessed correctly, and
/// there is at least one such player.
pub open spec fn all_guessed(ps: Seq<PlayerState>, d: DrawingState) -> bool {
    &&& exists|i: int| 0 <= i < ps.len() && (#[trigger] ps[i]).player_id != d.drawer && ps[i].connected
    &&& forall|i: int|
        0 <= i < ps.len() && (#[trigger] ps[i]).player_id != d.drawer && ps[i].connected
            ==> d.guessed@.contains(ps[i].player_id)
}

/// The drawing turn is over because nobody is left to guess.
pub open spec fn turn_complete(g: GameView) -> bool {
    g.phase matches PhaseState::Drawing(d) && all_guessed(g.players, d)
}

/// A single public phase-change event.
pub open spec fn phase_event(evs: Seq<EmittedEvent>, g: GameView) -> bool {
    &&& evs.len() == 1
    &&& evs[0].audience == Audience::Everyone
    &&& evs[0].message matches ServerMessage::PhaseChanged(v) && phase_view_ok(v, g)
}

/// Outcome of moving to the next turn from `g0`.
pub open spec fn next_turn_advanced(
    g0: GameView,
    g1: GameView,
    r: Result<Seq<EmittedEvent>, RuleError>,
    now: GameTime,
) -> bool {
    match next_turn_plan(g0) {
        None => {
            &&& g1 == GameView { phase: PhaseState::GameOver, remaining_drawers: Seq::empty(), ..g0 }
            &&& r matches Ok(evs) && phase_event(evs, g1)
        },
        Some((drawer, rest, round)) => if g0.next_turn_id == u32::MAX {
            &&& g1 == GameView { remaining_drawers: rest, round, ..g0 }
            &&& r == Err::<Seq<EmittedEvent>, RuleError>(RuleError::TurnIdExhausted)
        } else {
            let d = deal(
                g0.pool.len(),
                g0.deck_upcoming,
                g0.deck_seed,
                g0.deck_shuffles,
                g0.settings.word_choices as nat,
            );
            &&& g1 == GameView {
                phase: g1.phase,
                remaining_drawers: rest,
                round,
                next_turn_id: (g0.next_turn_id + 1) as u32,
                deck_upcoming: d.1,
                deck_shuffles: d.2,
                ..g0
            }
            &&& g1.phase matches PhaseState::ChoosingWord(c) && texts(c.options@) == words_at(g0.pool, d.0)
            &&& choosing_started(
                g1.phase,
                drawer,
                TurnId(g0.next_turn_id),
                now,
                g0.pool,
                g0.settings.word_choices,
            )
            &&& r matches Ok(evs) && turn_events(evs, g1)
        },
    }
}

/// Deadlines at which hints appear: 60, 30 and 10 seconds before the end
/// of a turn of `draw_seconds`, each only if the turn is longer than that.
pub open spec fn hint_schedule(now: GameTime, draw_seconds: u16) -> Seq<GameDeadline> {
    let at = |r: int| GameDeadline(sat_add(now.0, ((draw_seconds - r) * 1000) as u64));
    (if 60 < draw_seconds {
        seq![at(60)]
    } else {
        Seq::empty()
    }) + (if 30 < draw_seconds {
        seq![at(30)]
    } else {
        Seq::empty()
    }) + (if 10 < draw_seconds {
        seq![at(10)]
    } else {
        Seq::empty()
    })
}

/// Positions already shown in a fresh mask: everything but letters and digits.
pub open spec fn initial_reveal(chars: Seq<char>) -> Seq<bool> {
    Seq::new(chars.len(), |i: int| !alphanumeric(chars[i]))
}

/// A fresh drawing turn for the chosen word.
pub open spec fn drawing_started(
    p: PhaseState,
    drawer: PlayerId,
    turn_id: TurnId,
    word: Seq<char>,
    now: GameTime,
    draw_seconds: u16,
) -> bool {
    &&& p matches PhaseState::Drawing(d)
    &&& d.drawer == drawer
    &&& d.turn_id == turn_id
    &&& d.secret_word@ == word
    &&& d.word_characters@ == word
    &&& d.revealed@ == initial_reveal(word)
    &&& d.guessed@ == Seq::<PlayerId>::empty()
    &&& d.guess_awards@ == Seq::<(PlayerId, u32)>::empty()
    &&& d.guesser_score_total == 0
    &&& d.canvas@.actions == Seq::<ActionView>::empty()
    &&& d.canvas@.active is None
    &&& d.canvas@.used == Set::<u32>::empty()
    &&& d.deadline.0 == sat_add(now.0, (draw_seconds * 1000) as u64)
    &&& d.hint_deadlines@ == hint_schedule(now, draw_seconds)
    &&& d.next_hint == 0
}

/// Points a player earned by guessing this turn.
pub open spec fn award_of(aw: Seq<(PlayerId, u32)>, id: PlayerId) -> Option<u32>
    decreases aw.len(),
{
    if aw.len() == 0 {
        None
    } else if aw.last().0 == id {
        Some(aw.last().1)
    } else {
        award_of(aw.drop_last(), id)
    }
}

/// Turn awards in roster order: each guesser's points, and the drawer's
/// bonus when positive.
pub open spec fn turn_awards(
    ps: Seq<PlayerState>,
    aw: Seq<(PlayerId, u32)>,
    drawer: PlayerId,
    bonus: u32,
) -> Seq<TurnAward>
    decreases ps.len(),
{
    if ps.len() == 0 {
        Seq::empty()
    } else {
        let r = turn_awards(ps.drop_last(), aw, drawer, bonus);
        let id = ps.last().player_id;
        match award_of(aw, id) {
            Some(points) => r.push(
                TurnAward { player_id: id, points, reason: AwardReason::CorrectGuess },
            ),
            None => if id == drawer && bonus > 0 {
                r.push(TurnAward { player_id: id, points: bonus, reason: AwardReason::DrawerBonus })
            } else {
                r
            },
        }
    }
}

/// Saturating `u32` addition.
pub open spec fn sat_add32(a: u32, b: u32) -> u32 {
    if a as int + b as int > u32::MAX as int {
        u32::MAX
    } else {
        (a + b) as u32
    }
}

/// A delta as the wire carries a positive score change.
pub open spec fn wire_delta(points: u32) -> i32 {
    if points > i32::MAX as u32 {
        i32::MAX
    } else {
        points as i32
    }
}

/// Roster after the drawer receives the bonus.
pub open spec fn with_bonus(ps: Seq<PlayerState>, drawer: PlayerId, bonus: u32) -> Seq<PlayerState> {
    let i = find_player(ps, drawer);
    if bonus > 0 && i >= 0 {
        ps.update(i, PlayerState { score: sat_add32(ps[i].score, bonus), ..ps[i] })
    } else {
        ps
    }
}

/// State and events after the drawing turn `d` ends.
pub open spec fn turn_finished(
    g0: GameView,
    d: DrawingState,
    g1: GameView,
    evs: Seq<EmittedEvent>,
    now: GameTime,
) -> bool {
    let bonus = (d.guesser_score_total / 4) as u32;
    let ps = with_bonus(g0.players, d.drawer, bonus);
    let bonus_event = bonus > 0 && find_player(g0.players, d.drawer) >= 0;
    let base: int = if bonus_event {
        1
    } else {
        0
    };
    &&& g1 == GameView { players: ps, phase: g1.phase, ..g0 }
    &&& g1.phase matches PhaseState::RoundEnd(r)
    &&& r.drawer == d.drawer
    &&& r.turn_id == d.turn_id
    &&& r.secret_word@ == d.secret_word@
    &&& r.canvas@ == (CanvasModel {
        actions: snapshot_of(d.canvas@),
        active: None,
        used: d.canvas@.used,
    })
    &&& r.awards@ == turn_awards(g0.players, d.guess_awards@, d.drawer, bonus)
    &&& r.votes@ == Seq::<(PlayerId, crate::model::DrawingVote)>::empty()
    &&& r.deadline.0 == sat_add(now.0, clamp_millis(ROUND_END_DURATION))
    &&& evs.len() == base + 2
    &&& bonus_event ==> {
        &&& evs[0].audience == Audience::Everyone
        &&& evs[0].message matches ServerMessage::ScoreChanged(s) && s.player_id == d.drawer
            && s.total_score == ps[find_player(g0.players, d.drawer)].score && s.delta == wire_delta(
            bonus,
        )
    }
    &&& evs[base].audience == Audience::Everyone
    &&& evs[base].message matches ServerMessage::TurnResult(t) && t.turn_id == d.turn_id
        && t.word@ == d.secret_word@ && t.awards@ == r.awards@
    &&& evs[base + 1].audience == Audience::Everyone
    &&& evs[base + 1].message matches ServerMessage::PhaseChanged(v) && phase_view_ok(v, g1)
}

proof fn lemma_first_connected(rem: Seq<PlayerId>, ps: Seq<PlayerState>)
    ensures
        -1 <= first_connected(rem, ps) < rem.len(),
        first_connected(rem, ps) >= 0 ==> player_connected(ps, rem[first_connected(rem, ps)]),
        forall|j: int|
            0 <= j < rem.len() && (first_connected(rem, ps) < 0 || j < first_connected(rem, ps))
                ==> !player_connected(ps, #[trigger] rem[j]),
    decreases rem.len(),
{
    if rem.len() > 0 {
        lemma_first_connected(rem.drop_last(), ps);
        assert forall|j: int|
            0 <= j < rem.len() && (first_connected(rem, ps) < 0 || j < first_connected(rem, ps))
                implies !player_connected(ps, #[trigger] rem[j]) by {
            if j < rem.len() - 1 {
                assert(rem[j] == rem.drop_last()[j]);
            }
        }
        if first_connected(rem.drop_last(), ps) >= 0 {
            assert(rem[first_connected(rem, ps)] == rem.drop_last()[first_connected(rem, ps)]);
        }
    }
}

/// The identities from position `from` on.
fn ids_from(v: &Vec<PlayerId>, from: usize) -> (r: Vec<PlayerId>)
    requires
        from <= v@.len(),
    ensures
        r@ == v@.skip(from as int),
{
    let mut r: Vec<PlayerId> = Vec::new();
    let mut i: usize = from;
    while i < v.len()
        invariant
            from <= i <= v@.len(),
            r@ == v@.subrange(from as int, i as int),
        decreases v.len() - i,
    {
        r.push(v[i]);
        i = i + 1;
        assert(r@ =~= v@.subrange(from as int, i as int));
    }
    assert(r@ =~= v@.skip(from as int));
    r
}

/// Events of a chosen word: the secret to the drawer, then the public phase.
pub open spec fn secret_events(evs: Seq<EmittedEvent>, g: GameView) -> bool {
    &&& g.phase matches PhaseState::Drawing(d)
    &&& evs.len() == 2
    &&& evs[0].audience == Audience::Player(d.drawer)
    &&& evs[0].message matches ServerMessage::SecretWord { turn_id, word } && turn_id == d.turn_id
        && word@ == d.secret_word@
    &&& evs[1].audience == Audience::Everyone
    &&& evs[1].message matches ServerMessage::PhaseChanged(v) && phase_view_ok(v, g)
}

/// The public hint event after one more character of `d`'s word is shown.
pub open spec fn hint_event(evs: Seq<EmittedEvent>, d: DrawingState) -> bool {
    &&& evs.len() == 1
    &&& evs[0].audience == Audience::Everyone
    &&& evs[0].message matches ServerMessage::HintRevealed(h) && h.turn_id == d.turn_id
        && h.masked_word@ == mask(d.word_characters@, reveal_next(d.revealed@))
}

/// Outcome of the drawer picking offered word `choice`.
pub open spec fn pick_done(
    g0: GameView,
    g1: GameView,
    player_id: PlayerId,
    choice: u8,
    now: GameTime,
    r: Result<Seq<EmittedEvent>, RuleError>,
) -> bool {
    match g0.phase {
        PhaseState::ChoosingWord(c) => if c.drawer != player_id {
            r == Err::<Seq<EmittedEvent>, RuleError>(RuleError::DrawerOnly) && g1 == g0
        } else if choice as int >= c.options@.len() {
            r == Err::<Seq<EmittedEvent>, RuleError>(RuleError::InvalidWordChoice) && g1 == g0
        } else {
            &&& g1 == GameView { phase: g1.phase, ..g0 }
            &&& drawing_started(
                g1.phase,
                c.drawer,
                c.turn_id,
                c.options@[choice as int]@,
                now,
                g0.settings.draw_seconds,
            )
            &&& r matches Ok(evs) && secret_events(evs, g1)
        },
        _ => r == Err::<Seq<EmittedEvent>, RuleError>(RuleError::InvalidPhase) && g1 == g0,
    }
}

/// Outcome of a hint deadline.
pub open spec fn hint_done(g0: GameView, g1: GameView, r: Result<Seq<EmittedEvent>, RuleError>) -> bool {
    match g0.phase {
        PhaseState::Drawing(d) => if d.next_hint >= d.hint_deadlines@.len() {
            r == Err::<Seq<EmittedEvent>, RuleError>(RuleError::InvalidPhase) && g1 == g0
        } else {
            &&& g1 == GameView { phase: g1.phase, ..g0 }
            &&& g1.phase matches PhaseState::Drawing(d2) && hint_taken(d, d2)
            &&& r matches Ok(evs) && hint_event(evs, d)
        },
        _ => r == Err::<Seq<EmittedEvent>, RuleError>(RuleError::InvalidPhase) && g1 == g0,
    }
}

/// Position of the first hidden character, or -1.
pub open spec fn first_hidden(s: Seq<bool>) -> int
    decreases s.len(),
{
    if s.len() == 0 {
        -1
    } else {
        let k = first_hidden(s.drop_last());
        if k >= 0 {
            k
        } else if !s.last() {
            s.len() - 1
        } else {
            -1
        }
    }
}

/// The mask with its first hidden character revealed.
pub open spec fn reveal_next(s: Seq<bool>) -> Seq<bool> {
    if first_hidden(s) >= 0 {
        s.update(first_hidden(s), true)
    } else {
        s
    }
}

/// `d2` is `d` after one hint: the next hidden character is shown and the
/// hint schedule advances.
pub open spec fn hint_taken(d: DrawingState, d2: DrawingState) -> bool {
    &&& d2.drawer == d.drawer
    &&& d2.turn_id == d.turn_id
    &&& d2.secret_word == d.secret_word
    &&& d2.word_characters == d.word_characters
    &&& d2.revealed@ == reveal_next(d.revealed@)
    &&& d2.guessed == d.guessed
    &&& d2.guess_awards == d.guess_awards
    &&& d2.guesser_score_total == d.guesser_score_total
    &&& d2.canvas == d.canvas
    &&& d2.deadline == d.deadline
    &&& d2.hint_deadlines == d.hint_deadlines
    &&& d2.next_hint == d.next_hint + 1
}

proof fn lemma_first_hidden(s: Seq<bool>)
    ensures
        -1 <= first_hidden(s) < s.len(),
        first_hidden(s) >= 0 ==> !s[first_hidden(s)],
        forall|j: int| 0 <= j < s.len() && (first_hidden(s) < 0 || j < first_hidden(s)) ==> #[trigger] s[j],
    decreases s.len(),
{
    if s.len() > 0 {
        lemma_first_hidden(s.drop_last());
        assert forall|j: int| 0 <= j < s.len() && (first_hidden(s) < 0 || j < first_hidden(s)) implies #[trigger] s[j] by {
            if j < s.len() - 1 {
                assert(s[j] == s.drop_last()[j]);
            }
        }
        if first_hidden(s.drop_last()) >= 0 {
            assert(s[first_hidden(s)] == s.drop_last()[first_hidden(s)]);
        }
    }
}

/// Points recorded for one guesser.
fn find_award(aw: &Vec<(PlayerId, u32)>, id: PlayerId) -> (r: Option<u32>)
    ensures
        r == award_of(aw@, id),
{
    let mut i: usize = aw.len();
    assert(aw@.take(aw@.len() as int) =~= aw@);
    while i > 0
        invariant
            i <= aw@.len(),
            award_of(aw@, id) == award_of(aw@.take(i as int), id),
        decreases i,
    {
        assert(aw@.take(i as int).drop_last() =~= aw@.take(i - 1));
        if aw[i - 1].0 == id {
            return Some(aw[i - 1].1);
        }
        i = i - 1;
    }
    None
}

/// Hint deadlines for a turn of `draw_seconds` starting at `now`.
fn hint_deadlines(now: GameTime, draw_seconds: u16) -> (r: Vec<GameDeadline>)
    requires
        draw_seconds <= 300,
    ensures
        r@ == hint_schedule(now, draw_seconds),
{
    let mut r: Vec<GameDeadline> = Vec::new();
    let draw = draw_seconds as u64;
    if 60 < draw {
        r.push(GameDeadline::after(now, ((draw - 60) * 1000) as u128));
    }
    if 30 < draw {
        r.push(GameDeadline::after(now, ((draw - 30) * 1000) as u128));
    }
    if 10 < draw {
        r.push(GameDeadline::after(now, ((draw - 10) * 1000) as u128));
    }
    assert(r@ =~= hint_schedule(now, draw_seconds));
    r
}

/// Which characters a fresh mask shows.
fn initial_mask(chars: &Vec<char>) -> (r: Vec<bool>)
    ensures
        r@ == initial_reveal(chars@),
{
    let mut r: Vec<bool> = Vec::new();
    let mut i: usize = 0;
    while i < chars.len()
        invariant
            i <= chars@.len(),
            r@ == initial_reveal(chars@).take(i as int),
        decreases chars.len() - i,
    {
        r.push(!is_alphanumeric(chars[i]));
        i = i + 1;
        assert(r@ =~= initial_reveal(chars@).take(i as int));
    }
    assert(initial_reveal(chars@).take(i as int) =~= initial_reveal(chars@));
    r
}

impl Game {
    /// Identities of the connected players, in roster order.
    pub(crate) fn connected_player_ids(&self) -> (r: Vec<PlayerId>)
        ensures
            r@ == connected_ids(self@.players),
    {
        let mut r: Vec<PlayerId> = Vec::new();
        let mut i: usize = 0;
        while i < self.players.len()
            invariant
                i <= self@.players.len(),
                r@ == connected_ids(self@.players.take(i as int)),
            decreases self.players.len() - i,
        {
            assert(self@.players.take(i + 1).drop_last() =~= self@.players.take(i as int));
            if self.players[i].connected {
                r.push(self.players[i].player_id);
            }
            i = i + 1;
        }
        assert(self@.players.take(i as int) =~= self@.players);
        r
    }

    /// Restarts the rotation with every connected player, in roster order.
    pub(crate) fn refill_drawers(&mut self)
        ensures
            final(self)@ == (GameView {
                remaining_drawers: connected_ids(old(self)@.players),
                ..old(self)@
            }),
            old(self).wf() ==> final(self).wf(),
    {
        self.remaining_drawers = self.connected_player_ids();
    }

    /// Position of the first remaining drawer who is still connected.
    fn first_connected_drawer(&self) -> (r: Option<usize>)
        ensures
            match r {
                Some(k) => k < self@.remaining_drawers.len() && first_connected(
                    self@.remaining_drawers,
                    self@.players,
                ) == k as int,
                None => first_connected(self@.remaining_drawers, self@.players) < 0,
            },
    {
        proof {
            lemma_first_connected(self@.remaining_drawers, self@.players);
        }
        let mut k: usize = 0;
        while k < self.remaining_drawers.len()
            invariant
                k <= self@.remaining_drawers.len(),
                forall|j: int|
                    0 <= j < k ==> !player_connected(self@.players, #[trigger] self@.remaining_drawers[j]),
            decreases self.remaining_drawers.len() - k,
        {
            if self.is_connected(self.remaining_drawers[k]) {
                proof {
                    lemma_first_connected(self@.remaining_drawers, self@.players);
                }
                return Some(k);
            }
            k = k + 1;
        }
        proof {
            lemma_first_connected(self@.remaining_drawers, self@.players);
        }
        None
    }

    /// Starts the next turn, advancing the round when the rotation is spent,
    /// or ends the game after the final round.
    pub(crate) fn begin_next_turn(&mut self, now: GameTime) -> (r: Result<Vec<EmittedEvent>, RuleError>)
        requires
            old(self).wf(),
        ensures
            final(self).wf(),
            next_turn_advanced(old(self)@, final(self)@, seq_result(r), now),
    {
        proof {
            lemma_first_connected(self@.remaining_drawers, self@.players);
            lemma_connected_ids(self@.players);
        }
        let ghost g0 = self@;
        let drawer: PlayerId;
        match self.first_connected_drawer() {
            Some(k) => {
                let len = self.remaining_drawers.len();
                assert(k < len);
                drawer = self.remaining_drawers[k];
                self.remaining_drawers = ids_from(&self.remaining_drawers, k + 1);
            },
            None => {
                if self.round >= self.settings.rounds || self.connected_count() == 0 {
                    self.remaining_drawers = Vec::new();
                    self.phase = PhaseState::GameOver;
                    let v = self.phase_view();
                    let mut events: Vec<EmittedEvent> = Vec::new();
                    events.push(EmittedEvent::everyone(ServerMessage::PhaseChanged(v)));
                    assert(self@ =~= GameView {
                        phase: PhaseState::GameOver,
                        remaining_drawers: Seq::empty(),
                        ..g0
                    });
                    return Ok(events);
                }
                self.round = self.round + 1;
                let ids = self.connected_player_ids();
                drawer = ids[0];
                self.remaining_drawers = ids_from(&ids, 1);
            },
        }
        if self.next_turn_id == u32::MAX {
            return Err(RuleError::TurnIdExhausted);
        }
        let turn_id = TurnId(self.next_turn_id);
        self.next_turn_id = self.next_turn_id + 1;
        proof {
            self.words.lemma_cycle_has_no_repeats();
        }
        let options = self.words.offer(self.settings.word_choices as usize);
        let event_words = copy_strings(&options);
        self.phase = PhaseState::ChoosingWord(
            ChoosingWordState {
                drawer,
                turn_id,
                options,
                deadline: GameDeadline::after(now, WORD_CHOICE_DURATION),
            },
        );
        let v = self.phase_view();
        let mut events: Vec<EmittedEvent> = Vec::new();
        events.push(EmittedEvent::everyone(ServerMessage::PhaseChanged(v)));
        events.push(
            EmittedEvent::player(drawer, ServerMessage::WordOptions(WordOptions { turn_id, words: event_words })),
        );
        Ok(events)
    }

    /// Replaces one player's score.
    pub(crate) fn set_score(&mut self, i: usize, score: u32)
        requires
            i < old(self)@.players.len(),
        ensures
            final(self)@ == (GameView {
                players: old(self)@.players.update(
                    i as int,
                    PlayerState { score, ..old(self)@.players[i as int] },
                ),
                ..old(self)@
            }),
            old(self).wf() ==> final(self).wf(),
    {
        let mut p = self.players.remove(i);
        p.score = score;
        self.players.insert(i, p);
        assert(self@.players =~= old(self)@.players.update(
            i as int,
            PlayerState { score, ..old(self)@.players[i as int] },
        ));
        assert forall|j: int| 0 <= j < self@.players.len() implies (#[trigger] self@.players[j]).player_id
            == old(self)@.players[j].player_id && self@.players[j].profile == old(self)@.players[j].profile by {}
        proof {
            if old(self).wf() {
                if let Some(h) = self@.host {
                    super::lemma_find_same_ids(self@.players, old(self)@.players, h);
                }
                assert(game_wf(self@));
            }
        }
    }

    /// The drawer picks one offered word and the drawing turn starts.
    pub(crate) fn pick_word(&mut self, player_id: PlayerId, choice: u8, now: GameTime) -> (r: Result<
        Vec<EmittedEvent>,
        RuleError,
    >)
        requires
            old(self).wf(),
        ensures
            final(self).wf(),
            pick_done(old(self)@, final(self)@, player_id, choice, now, seq_result(r)),
    {
        let (drawer, turn_id, selected) = match &self.phase {
            PhaseState::ChoosingWord(state) => {
                if state.drawer != player_id {
                    return Err(RuleError::DrawerOnly);
                }
                if choice as usize >= state.options.len() {
                    return Err(RuleError::InvalidWordChoice);
                }
                (state.drawer, state.turn_id, state.options[choice as usize].clone())
            },
            _ => {
                return Err(RuleError::InvalidPhase);
            },
        };
        let draw = self.settings.draw_seconds;
        let deadline = GameDeadline::after(now, (draw as u64 * 1000) as u128);
        let word_characters = chars_of(selected.as_str());
        let revealed = initial_mask(&word_characters);
        let hints = hint_deadlines(now, draw);
        let word = selected.clone();
        self.phase = PhaseState::Drawing(
            DrawingState {
                drawer,
                turn_id,
                secret_word: selected,
                word_characters,
                revealed,
                guessed: Vec::new(),
                guess_awards: Vec::new(),
                guesser_score_total: 0,
                canvas: CanvasState::new(),
                deadline,
                hint_deadlines: hints,
                next_hint: 0,
            },
        );
        let v = self.phase_view();
        let mut events: Vec<EmittedEvent> = Vec::new();
        events.push(EmittedEvent::player(drawer, ServerMessage::SecretWord { turn_id, word }));
        events.push(EmittedEvent::everyone(ServerMessage::PhaseChanged(v)));
        Ok(events)
    }

    /// Ends the drawing turn: pays the drawer bonus, records awards in roster
    /// order, and shows the result.
    pub(crate) fn finish_turn(&mut self, now: GameTime) -> (r: Result<Vec<EmittedEvent>, RuleError>)
        requires
            old(self).wf(),
        ensures
            final(self).wf(),
            match old(self)@.phase {
                PhaseState::Drawing(d) => r matches Ok(evs) && turn_finished(
                    old(self)@,
                    d,
                    final(self)@,
                    evs@,
                    now,
                ),
                _ => r == Err::<Vec<EmittedEvent>, RuleError>(RuleError::InvalidPhase) && final(self)@ == old(self)@,
            },
    {
        match &self.phase {
            PhaseState::Drawing(_) => {},
            _ => {
                return Err(RuleError::InvalidPhase);
            },
        }
        let ghost g0 = self@;
        let mut taken = PhaseState::GameOver;
        std::mem::swap(&mut taken, &mut self.phase);
        let mut drawing = match taken {
            PhaseState::Drawing(d) => d,
            _ => {
                proof {
                    assert(false);
                }
                return Err(RuleError::InvalidPhase);
            },
        };
        let ghost d0 = drawing;
        drawing.canvas.finalize_active();
        let bonus = drawing.guesser_score_total / 4;

        let mut awards: Vec<TurnAward> = Vec::new();
        let mut i: usize = 0;
        while i < self.players.len()
            invariant
                i <= self@.players.len(),
                self@.players == g0.players,
                awards@ == turn_awards(g0.players.take(i as int), d0.guess_awards@, d0.drawer, bonus),
                bonus == d0.guesser_score_total / 4,
                drawing.guess_awards == d0.guess_awards,
                drawing.drawer == d0.drawer,
            decreases self.players.len() - i,
        {
            assert(g0.players.take(i + 1).drop_last() =~= g0.players.take(i as int));
            let id = self.players[i].player_id;
            match find_award(&drawing.guess_awards, id) {
                Some(points) => {
                    awards.push(TurnAward { player_id: id, points, reason: AwardReason::CorrectGuess });
                },
                None => {
                    if id == drawing.drawer && bonus > 0 {
                        awards.push(
                            TurnAward { player_id: id, points: bonus, reason: AwardReason::DrawerBonus },
                        );
                    }
                },
            }
            i = i + 1;
        }
        assert(g0.players.take(i as int) =~= g0.players);

        let mut events: Vec<EmittedEvent> = Vec::new();
        if bonus > 0 {
            match self.index_of(drawing.drawer) {
                Some(k) => {
                    let score = self.players[k].score.saturating_add(bonus);
                    self.set_score(k, score);
                    let delta = positive_score_delta(bonus);
                    events.push(
                        EmittedEvent::everyone(
                            ServerMessage::ScoreChanged(
                                crate::model::ScoreView { player_id: drawing.drawer, total_score: score, delta },
                            ),
                        ),
                    );
                },
                None => {},
            }
        }
        let result = TurnResultView {
            turn_id: drawing.turn_id,
            word: drawing.secret_word.clone(),
            awards: copy_awards(&awards),
        };
        self.phase = PhaseState::RoundEnd(
            RoundEndState {
                drawer: drawing.drawer,
                turn_id: drawing.turn_id,
                secret_word: drawing.secret_word,
                canvas: drawing.canvas,
                awards,
                votes: Vec::new(),
                deadline: GameDeadline::after(now, ROUND_END_DURATION),
            },
        );
        events.push(EmittedEvent::everyone(ServerMessage::TurnResult(result)));
        let v = self.phase_view();
        events.push(EmittedEvent::everyone(ServerMessage::PhaseChanged(v)));
        Ok(events)
    }

    /// Reveals one more character of the word at a hint deadline.
    pub(crate) fn reveal_hint(&mut self) -> (r: Result<Vec<EmittedEvent>, RuleError>)
        requires
            old(self).wf(),
        ensures
            final(self).wf(),
            hint_done(old(self)@, final(self)@, seq_result(r)),
    {
        let (turn_id, masked) = match &mut self.phase {
            PhaseState::Drawing(state) => {
                if state.next_hint >= state.hint_deadlines.len() {
                    return Err(RuleError::InvalidPhase);
                }
                state.next_hint = state.next_hint + 1;
                proof {
                    lemma_first_hidden(state.revealed@);
                }
                let mut k: usize = 0;
                while k < state.revealed.len() && state.revealed[k]
                    invariant
                        k <= state.revealed@.len(),
                        forall|j: int| 0 <= j < k ==> #[trigger] state.revealed@[j],
                    decreases state.revealed.len() - k,
                {
                    k = k + 1;
                }
                proof {
                    lemma_first_hidden(state.revealed@);
                }
                if k < state.revealed.len() {
                    state.revealed.set(k, true);
                }
                (state.turn_id, super::views::masked_word(state))
            },
            _ => {
                return Err(RuleError::InvalidPhase);
            },
        };
        let mut events: Vec<EmittedEvent> = Vec::new();
        events.push(
            EmittedEvent::everyone(ServerMessage::HintRevealed(HintView { turn_id, masked_word: masked })),
        );
        Ok(events)
    }

    /// Whether every eligible guesser has guessed the word.
    pub(crate) fn all_active_guessers_correct(&self) -> (r: bool)
        ensures
            r == turn_complete(self@),
    {
        let state = match &self.phase {
            PhaseState::Drawing(state) => state,
            _ => {
                return false;
            },
        };
        let mut any = false;
        let mut i: usize = 0;
        while i < self.players.len()
            invariant
                i <= self@.players.len(),
                self@.phase matches PhaseState::Drawing(d) && d == *state,
                any == exists|j: int|
                    0 <= j < i && (#[trigger] self@.players[j]).player_id != state.drawer
                        && self@.players[j].connected,
                forall|j: int|
                    0 <= j < i && (#[trigger] self@.players[j]).player_id != state.drawer
                        && self@.players[j].connected ==> state.guessed@.contains(self@.players[j].player_id),
            decreases self.players.len() - i,
        {
            let p = &self.players[i];
            if p.player_id != state.drawer && p.connected {
                if !super::views::contains_id(&state.guessed, p.player_id) {
                    return false;
                }
                any = true;
            }
            i = i + 1;
        }
        any
    }
}

} // verus!
