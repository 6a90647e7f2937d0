//! Properties that hold across the game's operations: what a departure, the
//! clock, and each kind of action do to the roster and the scores, and who
//! is ever told the words in play.

use vstd::prelude::*;

use crate::failure::RuleError;
use crate::game::actions::{
    apply_done, correct_prefix, deadline_done, guess_players, guess_points, guess_total, reset_events,
    reset_scores,
};
use crate::game::command::PlayerAction;
use crate::game::event::EmittedEvent;
use crate::game::roster::{
    after_departure, after_kick, after_prefix, departure_prefix, disconnect_done, kick_refusal,
    starts_with, turn_follow_up,
};
use crate::game::state::{DrawingState, PhaseState, PlayerState};
use crate::game::turns::{next_turn_advanced, turn_complete, turn_finished, with_bonus};
use crate::game::{find_player, lemma_find_player, GameView};
use crate::ids::PlayerId;
use crate::model::ServerMessage;
use crate::time::GameTime;
use crate::words::{deal, lemma_cycle_offers_disjoint, pool_ok, texts, words_at};
use crate::guess::normalized;

verus! {

/// Every player of `ps0` is still present at the same place in `ps1`, with at
/// least the same score, and nobody else is.
pub open spec fn roster_kept(ps0: Seq<PlayerState>, ps1: Seq<PlayerState>) -> bool {
    &&& ps1.len() == ps0.len()
    &&& forall|i: int|
        0 <= i < ps0.len() ==> (#[trigger] ps1[i]).player_id == ps0[i].player_id && ps1[i].score >= ps0[i].score
}

/// A departure marks the player away without deleting anyone or lowering any
/// score.
pub proof fn lemma_departure_keeps_roster(
    g0: GameView,
    g1: GameView,
    id: PlayerId,
    now: GameTime,
    r: Result<Seq<EmittedEvent>, RuleError>,
)
    requires
        disconnect_done(g0, g1, id, now, r),
    ensures
        roster_kept(g0.players, g1.players),
{
    lemma_find_player(g0.players, id);
    let i = find_player(g0.players, id);
    if i >= 0 && g0.players[i].connected {
        let restart = g0.phase matches PhaseState::ChoosingWord(c) && c.drawer == id;
        let gm = choose|gm: GameView|
            after_departure(g0, id, gm) && turn_follow_up(gm, g1, departure_prefix(g0, id, gm), r, restart, now);
        assert(roster_kept(g0.players, gm.players));
        lemma_follow_up_keeps_roster(gm, g1, departure_prefix(g0, id, gm), r, restart, now);
    }
}

/// When the clock fires a deadline, nobody is deleted and no score drops.
pub proof fn lemma_deadline_keeps_roster(
    g0: GameView,
    g1: GameView,
    now: GameTime,
    r: Result<Seq<EmittedEvent>, RuleError>,
)
    requires
        deadline_done(g0, g1, now, r),
    ensures
        roster_kept(g0.players, g1.players),
{
    if g0.phase is Drawing {
        let d = g0.phase->Drawing_0;
        lemma_bonus_keeps_roster(g0.players, d.drawer, (d.guesser_score_total / 4) as u32);
    }
}

/// Apart from removing a player and restarting a finished game, no action
/// deletes anyone or lowers a score.
pub proof fn lemma_action_keeps_roster(
    g0: GameView,
    g1: GameView,
    id: PlayerId,
    action: PlayerAction,
    now: GameTime,
    r: Result<Seq<EmittedEvent>, RuleError>,
)
    requires
        apply_done(g0, g1, id, action, now, r),
        !(action is KickPlayer),
        !(action is Rematch),
    ensures
        roster_kept(g0.players, g1.players),
{
    if action is Guess && g0.phase is Drawing {
        let d = g0.phase->Drawing_0;
        let points = guess_points(g0, d, now);
        let prefix = correct_prefix(id, points, guess_total(g0, id, points));
        lemma_find_player(g0.players, id);
        if exists|gm: GameView| #![trigger turn_follow_up(gm, g1, prefix, r, false, now)]
            gm == (GameView { players: guess_players(g0, id, points), phase: gm.phase, ..g0 })
                && turn_follow_up(gm, g1, prefix, r, false, now)
        {
            let gm = choose|gm: GameView| #![trigger turn_follow_up(gm, g1, prefix, r, false, now)]
                gm == (GameView { players: guess_players(g0, id, points), phase: gm.phase, ..g0 })
                    && turn_follow_up(gm, g1, prefix, r, false, now);
            assert(roster_kept(g0.players, gm.players));
            lemma_follow_up_keeps_roster(gm, g1, prefix, r, false, now);
        }
    }
}

/// Removing a player deletes exactly that player: everyone else keeps their
/// place and never loses points.
pub proof fn lemma_kick_removes_only_the_target(
    g0: GameView,
    g1: GameView,
    id: PlayerId,
    target: PlayerId,
    now: GameTime,
    r: Result<Seq<EmittedEvent>, RuleError>,
)
    requires
        apply_done(g0, g1, id, PlayerAction::KickPlayer { player_id: target }, now, r),
        r is Ok,
    ensures
        find_player(g0.players, target) >= 0,
        roster_kept(g0.players.remove(find_player(g0.players, target)), g1.players),
{
    lemma_find_player(g0.players, id);
    lemma_find_player(g0.players, target);
    assert(kick_refusal(g0, id, target) is None);
    let prefix = seq![
        EmittedEvent {
            audience: crate::game::event::Audience::Everyone,
            message: crate::model::ServerMessage::PlayerLeft { player_id: target },
        },
    ];
    let gm = choose|gm: GameView| after_kick(g0, target, gm) && turn_follow_up(gm, g1, prefix, r, false, now);
    lemma_follow_up_keeps_roster(gm, g1, prefix, r, false, now);
}

/// Restarting a finished game resets every score to zero and keeps the
/// roster.
pub proof fn lemma_rematch_resets_scores(
    g0: GameView,
    g1: GameView,
    id: PlayerId,
    now: GameTime,
    r: Result<Seq<EmittedEvent>, RuleError>,
)
    requires
        apply_done(g0, g1, id, PlayerAction::Rematch, now, r),
        r is Ok,
    ensures
        g1.players == reset_scores(g0.players),
{
}

/// The turn change that may follow a roster change keeps the roster and
/// never lowers a score.
pub proof fn lemma_follow_up_keeps_roster(
    g1: GameView,
    g2: GameView,
    prefix: Seq<EmittedEvent>,
    r: Result<Seq<EmittedEvent>, RuleError>,
    restart: bool,
    now: GameTime,
)
    requires
        turn_follow_up(g1, g2, prefix, r, restart, now),
    ensures
        roster_kept(g1.players, g2.players),
{
    if !restart && turn_complete(g1) {
        let d = g1.phase->Drawing_0;
        lemma_bonus_keeps_roster(g1.players, d.drawer, (d.guesser_score_total / 4) as u32);
    }
}

/// Paying the drawer's bonus keeps the roster and never lowers a score.
pub proof fn lemma_bonus_keeps_roster(ps: Seq<PlayerState>, drawer: PlayerId, bonus: u32)
    ensures
        roster_kept(ps, with_bonus(ps, drawer, bonus)),
{
    lemma_find_player(ps, drawer);
}

/// Whether a message reveals a word while it is in play: the words offered
/// to the drawer, or the word being drawn.
pub open spec fn reveals_word(m: ServerMessage) -> bool {
    m is WordOptions || m is SecretWord
}

/// Every event that reveals a word in play is addressed to one player.
pub open spec fn words_private(evs: Seq<EmittedEvent>) -> bool {
    forall|i: int| 0 <= i < evs.len() && reveals_word(#[trigger] evs[i].message) ==> evs[i].audience is Player
}

/// Events joined together keep words private when each part does.
proof fn lemma_private_parts(evs: Seq<EmittedEvent>, n: int)
    requires
        0 <= n <= evs.len(),
        words_private(evs.take(n)),
        words_private(evs.skip(n)),
    ensures
        words_private(evs),
{
    assert forall|i: int| 0 <= i < evs.len() && reveals_word(#[trigger] evs[i].message) implies evs[i].audience is Player by {
        if i < n {
            assert(evs.take(n)[i] == evs[i]);
        } else {
            assert(evs.skip(n)[i - n] == evs[i]);
        }
    }
}

/// A new turn offers its words to the drawer alone.
pub proof fn lemma_turn_start_private(
    g0: GameView,
    g1: GameView,
    r: Result<Seq<EmittedEvent>, RuleError>,
    now: GameTime,
)
    requires
        next_turn_advanced(g0, g1, r, now),
    ensures
        r matches Ok(evs) ==> words_private(evs),
{
}

/// The end of a turn reveals no word in play.
pub proof fn lemma_turn_end_private(
    g0: GameView,
    d: DrawingState,
    g1: GameView,
    evs: Seq<EmittedEvent>,
    now: GameTime,
)
    requires
        turn_finished(g0, d, g1, evs, now),
    ensures
        words_private(evs),
{
}

/// The turn change after a roster change keeps words private.
pub proof fn lemma_follow_up_private(
    g1: GameView,
    g2: GameView,
    prefix: Seq<EmittedEvent>,
    r: Result<Seq<EmittedEvent>, RuleError>,
    restart: bool,
    now: GameTime,
)
    requires
        turn_follow_up(g1, g2, prefix, r, restart, now),
        words_private(prefix),
    ensures
        r matches Ok(evs) ==> words_private(evs),
{
    if r is Ok {
        let evs = r->Ok_0;
        let n = prefix.len() as int;
        if restart {
            lemma_turn_start_private(g1, g2, after_prefix(prefix, r), now);
            assert(evs.take(n) == prefix);
            lemma_private_parts(evs, n);
        } else if turn_complete(g1) {
            let d = g1.phase->Drawing_0;
            lemma_turn_end_private(g1, d, g2, evs.skip(n), now);
            assert(evs.take(n) == prefix);
            lemma_private_parts(evs, n);
        }
    }
}

/// Announcing reset scores reveals no word.
proof fn lemma_reset_events_private(ps: Seq<PlayerState>)
    ensures
        words_private(reset_events(ps)),
    decreases ps.len(),
{
    if ps.len() > 0 {
        lemma_reset_events_private(ps.drop_last());
    }
}

/// Whatever action the game accepts, the words offered to the drawer and the
/// word being drawn are only ever sent to a single player.
pub proof fn lemma_action_keeps_words_private(
    g0: GameView,
    g1: GameView,
    id: PlayerId,
    action: PlayerAction,
    now: GameTime,
    r: Result<Seq<EmittedEvent>, RuleError>,
)
    requires
        apply_done(g0, g1, id, action, now, r),
    ensures
        r matches Ok(evs) ==> words_private(evs),
{
    lemma_find_player(g0.players, id);
    match action {
        PlayerAction::StartGame => {
            let gs = GameView { round: 1, remaining_drawers: crate::game::connected_ids(g0.players), ..g0 };
            if next_turn_advanced(gs, g1, r, now) {
                lemma_turn_start_private(gs, g1, r, now);
            }
        },
        PlayerAction::Guess { text } => {
            if g0.phase is Drawing {
                let d = g0.phase->Drawing_0;
                let points = guess_points(g0, d, now);
                let prefix = correct_prefix(id, points, guess_total(g0, id, points));
                if exists|gm: GameView| #![trigger turn_follow_up(gm, g1, prefix, r, false, now)]
                    gm == (GameView { players: guess_players(g0, id, points), phase: gm.phase, ..g0 })
                        && turn_follow_up(gm, g1, prefix, r, false, now)
                {
                    let gm = choose|gm: GameView| #![trigger turn_follow_up(gm, g1, prefix, r, false, now)]
                        gm == (GameView { players: guess_players(g0, id, points), phase: gm.phase, ..g0 })
                            && turn_follow_up(gm, g1, prefix, r, false, now);
                    lemma_follow_up_private(gm, g1, prefix, r, false, now);
                }
            }
        },
        PlayerAction::KickPlayer { player_id: target } => {
            let prefix = seq![
                EmittedEvent {
                    audience: crate::game::event::Audience::Everyone,
                    message: ServerMessage::PlayerLeft { player_id: target },
                },
            ];
            if exists|gm: GameView| after_kick(g0, target, gm) && turn_follow_up(gm, g1, prefix, r, false, now) {
                let gm = choose|gm: GameView|
                    after_kick(g0, target, gm) && turn_follow_up(gm, g1, prefix, r, false, now);
                lemma_follow_up_private(gm, g1, prefix, r, false, now);
            }
        },
        PlayerAction::Rematch => {
            let prefix = reset_events(g0.players);
            let gs = GameView {
                players: reset_scores(g0.players),
                round: 1,
                remaining_drawers: crate::game::connected_ids(g0.players),
                ..g0
            };
            lemma_reset_events_private(g0.players);
            if r is Ok && starts_with(prefix, r) && next_turn_advanced(gs, g1, after_prefix(prefix, r), now) {
                lemma_turn_start_private(gs, g1, after_prefix(prefix, r), now);
                let evs = r->Ok_0;
                assert(evs.take(prefix.len() as int) == prefix);
                lemma_private_parts(evs, prefix.len() as int);
            }
        },
        _ => {},
    }
}

/// When the clock fires a deadline, the words in play go to one player only.
pub proof fn lemma_deadline_keeps_words_private(
    g0: GameView,
    g1: GameView,
    now: GameTime,
    r: Result<Seq<EmittedEvent>, RuleError>,
)
    requires
        deadline_done(g0, g1, now, r),
    ensures
        r matches Ok(evs) ==> words_private(evs),
{
    if g0.phase is Drawing {
        let d = g0.phase->Drawing_0;
        if r is Ok && now.0 >= d.deadline.0 {
            lemma_turn_end_private(g0, d, g1, r->Ok_0, now);
        }
    } else if next_turn_advanced(g0, g1, r, now) {
        lemma_turn_start_private(g0, g1, r, now);
    }
}

/// When a player leaves, the words in play go to one player only.
pub proof fn lemma_departure_keeps_words_private(
    g0: GameView,
    g1: GameView,
    id: PlayerId,
    now: GameTime,
    r: Result<Seq<EmittedEvent>, RuleError>,
)
    requires
        disconnect_done(g0, g1, id, now, r),
    ensures
        r matches Ok(evs) ==> words_private(evs),
{
    lemma_find_player(g0.players, id);
    let i = find_player(g0.players, id);
    if i >= 0 && g0.players[i].connected {
        let restart = g0.phase matches PhaseState::ChoosingWord(c) && c.drawer == id;
        let gm = choose|gm: GameView|
            after_departure(g0, id, gm) && turn_follow_up(gm, g1, departure_prefix(g0, id, gm), r, restart, now);
        lemma_follow_up_private(gm, g1, departure_prefix(g0, id, gm), r, restart, now);
    }
}

/// Two turns started one after the other within one deck cycle offer no
/// word twice: when the second turn starts from the deck the first left, and
/// the cycle still held both offers, no word of the first offer is in the
/// second.
pub proof fn lemma_consecutive_offers_share_no_word(
    g0: GameView,
    g1: GameView,
    g2: GameView,
    g3: GameView,
    r1: Result<Seq<EmittedEvent>, RuleError>,
    r2: Result<Seq<EmittedEvent>, RuleError>,
    now1: GameTime,
    now2: GameTime,
)
    requires
        pool_ok(g0.pool),
        g0.deck_upcoming.no_duplicates(),
        forall|i: int| 0 <= i < g0.deck_upcoming.len() ==> #[trigger] g0.deck_upcoming[i] < g0.pool.len(),
        next_turn_advanced(g0, g1, r1, now1),
        r1 is Ok,
        g1.phase is ChoosingWord,
        g2.pool == g1.pool,
        g2.settings == g1.settings,
        g2.deck_upcoming == g1.deck_upcoming,
        g2.deck_seed == g1.deck_seed,
        g2.deck_shuffles == g1.deck_shuffles,
        next_turn_advanced(g2, g3, r2, now2),
        r2 is Ok,
        g3.phase is ChoosingWord,
        2 * g0.settings.word_choices <= g0.deck_upcoming.len(),
    ensures
        forall|i: int, j: int|
            0 <= i < g1.phase->ChoosingWord_0.options@.len() && 0 <= j
                < g3.phase->ChoosingWord_0.options@.len() ==> #[trigger] g1.phase->ChoosingWord_0.options@[i]@
                != #[trigger] g3.phase->ChoosingWord_0.options@[j]@,
{
    let k = g0.settings.word_choices as nat;
    let n = g0.pool.len();
    let d1 = deal(n, g0.deck_upcoming, g0.deck_seed, g0.deck_shuffles, k);
    let d2 = deal(n, d1.1, g0.deck_seed, d1.2, k);
    lemma_cycle_offers_disjoint(n, g0.deck_upcoming, g0.deck_seed, g0.deck_shuffles, k, k);
    let o1 = g1.phase->ChoosingWord_0.options@;
    let o3 = g3.phase->ChoosingWord_0.options@;
    assert(texts(o1) == words_at(g0.pool, d1.0));
    assert(texts(o3) == words_at(g0.pool, d2.0));
    let both = d1.0 + d2.0;
    assert forall|i: int, j: int| 0 <= i < o1.len() && 0 <= j < o3.len() implies #[trigger] o1[i]@
        != #[trigger] o3[j]@ by {
        assert(texts(o1)[i] == o1[i]@);
        assert(texts(o3)[j] == o3[j]@);
        assert(both[i] == d1.0[i]);
        assert(both[k + j] == d2.0[j]);
        assert(both[i] != both[k + j]);
        assert(d1.0[i] == g0.deck_upcoming[i]);
        assert(d2.0[j] == g0.deck_upcoming[k + j]);
        assert(normalized(g0.pool[d1.0[i] as int]) != normalized(g0.pool[d2.0[j] as int]));
    }
}

/// The points of a correct guess weigh the time left against the whole
/// turn, whose length is `draw_seconds * 1000` ms: they are the nearest
/// integer to `500 * left / turn` (halves rounded up), kept within
/// `50..=500`. So a guess at the very start earns 500, a guess at the
/// midpoint earns 250, and once more than a thousandth of the turn has gone
/// the points are below 500.
pub proof fn lemma_guess_points_over_whole_turn(g: GameView, d: DrawingState, now: GameTime)
    requires
        g.settings.draw_seconds >= 1,
        (if d.deadline.0 >= now.0 {
            d.deadline.0 - now.0
        } else {
            0
        }) <= g.settings.draw_seconds * 1000,
    ensures
        ({
            let turn: int = g.settings.draw_seconds * 1000;
            let left: int = if d.deadline.0 >= now.0 {
                d.deadline.0 - now.0
            } else {
                0
            };
            let p: int = guess_points(g, d, now) as int;
            &&& 50 <= p <= 500
            &&& p > 50 ==> p * turn <= 500 * left + turn / 2
            &&& p < 500 ==> 500 * left + turn / 2 < (p + 1) * turn
            &&& left == turn ==> p == 500
            &&& 2 * left == turn ==> p == 250
            &&& 1000 * (turn - left) > turn ==> p < 500
        }),
{
    let turn: int = g.settings.draw_seconds * 1000;
    let left: int = if d.deadline.0 >= now.0 {
        d.deadline.0 - now.0
    } else {
        0
    };
    let p: int = guess_points(g, d, now) as int;
    assert(1000 <= turn <= 65535000);
    assert(500 * left <= 500 * 65535000) by (nonlinear_arith)
        requires
            0 <= left <= 65535000,
    ;
    let num: int = 500 * left + turn / 2;
    let q: int = num / turn;
    vstd::arithmetic::div_mod::lemma_fundamental_div_mod(num, turn);
    vstd::arithmetic::div_mod::lemma_mod_pos_bound(num, turn);
    assert(q * turn <= num < (q + 1) * turn) by (nonlinear_arith)
        requires
            num == turn * q + num % turn,
            0 <= num % turn < turn,
    ;
    assert(p == (if q < 50 {
        50
    } else if q > 500 {
        500
    } else {
        q
    }));
    assert(p > 50 ==> p * turn <= num) by {
        if q > 500 {
            assert(500 * turn <= q * turn) by (nonlinear_arith)
                requires
                    q > 500,
                    turn >= 0,
            ;
        }
    }
    assert(p < 500 ==> num < (p + 1) * turn) by {
        if q < 50 {
            assert((q + 1) * turn <= 51 * turn) by (nonlinear_arith)
                requires
                    q + 1 <= 51,
                    turn >= 0,
            ;
        }
    }
    if left == turn {
        assert(p == 500) by (nonlinear_arith)
            requires
                50 <= p <= 500,
                p < 500 ==> num < (p + 1) * turn,
                num >= 500 * turn,
                turn >= 1,
        ;
    }
    if 2 * left == turn {
        assert(p == 250) by (nonlinear_arith)
            requires
                50 <= p <= 500,
                p > 50 ==> p * turn <= num,
                p < 500 ==> num < (p + 1) * turn,
                num == 250 * turn + left,
                2 * left == turn,
                turn >= 1,
        ;
    }
    if 1000 * (turn - left) > turn {
        assert(p < 500) by (nonlinear_arith)
            requires
                p <= 500,
                p > 50 ==> p * turn <= num,
                num <= 500 * left + turn / 2,
                2 * (turn / 2) <= turn,
                1000 * (turn - left) > turn,
                turn >= 1,
        ;
    }
}

} // verus!
