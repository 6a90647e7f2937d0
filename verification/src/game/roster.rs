//! Joining, reconnecting, leaving, and removing players.

use vstd::prelude::*;

use super::event::{Audience, EmittedEvent};
use super::state::{PhaseState, PlayerState};
use super::turns::{next_turn_advanced, turn_complete, turn_finished};
use super::views::player_view_ok;
use super::{
    find_player, game_wf, has_player, ids_unique, lemma_without_id, without_id, lemma_connected_ids, lemma_find_player,
    lemma_find_same_ids, lemma_find_unique, connected_ids, oldest_connected, seq_result, Game,
    GameView,
};
use crate::canvas::{snapshot_of, CanvasModel};
use crate::failure::{JoinError, RuleError};
use crate::ids::PlayerId;
use crate::model::{PlayerProfile, ServerMessage};
use crate::time::{sat_add, GameTime};
use crate::validate::{check_profile, Validate};

verus! {

/// Why a new player cannot join, if they cannot.
pub open spec fn join_refusal(g: GameView, profile: PlayerProfile) -> Option<JoinError> {
    match check_profile(profile) {
        Err(e) => Some(JoinError::InvalidProfile(e)),
        Ok(_) => if !(g.phase is Lobby) {
            Some(JoinError::GameAlreadyStarted)
        } else if g.players.len() >= g.settings.max_players {
            Some(JoinError::RoomFull)
        } else if g.next_player_id == u32::MAX {
            Some(JoinError::PlayerIdExhausted)
        } else {
            None
        },
    }
}

/// The record of a newly joined player.
pub open spec fn joined_player(g: GameView, profile: PlayerProfile) -> PlayerState {
    PlayerState {
        player_id: PlayerId(g.next_player_id),
        profile,
        score: 0,
        connected: true,
        joined_order: g.next_joined_order,
    }
}

/// Events announcing a (re)joined player to everyone else: the host change
/// if this player became host, then the player's public view.
pub open spec fn join_events(evs: Seq<EmittedEvent>, p: PlayerState, became_host: bool, g: GameView) -> bool {
    let base: int = if became_host {
        1
    } else {
        0
    };
    &&& evs.len() == base + 1
    &&& became_host ==> evs[0] == (EmittedEvent {
        audience: Audience::EveryoneExcept(p.player_id),
        message: ServerMessage::HostChanged { player_id: p.player_id },
    })
    &&& evs[base].audience == Audience::EveryoneExcept(p.player_id)
    &&& evs[base].message matches ServerMessage::PlayerJoined(v) && player_view_ok(v, p, g)
}

/// The roster with one player's connection flag replaced.
pub open spec fn with_connection(ps: Seq<PlayerState>, i: int, connected: bool) -> Seq<PlayerState> {
    ps.update(i, PlayerState { connected, ..ps[i] })
}

/// The game right after a player's connection drops, before any turn
/// change: the player is marked away, an interrupted stroke of theirs is
/// finished, and host authority passes to the earliest connected player.
pub open spec fn after_departure(g: GameView, id: PlayerId, g1: GameView) -> bool {
    let i = find_player(g.players, id);
    let ps = with_connection(g.players, i, false);
    &&& g1.players == ps
    &&& g1.host == (if g.host == Some(id) {
        oldest_connected(ps)
    } else {
        g.host
    })
    &&& match g.phase {
        PhaseState::Drawing(d) => if d.drawer == id {
            g1.phase matches PhaseState::Drawing(d1) && d1.canvas@ == (CanvasModel {
                actions: snapshot_of(d.canvas@),
                active: None,
                used: d.canvas@.used,
            }) && d1.drawer == d.drawer && d1.turn_id == d.turn_id && d1.secret_word
                == d.secret_word && d1.word_characters == d.word_characters && d1.revealed
                == d.revealed && d1.guessed == d.guessed && d1.guess_awards == d.guess_awards
                && d1.guesser_score_total == d.guesser_score_total && d1.deadline == d.deadline
                && d1.hint_deadlines == d.hint_deadlines && d1.next_hint == d.next_hint
        } else {
            g1.phase == g.phase
        },
        _ => g1.phase == g.phase,
    }
    &&& g1 == GameView { players: g1.players, host: g1.host, phase: g1.phase, ..g }
}

/// Events announcing a departure: the player left, then the new host if
/// authority moved to someone.
pub open spec fn departure_prefix(g: GameView, id: PlayerId, g1: GameView) -> Seq<EmittedEvent> {
    let left = EmittedEvent {
        audience: Audience::Everyone,
        message: ServerMessage::PlayerLeft { player_id: id },
    };
    if g.host == Some(id) && g1.host is Some {
        seq![
            left,
            EmittedEvent {
                audience: Audience::Everyone,
                message: ServerMessage::HostChanged { player_id: g1.host->0 },
            },
        ]
    } else {
        seq![left]
    }
}

/// Outcome of the host removing `target`.
pub open spec fn kick_done(
    g0: GameView,
    g1: GameView,
    actor: PlayerId,
    target: PlayerId,
    now: GameTime,
    r: Result<Seq<EmittedEvent>, RuleError>,
) -> bool {
    match kick_refusal(g0, actor, target) {
        Some(e) => r == Err::<Seq<EmittedEvent>, RuleError>(e) && g1 == g0,
        None => exists|gm: GameView|
            after_kick(g0, target, gm) && turn_follow_up(
                gm,
                g1,
                seq![
                    EmittedEvent {
                        audience: Audience::Everyone,
                        message: ServerMessage::PlayerLeft { player_id: target },
                    },
                ],
                r,
                false,
                now,
            ),
    }
}

/// Number of announcement events of a departure.
pub open spec fn g1_prefix_len(g: GameView, id: PlayerId, g1: GameView) -> int {
    departure_prefix(g, id, g1).len() as int
}

/// Identities other than `id`, in order.
fn ids_without(v: &Vec<PlayerId>, id: PlayerId) -> (r: Vec<PlayerId>)
    ensures
        r@ == without_id(v@, id),
{
    let mut r: Vec<PlayerId> = Vec::new();
    let mut i: usize = 0;
    while i < v.len()
        invariant
            i <= v@.len(),
            r@ == without_id(v@.take(i as int), id),
        decreases v.len() - i,
    {
        assert(v@.take(i + 1).drop_last() =~= v@.take(i as int));
        reveal(Seq::filter);
        if v[i] != id {
            r.push(v[i]);
        }
        i = i + 1;
    }
    assert(v@.take(i as int) =~= v@);
    r
}

/// Why the host cannot remove a player, if they cannot.
pub open spec fn kick_refusal(g: GameView, actor: PlayerId, target: PlayerId) -> Option<RuleError> {
    if g.host != Some(actor) {
        Some(RuleError::HostOnly)
    } else if actor == target {
        Some(RuleError::CannotKickSelf)
    } else if !has_player(g.players, target) {
        Some(RuleError::InvalidKickTarget)
    } else if g.phase matches PhaseState::Drawing(d) && d.drawer == target {
        Some(RuleError::CannotKickDrawer)
    } else {
        None
    }
}

/// The game right after a player is removed: gone from the roster, the
/// rotation, and the list of correct guessers.
pub open spec fn after_kick(g: GameView, target: PlayerId, g1: GameView) -> bool {
    &&& g1.players == g.players.remove(find_player(g.players, target))
    &&& g1.remaining_drawers == without_id(g.remaining_drawers, target)
    &&& match g.phase {
        PhaseState::Drawing(d) => g1.phase matches PhaseState::Drawing(d1) && d1.guessed@
            == without_id(d.guessed@, target) && d1.drawer == d.drawer && d1.turn_id == d.turn_id
            && d1.secret_word == d.secret_word && d1.word_characters == d.word_characters
            && d1.revealed == d.revealed && d1.guess_awards == d.guess_awards
            && d1.guesser_score_total == d.guesser_score_total && d1.canvas == d.canvas
            && d1.deadline == d.deadline && d1.hint_deadlines == d.hint_deadlines && d1.next_hint
            == d.next_hint,
        _ => g1.phase == g.phase,
    }
    &&& g1 == GameView {
        players: g1.players,
        remaining_drawers: g1.remaining_drawers,
        phase: g1.phase,
        ..g
    }
}

/// What remains of a result once its leading events are accounted for.
pub open spec fn after_prefix(prefix: Seq<EmittedEvent>, r: Result<Seq<EmittedEvent>, RuleError>) -> Result<
    Seq<EmittedEvent>,
    RuleError,
> {
    match r {
        Ok(evs) => Ok(evs.skip(prefix.len() as int)),
        Err(e) => Err(e),
    }
}

/// Whether a successful result starts with `prefix`.
pub open spec fn starts_with(prefix: Seq<EmittedEvent>, r: Result<Seq<EmittedEvent>, RuleError>) -> bool {
    r matches Ok(evs) ==> evs.len() >= prefix.len() && evs.take(prefix.len() as int) == prefix
}

/// The turn consequence of a roster change: a new turn when the choosing
/// drawer left (`restart`), the end of the drawing turn when nobody is left
/// to guess, or nothing.
pub open spec fn turn_follow_up(
    g1: GameView,
    g2: GameView,
    prefix: Seq<EmittedEvent>,
    r: Result<Seq<EmittedEvent>, RuleError>,
    restart: bool,
    now: GameTime,
) -> bool {
    if restart {
        &&& starts_with(prefix, r)
        &&& next_turn_advanced(g1, g2, after_prefix(prefix, r), now)
    } else if turn_complete(g1) {
        &&& g1.phase matches PhaseState::Drawing(d)
        &&& r matches Ok(evs) && evs.len() >= prefix.len() && evs.take(prefix.len() as int) == prefix
            && turn_finished(g1, d, g2, evs.skip(prefix.len() as int), now)
    } else {
        &&& g2 == g1
        &&& r == Ok::<Seq<EmittedEvent>, RuleError>(prefix)
    }
}

/// Outcome of adding a new player.
pub open spec fn add_done(
    g0: GameView,
    g1: GameView,
    profile: PlayerProfile,
    claim_host: bool,
    r: Result<(PlayerId, Vec<EmittedEvent>), JoinError>,
) -> bool {
    match join_refusal(g0, profile) {
        Some(e) => r == Err::<(PlayerId, Vec<EmittedEvent>), JoinError>(e) && g1 == g0,
        None => {
            let p = joined_player(g0, profile);
            let claimed = claim_host && g0.host is None;
            &&& g1 == (GameView {
                players: g0.players.push(p),
                host: if claimed {
                    Some(p.player_id)
                } else {
                    g0.host
                },
                next_player_id: (g0.next_player_id + 1) as u32,
                next_joined_order: sat_add(g0.next_joined_order, 1),
                ..g0
            })
            &&& r matches Ok((id, evs)) && id == p.player_id && join_events(evs@, p, claimed, g1)
        },
    }
}

/// Outcome of a retained player reconnecting.
pub open spec fn reconnect_done(
    g: GameView,
    g1: GameView,
    player_id: PlayerId,
    r: Result<Seq<EmittedEvent>, RuleError>,
) -> bool {
    let i = find_player(g.players, player_id);
    if i < 0 {
        r == Err::<Seq<EmittedEvent>, RuleError>(RuleError::UnknownPlayer) && g1 == g
    } else if g.players[i].connected {
        r == Ok::<Seq<EmittedEvent>, RuleError>(Seq::empty()) && g1 == g
    } else {
        let claimed = g.host is None;
        &&& g1 == (GameView {
            players: with_connection(g.players, i, true),
            host: if claimed {
                Some(player_id)
            } else {
                g.host
            },
            ..g
        })
        &&& r matches Ok(evs) && join_events(evs, g1.players[i], claimed, g1)
    }
}

/// Outcome of a player's connection dropping.
pub open spec fn disconnect_done(
    g: GameView,
    g2: GameView,
    player_id: PlayerId,
    now: GameTime,
    r: Result<Seq<EmittedEvent>, RuleError>,
) -> bool {
    let i = find_player(g.players, player_id);
    if i < 0 {
        r == Err::<Seq<EmittedEvent>, RuleError>(RuleError::UnknownPlayer) && g2 == g
    } else if !g.players[i].connected {
        r == Ok::<Seq<EmittedEvent>, RuleError>(Seq::empty()) && g2 == g
    } else {
        exists|g1: GameView|
            after_departure(g, player_id, g1) && turn_follow_up(
                g1,
                g2,
                departure_prefix(g, player_id, g1),
                r,
                g.phase matches PhaseState::ChoosingWord(c) && c.drawer == player_id,
                now,
            )
    }
}

impl Game {
    /// Replaces one player's connection flag.
    fn set_connected(&mut self, i: usize, connected: bool)
        requires
            i < old(self)@.players.len(),
        ensures
            final(self)@ == (GameView {
                players: with_connection(old(self)@.players, i as int, connected),
                ..old(self)@
            }),
            old(self).wf() ==> final(self).wf(),
    {
        let mut p = self.players.remove(i);
        p.connected = connected;
        self.players.insert(i, p);
        assert(self@.players =~= with_connection(old(self)@.players, i as int, connected));
        assert forall|j: int| 0 <= j < self@.players.len() implies (#[trigger] self@.players[j]).player_id
            == old(self)@.players[j].player_id && self@.players[j].profile == old(self)@.players[j].profile by {}
        proof {
            if old(self).wf() {
                if let Some(h) = self@.host {
                    lemma_find_same_ids(self@.players, old(self)@.players, h);
                }
                assert(game_wf(self@));
            }
        }
    }

    /// The earliest-joined connected player.
    fn oldest_connected_player(&self) -> (r: Option<PlayerId>)
        ensures
            r == oldest_connected(self@.players),
    {
        let ids = self.connected_player_ids();
        if ids.len() > 0 {
            Some(ids[0])
        } else {
            None
        }
    }

    /// Adds a new identity to the initial lobby.
    pub fn add_player(&mut self, profile: PlayerProfile, claim_host: bool) -> (r: Result<
        (PlayerId, Vec<EmittedEvent>),
        JoinError,
    >)
        requires
            old(self).wf(),
        ensures
            final(self).wf(),
            add_done(old(self)@, final(self)@, profile, claim_host, r),
    {
        match profile.validate() {
            Ok(()) => {},
            Err(e) => {
                return Err(JoinError::InvalidProfile(e));
            },
        }
        if !self.is_lobby() {
            return Err(JoinError::GameAlreadyStarted);
        }
        if self.players.len() >= self.settings.max_players as usize {
            return Err(JoinError::RoomFull);
        }
        if self.next_player_id == u32::MAX {
            return Err(JoinError::PlayerIdExhausted);
        }
        let ghost g0 = self@;
        let player_id = PlayerId(self.next_player_id);
        self.next_player_id = self.next_player_id + 1;
        let joined_order = self.next_joined_order;
        self.next_joined_order = self.next_joined_order.saturating_add(1);
        self.players.push(PlayerState { player_id, profile, score: 0, connected: true, joined_order });
        let mut events: Vec<EmittedEvent> = Vec::new();
        if claim_host && self.host.is_none() {
            self.host = Some(player_id);
            events.push(
                EmittedEvent::everyone_except(player_id, ServerMessage::HostChanged { player_id }),
            );
        }
        proof {
            let n = self@.players.len() - 1;
            assert(self@.players[n].player_id == player_id);
            assert(ids_unique(self@.players)) by {
                assert forall|i: int, j: int|
                    0 <= i < self@.players.len() && 0 <= j < self@.players.len() && i != j
                        implies #[trigger] self@.players[i].player_id != #[trigger] self@.players[j].player_id by {
                    if i < n && j < n {
                        assert(self@.players[i] == g0.players[i]);
                        assert(self@.players[j] == g0.players[j]);
                    } else if i < n {
                        assert(self@.players[i] == g0.players[i]);
                    } else if j < n {
                        assert(self@.players[j] == g0.players[j]);
                    }
                }
            }
            lemma_find_unique(self@.players, n);
            if let Some(h) = g0.host {
                lemma_find_player(g0.players, h);
                let k = find_player(g0.players, h);
                assert(self@.players[k] == g0.players[k]);
                lemma_find_unique(self@.players, k);
            }
            assert(game_wf(self@));
        }
        let v = self.view_at(self.players.len() - 1);
        events.push(EmittedEvent::everyone_except(player_id, ServerMessage::PlayerJoined(v)));
        Ok((player_id, events))
    }

    /// Marks a retained player as connected and returns presence events.
    pub fn reconnect_player(&mut self, player_id: PlayerId) -> (r: Result<Vec<EmittedEvent>, RuleError>)
        requires
            old(self).wf(),
        ensures
            final(self).wf(),
            reconnect_done(old(self)@, final(self)@, player_id, seq_result(r)),
    {
        let i = match self.index_of(player_id) {
            Some(i) => i,
            None => {
                return Err(RuleError::UnknownPlayer);
            },
        };
        if self.players[i].connected {
            return Ok(Vec::new());
        }
        let ghost g0 = self@;
        self.set_connected(i, true);
        let mut events: Vec<EmittedEvent> = Vec::new();
        if self.host.is_none() {
            self.host = Some(player_id);
            events.push(
                EmittedEvent::everyone_except(player_id, ServerMessage::HostChanged { player_id }),
            );
            proof {
                lemma_find_unique(self@.players, i as int);
                assert(game_wf(self@));
            }
        }
        let v = self.view_at(i);
        events.push(EmittedEvent::everyone_except(player_id, ServerMessage::PlayerJoined(v)));
        Ok(events)
    }

    /// Marks one connection generation as departed without deleting score
    /// or rotation.
    pub fn disconnect_player(&mut self, player_id: PlayerId, now: GameTime) -> (r: Result<
        Vec<EmittedEvent>,
        RuleError,
    >)
        requires
            old(self).wf(),
        ensures
            final(self).wf(),
            disconnect_done(old(self)@, final(self)@, player_id, now, seq_result(r)),
    {
        let i = match self.index_of(player_id) {
            Some(i) => i,
            None => {
                return Err(RuleError::UnknownPlayer);
            },
        };
        if !self.players[i].connected {
            return Ok(Vec::new());
        }
        let ghost g0 = self@;
        self.set_connected(i, false);
        match &mut self.phase {
            PhaseState::Drawing(d) => {
                if d.drawer == player_id {
                    d.canvas.finalize_active();
                }
            },
            _ => {},
        }
        let mut events: Vec<EmittedEvent> = Vec::new();
        events.push(EmittedEvent::everyone(ServerMessage::PlayerLeft { player_id }));
        if self.host == Some(player_id) {
            self.host = self.oldest_connected_player();
            match self.host {
                Some(h) => {
                    events.push(EmittedEvent::everyone(ServerMessage::HostChanged { player_id: h }));
                },
                None => {},
            }
        }
        proof {
            lemma_connected_ids(self@.players);
            if let Some(h) = self@.host {
                if g0.host == Some(player_id) {
                    let k = super::connected_index(self@.players, 0);
                    lemma_find_unique(self@.players, k);
                } else {
                    lemma_find_same_ids(self@.players, g0.players, h);
                }
            }
            assert(game_wf(self@));
        }
        let ghost g1 = self@;
        assert(after_departure(g0, player_id, g1));
        assert(events@ == departure_prefix(g0, player_id, g1));
        let restart = match &self.phase {
            PhaseState::ChoosingWord(s) => s.drawer == player_id,
            _ => false,
        };
        if restart {
            match self.begin_next_turn(now) {
                Ok(mut more) => {
                    let ghost tail = more@;
                    events.append(&mut more);
                    assert(events@.take(g1_prefix_len(g0, player_id, g1)) =~= departure_prefix(g0, player_id, g1));
                    assert(events@.skip(g1_prefix_len(g0, player_id, g1)) =~= tail);
                    return Ok(events);
                },
                Err(e) => {
                    return Err(e);
                },
            }
        }
        if self.all_active_guessers_correct() {
            match self.finish_turn(now) {
                Ok(mut more) => {
                    let ghost tail = more@;
                    events.append(&mut more);
                    assert(events@.take(g1_prefix_len(g0, player_id, g1)) =~= departure_prefix(g0, player_id, g1));
                    assert(events@.skip(g1_prefix_len(g0, player_id, g1)) =~= tail);
                    return Ok(events);
                },
                Err(e) => {
                    return Err(e);
                },
            }
        }
        Ok(events)
    }

    /// The host removes another player from the room.
    pub(crate) fn kick_player(&mut self, actor: PlayerId, target: PlayerId, now: GameTime) -> (r: Result<
        Vec<EmittedEvent>,
        RuleError,
    >)
        requires
            old(self).wf(),
        ensures
            final(self).wf(),
            kick_done(old(self)@, final(self)@, actor, target, now, seq_result(r)),
    {
        if self.host != Some(actor) {
            return Err(RuleError::HostOnly);
        }
        if actor == target {
            return Err(RuleError::CannotKickSelf);
        }
        let i = match self.index_of(target) {
            Some(i) => i,
            None => {
                return Err(RuleError::InvalidKickTarget);
            },
        };
        match &self.phase {
            PhaseState::Drawing(d) => {
                if d.drawer == target {
                    return Err(RuleError::CannotKickDrawer);
                }
            },
            _ => {},
        }
        let ghost g0 = self@;
        let removed = self.players.remove(i);
        self.remaining_drawers = ids_without(&self.remaining_drawers, target);
        match &mut self.phase {
            PhaseState::Drawing(d) => {
                d.guessed = ids_without(&d.guessed, target);
                proof {
                    lemma_without_id(old(self)@.phase->Drawing_0.guessed@, target);
                }
            },
            _ => {},
        }
        proof {
            assert(ids_unique(self@.players));
            if let Some(h) = self@.host {
                lemma_find_player(g0.players, h);
                let k = find_player(g0.players, h);
                assert(k != i);
                let k2 = if k < i { k } else { k - 1 };
                assert(self@.players[k2] == g0.players[k]);
                lemma_find_unique(self@.players, k2);
            }
            assert(game_wf(self@));
        }
        let ghost g1 = self@;
        assert(after_kick(g0, target, g1));
        let mut events: Vec<EmittedEvent> = Vec::new();
        events.push(EmittedEvent::everyone(ServerMessage::PlayerLeft { player_id: target }));
        if self.all_active_guessers_correct() {
            match self.finish_turn(now) {
                Ok(mut more) => {
                    let ghost tail = more@;
                    events.append(&mut more);
                    assert(events@.skip(1) =~= tail);
                    assert(events@.take(1) =~= seq![
                        EmittedEvent {
                            audience: Audience::Everyone,
                            message: ServerMessage::PlayerLeft { player_id: target },
                        },
                    ]);
                    return Ok(events);
                },
                Err(e) => {
                    return Err(e);
                },
            }
        }
        assert(events@ =~= seq![
            EmittedEvent {
                audience: Audience::Everyone,
                message: ServerMessage::PlayerLeft { player_id: target },
            },
        ]);
        Ok(events)
    }
}

} // verus!
