//! Decisions of one room: which connection generation is current, who
//! receives each event, how joins, departures and bans change the sessions,
//! and when the room expires. The caller owns the sockets and the clock: it
//! hands each command and its delivery results to these functions and
//! performs the deliveries they return.

use crate::shuffle::seeded_order;
use vstd::prelude::*;

use crate::failure::{GameBuildError, JoinError, RuleError};
use crate::game::actions::{apply_done, deadline_done, next_deadline_of};
use crate::game::event::{Audience, EmittedEvent};
use crate::game::roster::{add_done, disconnect_done, join_refusal, kick_done, kick_refusal, reconnect_done};
use crate::game::views::snapshot_ok;
use crate::game::{find_player, player_connected, seq_result, Game, GameView, PlayerAction};
use crate::ids::{ClientToken, PlayerId, RoomCode};
use crate::model::{ByeReason, PlayerProfile, RoomSettings, ServerMessage};
use crate::time::{clamp_millis, sat_add, GameDeadline, GameTime};
use crate::validate::check_settings;
use crate::words::{deck_check, texts};

verus! {

/// Capability identifying exactly one active connection generation.
///
/// A browser reconnect keeps its player identity but receives a larger
/// generation; messages carrying an older lease are ignored.
#[derive(Debug, Clone, Copy, PartialEq, Eq, Hash, Structural)]
pub struct ConnectionLease {
    /// Stable player identity retained for the lifetime of the room.
    pub player_id: PlayerId,
    /// Monotonically increasing connection generation for that player.
    pub generation: u64,
}

/// Successful attachment returned to a socket reader.
#[derive(Debug, Clone, Copy, PartialEq, Eq, Structural)]
pub struct JoinAccepted {
    /// Lease required for later action and departure messages.
    pub lease: ConnectionLease,
    /// Whether an existing player identity was reclaimed.
    pub resumed: bool,
}

/// Why a room ended.
#[derive(Debug, Clone, Copy, PartialEq, Eq, Structural)]
pub enum RoomExitReason {
    /// No game began before the lobby deadline.
    LobbyExpired,
    /// No players reconnected before the empty-room deadline.
    Empty,
    /// The owner requested an orderly shutdown.
    Shutdown,
    /// Every command sender was dropped.
    MailboxClosed,
}

/// Lifecycle message used by a directory to remove the exact room generation.
#[derive(Debug, Clone, Copy, PartialEq, Eq)]
pub struct RoomExit {
    /// Room whose task ended.
    pub room_code: RoomCode,
    /// Ownership generation of the task that ended.
    pub room_generation: u64,
    /// Terminal reason.
    pub reason: RoomExitReason,
}

/// One remembered browser session.
#[derive(Debug, Clone, Copy, PartialEq, Eq, Structural)]
pub struct Session {
    /// Browser identity.
    pub token: ClientToken,
    /// Player the browser plays as.
    pub player_id: PlayerId,
    /// Current connection generation.
    pub generation: u64,
    /// Whether a live outbound queue is attached.
    pub attached: bool,
}

/// Send message number `message` of a fanout to the browser `token`.
#[derive(Debug, Clone, Copy, PartialEq, Eq, Structural)]
pub struct Delivery {
    pub message: usize,
    pub token: ClientToken,
}

/// Messages to send, who receives each, and the browsers whose outbound
/// queue must be dropped afterwards.
pub struct Fanout {
    pub messages: Vec<ServerMessage>,
    pub deliveries: Vec<Delivery>,
    pub released: Vec<ClientToken>,
}

/// A join in progress: the greeting to deliver to the new queue, and what
/// to do once the outcome of that delivery is known.
pub struct JoinTicket {
    pub lease: ConnectionLease,
    pub resumed: bool,
    pub token: ClientToken,
    /// The previous queue of this browser must receive `Bye { Replaced }`.
    pub replaced: bool,
    pub greeting: ServerMessage,
    /// Game events to publish once the greeting is delivered.
    pub events: Vec<EmittedEvent>,
}

/// Whether an audience includes a player.
pub open spec fn audience_allows(a: Audience, p: PlayerId) -> bool {
    match a {
        Audience::Everyone => true,
        Audience::Player(target) => target == p,
        Audience::EveryoneExcept(excluded) => excluded != p,
    }
}

/// Whether an audience includes a player.
pub fn audience_includes(audience: Audience, player_id: PlayerId) -> (r: bool)
    ensures
        r == audience_allows(audience, player_id),
{
    match audience {
        Audience::Everyone => true,
        Audience::Player(target) => target == player_id,
        Audience::EveryoneExcept(excluded) => excluded != player_id,
    }
}

/// Browsers with an attached queue that an audience includes, in session
/// order.
pub open spec fn recipients(a: Audience, sessions: Seq<Session>) -> Seq<ClientToken>
    decreases sessions.len(),
{
    if sessions.len() == 0 {
        Seq::empty()
    } else {
        let r = recipients(a, sessions.drop_last());
        let s = sessions.last();
        if s.attached && audience_allows(a, s.player_id) {
            r.push(s.token)
        } else {
            r
        }
    }
}

/// Deliveries of message `m` to every recipient.
pub open spec fn deliveries_of(m: int, tokens: Seq<ClientToken>) -> Seq<Delivery> {
    tokens.map_values(|t: ClientToken| Delivery { message: m as usize, token: t })
}

/// Deliveries of a list of events, message by message.
pub open spec fn fanout_deliveries(audiences: Seq<Audience>, sessions: Seq<Session>, base: int) -> Seq<Delivery>
    decreases audiences.len(),
{
    if audiences.len() == 0 {
        Seq::empty()
    } else {
        fanout_deliveries(audiences.drop_last(), sessions, base) + deliveries_of(
            base + audiences.len() - 1,
            recipients(audiences.last(), sessions),
        )
    }
}

/// Audiences of a list of events.
pub open spec fn audiences(events: Seq<EmittedEvent>) -> Seq<Audience> {
    events.map_values(|e: EmittedEvent| e.audience)
}

/// Messages of a list of events.
pub open spec fn messages_of(events: Seq<EmittedEvent>) -> Seq<ServerMessage> {
    events.map_values(|e: EmittedEvent| e.message)
}

/// Position of the session of a player, or -1.
pub open spec fn session_of(sessions: Seq<Session>, p: PlayerId) -> int
    decreases sessions.len(),
{
    if sessions.len() == 0 {
        -1
    } else {
        let k = session_of(sessions.drop_last(), p);
        if k >= 0 {
            k
        } else if sessions.last().player_id == p {
            sessions.len() - 1
        } else {
            -1
        }
    }
}

/// Position of the session of a browser, or -1.
pub open spec fn session_by_token(sessions: Seq<Session>, t: ClientToken) -> int
    decreases sessions.len(),
{
    if sessions.len() == 0 {
        -1
    } else {
        let k = session_by_token(sessions.drop_last(), t);
        if k >= 0 {
            k
        } else if sessions.last().token == t {
            sessions.len() - 1
        } else {
            -1
        }
    }
}

/// Whether a lease names the live connection of its player.
pub open spec fn lease_current(sessions: Seq<Session>, lease: ConnectionLease) -> bool {
    let k = session_of(sessions, lease.player_id);
    k >= 0 && sessions[k].generation == lease.generation && sessions[k].attached
}

/// The sessions with one browser's queue detached.
pub open spec fn detached(sessions: Seq<Session>, k: int) -> Seq<Session> {
    if 0 <= k < sessions.len() {
        sessions.update(k, Session { attached: false, ..sessions[k] })
    } else {
        sessions
    }
}

/// Whether a fanout sends nothing and releases nothing.
pub open spec fn fanout_empty(f: Fanout) -> bool {
    f.messages@.len() == 0 && f.deliveries@.len() == 0 && f.released@.len() == 0
}

/// Whether a fanout sends exactly `events` to the browsers of `sessions`.
pub open spec fn fanout_of(f: Fanout, events: Seq<EmittedEvent>, sessions: Seq<Session>) -> bool {
    &&& f.messages@ == messages_of(events)
    &&& f.deliveries@ == fanout_deliveries(audiences(events), sessions, 0)
    &&& f.released@.len() == 0
}

/// Outcome of the first half of a join: a browser that was banned is
/// refused; a known browser reclaims its player with the next connection
/// generation and is greeted with a resume; a new browser joins the game and
/// is greeted with a welcome. The new queue counts as attached only once the
/// greeting is delivered.
pub open spec fn join_begun(
    r0: RoomView,
    r1: RoomView,
    token: ClientToken,
    profile: PlayerProfile,
    res: Result<JoinTicket, JoinError>,
) -> bool {
    if r0.kicked.contains(token) {
        &&& res matches Err(e) && e == JoinError::Kicked
        &&& r1 == r0
    } else if session_by_token(r0.sessions, token) >= 0 {
        let k = session_by_token(r0.sessions, token);
        let s = r0.sessions[k];
        let s1 = Session { generation: sat_add(s.generation, 1), attached: false, ..s };
        &&& r1 == RoomView { game: r1.game, sessions: r0.sessions.update(k, s1), ..r0 }
        &&& exists|rr: Result<Seq<EmittedEvent>, RuleError>|
            #![trigger reconnect_done(r0.game, r1.game, s.player_id, rr)]
            reconnect_done(r0.game, r1.game, s.player_id, rr) && match rr {
                Err(_) => res matches Err(e) && e == JoinError::RoomClosed,
                Ok(evs) => res matches Ok(t) && t.lease == (ConnectionLease {
                    player_id: s.player_id,
                    generation: s1.generation,
                }) && t.resumed && t.token == token && t.replaced == s.attached && t.events@ == evs
                    && (t.greeting matches ServerMessage::Resume(m) && m.player_id == s.player_id
                    && snapshot_ok(m.snapshot, r1.game, s.player_id)),
            }
    } else {
        let claim = token == r0.creator_token;
        exists|ra: Result<(PlayerId, Vec<EmittedEvent>), JoinError>|
            #![trigger add_done(r0.game, r1.game, profile, claim, ra)]
            add_done(r0.game, r1.game, profile, claim, ra) && addition_outcome(r0, r1, token, res, ra)
    }
}

/// What a join does once the game answered the addition of a new player
/// with `ra`.
pub open spec fn addition_outcome(
    r0: RoomView,
    r1: RoomView,
    token: ClientToken,
    res: Result<JoinTicket, JoinError>,
    ra: Result<(PlayerId, Vec<EmittedEvent>), JoinError>,
) -> bool {
    match ra {
        Err(e) => res matches Err(e2) && e2 == e && r1 == r0,
        Ok((id, evs)) => {
            &&& res matches Ok(t) && t.lease == (ConnectionLease { player_id: id, generation: 1 })
                && !t.resumed && t.token == token && !t.replaced && t.events@ == evs@
                && (t.greeting matches ServerMessage::Welcome(w) && w.player_id == id
                && w.room_code == r0.room_code && snapshot_ok(w.snapshot, r1.game, id))
            &&& r1 == RoomView {
                game: r1.game,
                sessions: r0.sessions.push(Session { token, player_id: id, generation: 1, attached: false }),
                ..r0
            }
        },
    }
}

/// Outcome of the second half of a join, once the greeting's delivery is
/// known: on success the queue is attached and the pending events published;
/// otherwise the player is marked away and the join fails.
pub open spec fn join_finished(
    r0: RoomView,
    r1: RoomView,
    t: JoinTicket,
    delivered: bool,
    now: GameTime,
    res: Result<JoinAccepted, JoinError>,
    f: Fanout,
) -> bool {
    let k = session_by_token(r0.sessions, t.token);
    if delivered {
        let sessions = if k >= 0 {
            r0.sessions.update(k, Session { attached: true, ..r0.sessions[k] })
        } else {
            r0.sessions
        };
        &&& r1 == RoomView { sessions, ever_joined: true, empty_since: None, ..r0 }
        &&& res == Ok::<JoinAccepted, JoinError>(JoinAccepted { lease: t.lease, resumed: t.resumed })
        &&& fanout_of(f, t.events@, sessions)
    } else {
        &&& r1 == RoomView {
            game: r1.game,
            sessions: detached(r0.sessions, k),
            ever_joined: r0.ever_joined || !t.resumed,
            ..r0
        }
        &&& exists|rd: Result<Seq<EmittedEvent>, RuleError>|
            #![trigger disconnect_done(r0.game, r1.game, t.lease.player_id, now, rd)]
            disconnect_done(r0.game, r1.game, t.lease.player_id, now, rd)
        &&& res == Err::<JoinAccepted, JoinError>(JoinError::OutboundUnavailable)
        &&& fanout_empty(f)
    }
}

/// Sessions, bans, and the browser to say goodbye to, after the host
/// removed `target`.
pub open spec fn banned(sessions: Seq<Session>, kicked: Seq<ClientToken>, target: PlayerId) -> (
    Seq<Session>,
    Seq<ClientToken>,
    Option<ClientToken>,
) {
    let k = session_of(sessions, target);
    if k < 0 {
        (sessions, kicked, None)
    } else {
        (
            sessions.remove(k),
            kicked.push(sessions[k].token),
            if sessions[k].attached {
                Some(sessions[k].token)
            } else {
                None
            },
        )
    }
}

/// What the room does once the game answered an action from a current
/// connection with `ra`.
pub open spec fn action_outcome(
    r0: RoomView,
    r1: RoomView,
    lease: ConnectionLease,
    action: PlayerAction,
    f: Fanout,
    ra: Result<Seq<EmittedEvent>, RuleError>,
) -> bool {
    match ra {
        Ok(evs) => {
            let b = match action {
                PlayerAction::KickPlayer { player_id } => banned(r0.sessions, r0.kicked, player_id),
                _ => (r0.sessions, r0.kicked, None),
            };
            &&& r1 == RoomView { game: r1.game, sessions: b.0, kicked: b.1, ..r0 }
            &&& match b.2 {
                Some(token) => {
                    &&& f.messages@ == seq![ServerMessage::Bye { reason: ByeReason::Kicked }]
                        + messages_of(evs)
                    &&& f.deliveries@ == seq![Delivery { message: 0, token }]
                        + fanout_deliveries(audiences(evs), b.0, 1)
                    &&& f.released@ == seq![token]
                },
                None => fanout_of(f, evs, b.0),
            }
        },
        Err(e) => {
            &&& r1 == RoomView { game: r1.game, ..r0 }
            &&& f.messages@.len() == 1
            &&& f.messages@[0] matches ServerMessage::Error(p) && p.code == crate::messages::rule_code(e)
                && p.message@ == crate::messages::rule_text(e)
            &&& f.deliveries@ == fanout_deliveries(seq![Audience::Player(lease.player_id)], r0.sessions, 0)
            &&& f.released@.len() == 0
        },
    }
}

/// Outcome of one action received on a connection.
pub open spec fn action_handled(
    r0: RoomView,
    r1: RoomView,
    lease: ConnectionLease,
    action: PlayerAction,
    now: GameTime,
    f: Fanout,
) -> bool {
    if !lease_current(r0.sessions, lease) {
        r1 == r0 && fanout_empty(f)
    } else {
        exists|ra: Result<Seq<EmittedEvent>, RuleError>|
            #![trigger apply_done(r0.game, r1.game, lease.player_id, action, now, ra)]
            apply_done(r0.game, r1.game, lease.player_id, action, now, ra) && action_outcome(
                r0,
                r1,
                lease,
                action,
                f,
                ra,
            )
    }
}

/// Outcome of a connection going away: its queue is released and its
/// player marked away.
pub open spec fn departure_handled(
    r0: RoomView,
    r1: RoomView,
    k: int,
    now: GameTime,
    f: Fanout,
) -> bool {
    let s = r0.sessions[k];
    let sessions = detached(r0.sessions, k);
    &&& r1 == RoomView { game: r1.game, sessions, ..r0 }
    &&& f.released@ == seq![s.token]
    &&& exists|rd: Result<Seq<EmittedEvent>, RuleError>|
        #![trigger disconnect_done(r0.game, r1.game, s.player_id, now, rd)]
        disconnect_done(r0.game, r1.game, s.player_id, now, rd) && match rd {
            Ok(evs) => f.messages@ == messages_of(evs) && f.deliveries@ == fanout_deliveries(
                audiences(evs),
                sessions,
                0,
            ),
            Err(_) => f.messages@.len() == 0 && f.deliveries@.len() == 0,
        }
}

/// Game state and events after the clock is allowed to fire up to `n` due
/// deadlines at `now`; a failing deadline stops the sequence.
pub open spec fn deadlines_fired(g0: GameView, g1: GameView, now: GameTime, n: nat, evs: Seq<EmittedEvent>) -> bool
    decreases n,
{
    if n == 0 || !(next_deadline_of(g0.phase) matches Some(d) && now.0 >= d.0) {
        g1 == g0 && evs.len() == 0
    } else {
        exists|gm: GameView, r: Result<Seq<EmittedEvent>, RuleError>|
            #![trigger deadline_done(g0, gm, now, r)]
            deadline_done(g0, gm, now, r) && match r {
                Ok(e1) => evs.len() >= e1.len() && evs.take(e1.len() as int) == e1 && deadlines_fired(
                    gm,
                    g1,
                    now,
                    (n - 1) as nat,
                    evs.skip(e1.len() as int),
                ),
                Err(_) => g1 == gm && evs.len() == 0,
            }
    }
}

proof fn lemma_fanout_append(a: Seq<Audience>, b: Seq<Audience>, s: Seq<Session>, base: int)
    ensures
        fanout_deliveries(a + b, s, base) == fanout_deliveries(a, s, base) + fanout_deliveries(
            b,
            s,
            base + a.len(),
        ),
    decreases b.len(),
{
    if b.len() == 0 {
        assert(a + b =~= a);
    } else {
        lemma_fanout_append(a, b.drop_last(), s, base);
        assert((a + b).drop_last() =~= a + b.drop_last());
        assert((a + b).last() == b.last());
    }
}

/// Mathematical state of a room.
#[verifier::ext_equal]
pub struct RoomView {
    pub game: GameView,
    pub room_code: RoomCode,
    pub room_generation: u64,
    pub creator_token: ClientToken,
    pub lobby_timeout_ms: u64,
    pub empty_timeout_ms: u64,
    pub sessions: Seq<Session>,
    pub kicked: Seq<ClientToken>,
    pub ever_joined: bool,
    pub empty_since: Option<GameTime>,
}

/// Why the room has expired at `now`, if it has.
pub open spec fn expiry_at(r: RoomView, now: GameTime) -> Option<RoomExitReason> {
    if r.game.phase is Lobby && now.0 >= r.lobby_timeout_ms {
        Some(RoomExitReason::LobbyExpired)
    } else if r.empty_since matches Some(t) && now.0 >= sat_add(t.0, r.empty_timeout_ms) {
        Some(RoomExitReason::Empty)
    } else {
        None
    }
}

/// The earliest pending deadline: the lobby expiry while in the lobby, the
/// next game deadline, and the empty-room expiry.
pub open spec fn earliest_deadline(r: RoomView) -> Option<u64> {
    let lobby: Option<u64> = if r.game.phase is Lobby {
        Some(r.lobby_timeout_ms)
    } else {
        None
    };
    let with_game: Option<u64> = match next_deadline_of(r.game.phase) {
        Some(d) => Some(
            match lobby {
                Some(l) => if l <= d.0 {
                    l
                } else {
                    d.0
                },
                None => d.0,
            },
        ),
        None => lobby,
    };
    match r.empty_since {
        Some(t) => {
            let e = sat_add(t.0, r.empty_timeout_ms);
            Some(
                match with_game {
                    Some(c) => if c <= e {
                        c
                    } else {
                        e
                    },
                    None => e,
                },
            )
        },
        None => with_game,
    }
}

/// When the room next needs attention, in milliseconds since it started:
/// the earliest deadline but not before `now`, or an hour from `now`.
pub open spec fn wake_at(r: RoomView, now: GameTime) -> u64 {
    match earliest_deadline(r) {
        Some(d) => if d >= now.0 {
            d
        } else {
            now.0
        },
        None => sat_add(now.0, 3_600_000),
    }
}

/// Empty-room bookkeeping after a command: the clock starts when the last
/// player leaves a room that someone joined, and stops when anyone is back.
pub open spec fn empty_since_after(r: RoomView, now: GameTime) -> Option<GameTime> {
    if crate::game::count_connected(r.game.players) == 0 && r.ever_joined {
        match r.empty_since {
            Some(t) => Some(t),
            None => Some(now),
        }
    } else {
        None
    }
}

/// Sessions name distinct browsers and distinct players, and every player
/// they name was numbered before `next_id`.
pub open spec fn sessions_wf(s: Seq<Session>, next_id: u32) -> bool {
    &&& forall|i: int, j: int| 0 <= i < j < s.len() ==> (#[trigger] s[i]).token != (#[trigger] s[j]).token
    &&& forall|i: int, j: int| 0 <= i < j < s.len() ==> (#[trigger] s[i]).player_id != (#[trigger] s[j]).player_id
    &&& forall|i: int| 0 <= i < s.len() ==> (#[trigger] s[i]).player_id.0 < next_id
}

/// One room: the game and the sessions attached to it.
pub struct Room {
    game: Game,
    room_code: RoomCode,
    room_generation: u64,
    creator_token: ClientToken,
    lobby_timeout_ms: u64,
    empty_timeout_ms: u64,
    sessions: Vec<Session>,
    kicked: Vec<ClientToken>,
    ever_joined: bool,
    empty_since: Option<GameTime>,
}

impl View for Room {
    type V = RoomView;

    closed spec fn view(&self) -> RoomView {
        RoomView {
            game: self.game@,
            room_code: self.room_code,
            room_generation: self.room_generation,
            creator_token: self.creator_token,
            lobby_timeout_ms: self.lobby_timeout_ms,
            empty_timeout_ms: self.empty_timeout_ms,
            sessions: self.sessions@,
            kicked: self.kicked@,
            ever_joined: self.ever_joined,
            empty_since: self.empty_since,
        }
    }
}

impl Room {
    /// The room invariant: a consistent game, and sessions that name
    /// distinct browsers and distinct players, each already numbered by the
    /// game.
    pub closed spec fn wf(&self) -> bool {
        &&& self.game.wf()
        &&& sessions_wf(self.sessions@, self.game@.next_player_id)
    }

    /// Opens a room: a validated lobby that expires `lobby_timeout_ms` after
    /// the room starts.
    pub fn open(
        room_code: RoomCode,
        room_generation: u64,
        creator_token: ClientToken,
        settings: RoomSettings,
        words: Vec<String>,
        random_seed: [u8; 32],
        unix_origin_ms: u64,
        lobby_timeout_ms: u64,
        empty_timeout_ms: u64,
    ) -> (r: Result<Room, GameBuildError>)
        ensures
            match r {
                Ok(room) => {
                    &&& room.wf()
                    &&& room@.game.phase matches crate::game::PhaseState::Lobby(l) && l.deadline.0
                        == lobby_timeout_ms
                    &&& room@.game.players.len() == 0
                    &&& room@.game.settings == settings
                    &&& room@.room_code == room_code
                    &&& room@.room_generation == room_generation
                    &&& room@.creator_token == creator_token
                    &&& room@.lobby_timeout_ms == lobby_timeout_ms
                    &&& room@.empty_timeout_ms == empty_timeout_ms
                    &&& room@.sessions.len() == 0
                    &&& room@.kicked.len() == 0
                    &&& check_settings(settings) is Ok
                    &&& deck_check(texts(words@), settings.word_choices as usize) is Ok
                    &&& room@.game.pool == texts(words@)
                    &&& room@.game.deck_seed == random_seed@
                    &&& room@.game.deck_shuffles == 1
                    &&& room@.game.deck_upcoming == seeded_order(random_seed@, 1, words@.len() as nat)
                    &&& !room@.ever_joined
                    &&& room@.empty_since is None
                },
                Err(GameBuildError::InvalidSettings(e)) => check_settings(settings) == Err::<(), _>(e),
                Err(GameBuildError::WordDeck(e)) => {
                    &&& check_settings(settings) is Ok
                    &&& deck_check(texts(words@), settings.word_choices as usize) == Err::<(), _>(e)
                },
            },
    {
        let lobby_deadline = GameDeadline::after(GameTime(0), lobby_timeout_ms as u128);
        let game = match Game::new(settings, words, random_seed, unix_origin_ms, lobby_deadline) {
            Ok(g) => g,
            Err(e) => {
                return Err(e);
            },
        };
        Ok(
            Room {
                game,
                room_code,
                room_generation,
                creator_token,
                lobby_timeout_ms,
                empty_timeout_ms,
                sessions: Vec::new(),
                kicked: Vec::new(),
                ever_joined: false,
                empty_since: None,
            },
        )
    }

    /// The game played in this room.
    pub fn game(&self) -> (g: &Game)
        ensures
            g@ == self@.game,
            self.wf() ==> g.wf(),
    {
        &self.game
    }

    /// Position of a player's session.
    fn find_session(&self, player_id: PlayerId) -> (r: Option<usize>)
        ensures
            match r {
                Some(k) => k < self@.sessions.len() && session_of(self@.sessions, player_id) == k,
                None => session_of(self@.sessions, player_id) < 0,
            },
    {
        proof {
            lemma_session_of(self@.sessions, player_id);
        }
        let mut k: usize = 0;
        while k < self.sessions.len()
            invariant
                k <= self@.sessions.len(),
                forall|j: int| 0 <= j < k ==> (#[trigger] self@.sessions[j]).player_id != player_id,
            decreases self.sessions.len() - k,
        {
            if self.sessions[k].player_id == player_id {
                proof {
                    lemma_session_of(self@.sessions, player_id);
                }
                return Some(k);
            }
            k = k + 1;
        }
        proof {
            lemma_session_of(self@.sessions, player_id);
        }
        None
    }

    /// Position of a browser's session.
    fn find_token(&self, token: ClientToken) -> (r: Option<usize>)
        ensures
            match r {
                Some(k) => k < self@.sessions.len() && session_by_token(self@.sessions, token) == k,
                None => session_by_token(self@.sessions, token) < 0,
            },
    {
        proof {
            lemma_session_by_token(self@.sessions, token);
        }
        let mut k: usize = 0;
        while k < self.sessions.len()
            invariant
                k <= self@.sessions.len(),
                forall|j: int| 0 <= j < k ==> (#[trigger] self@.sessions[j]).token != token,
            decreases self.sessions.len() - k,
        {
            if self.sessions[k].token == token {
                proof {
                    lemma_session_by_token(self@.sessions, token);
                }
                return Some(k);
            }
            k = k + 1;
        }
        proof {
            lemma_session_by_token(self@.sessions, token);
        }
        None
    }

    /// Whether a lease names the live connection of its player.
    pub fn is_current(&self, lease: ConnectionLease) -> (r: bool)
        ensures
            r == lease_current(self@.sessions, lease),
    {
        match self.find_session(lease.player_id) {
            Some(k) => self.sessions[k].generation == lease.generation && self.sessions[k].attached,
            None => false,
        }
    }

    /// Why the room has expired, if it has.
    pub fn lifecycle_expiry(&self, now: GameTime) -> (r: Option<RoomExitReason>)
        ensures
            r == expiry_at(self@, now),
    {
        if self.game.is_lobby() && now.0 >= self.lobby_timeout_ms {
            return Some(RoomExitReason::LobbyExpired);
        }
        match self.empty_since {
            Some(t) => {
                if GameDeadline::after(t, self.empty_timeout_ms as u128).is_due(now) {
                    Some(RoomExitReason::Empty)
                } else {
                    None
                }
            },
            None => None,
        }
    }

    /// When the room next needs attention, in milliseconds since it started.
    pub fn next_wake(&self, now: GameTime) -> (r: u64)
        ensures
            r == wake_at(self@, now),
    {
        let lobby: Option<u64> = if self.game.is_lobby() {
            Some(self.lobby_timeout_ms)
        } else {
            None
        };
        let with_game: Option<u64> = match self.game.next_deadline() {
            Some(d) => Some(
                match lobby {
                    Some(l) => if l <= d.0 {
                        l
                    } else {
                        d.0
                    },
                    None => d.0,
                },
            ),
            None => lobby,
        };
        let deadline: Option<u64> = match self.empty_since {
            Some(t) => {
                let e = t.0.saturating_add(self.empty_timeout_ms);
                Some(
                    match with_game {
                        Some(c) => if c <= e {
                            c
                        } else {
                            e
                        },
                        None => e,
                    },
                )
            },
            None => with_game,
        };
        match deadline {
            Some(d) => if d >= now.0 {
                d
            } else {
                now.0
            },
            None => now.0.saturating_add(3_600_000),
        }
    }

    /// Starts or stops the empty-room clock.
    pub fn update_empty_deadline(&mut self, now: GameTime)
        ensures
            final(self)@ == (RoomView { empty_since: empty_since_after(old(self)@, now), ..old(self)@ }),
            old(self).wf() ==> final(self).wf(),
    {
        if self.game.connected_count() == 0 && self.ever_joined {
            if self.empty_since.is_none() {
                self.empty_since = Some(now);
            }
        } else {
            self.empty_since = None;
        }
    }

    /// Appends the messages of a list of events to a fanout, with their
    /// recipients by audience among the browsers with an attached queue.
    fn fanout_into(&self, f: &mut Fanout, events: Vec<EmittedEvent>)
        ensures
            final(f).messages@ == old(f).messages@ + messages_of(events@),
            final(f).deliveries@ == old(f).deliveries@ + fanout_deliveries(
                audiences(events@),
                self@.sessions,
                old(f).messages@.len() as int,
            ),
            final(f).released@ == old(f).released@,
    {
        let ghost all = events@;
        let ghost m0 = f.messages@;
        let ghost d0 = f.deliveries@;
        let base = f.messages.len();
        let mut events = events;
        let n = events.len();
        let mut i: usize = 0;
        while events.len() > 0
            invariant
                all.len() == n,
                i + events@.len() == all.len(),
                events@ == all.skip(i as int),
                base == m0.len(),
                f.messages@ == m0 + messages_of(all.take(i as int)),
                f.deliveries@ == d0 + fanout_deliveries(audiences(all.take(i as int)), self@.sessions, base as int),
                f.released@ == old(f).released@,
            decreases events.len(),
        {
            let e = events.remove(0);
            assert(e == all[i as int]);
            let ghost before = f.deliveries@;
            let index = f.messages.len();
            let mut k: usize = 0;
            while k < self.sessions.len()
                invariant
                    k <= self@.sessions.len(),
                    i < all.len(),
                    e == all[i as int],
                    index == base + i,
                    f.messages@ == m0 + messages_of(all.take(i as int)),
                    f.released@ == old(f).released@,
                    f.deliveries@ == before + deliveries_of(
                        index as int,
                        recipients(e.audience, self@.sessions.take(k as int)),
                    ),
                decreases self.sessions.len() - k,
            {
                assert(self@.sessions.take(k + 1).drop_last() =~= self@.sessions.take(k as int));
                let s = self.sessions[k];
                if s.attached && audience_includes(e.audience, s.player_id) {
                    f.deliveries.push(Delivery { message: index, token: s.token });
                    assert(deliveries_of(index as int, recipients(e.audience, self@.sessions.take(k + 1)))
                        =~= deliveries_of(index as int, recipients(e.audience, self@.sessions.take(k as int))).push(
                        Delivery { message: index, token: s.token },
                    ));
                }
                k = k + 1;
                assert(f.deliveries@ =~= before + deliveries_of(
                    index as int,
                    recipients(e.audience, self@.sessions.take(k as int)),
                ));
            }
            assert(self@.sessions.take(k as int) =~= self@.sessions);
            f.messages.push(e.message);
            proof {
                assert(all.take(i + 1).drop_last() =~= all.take(i as int));
                assert(audiences(all.take(i + 1)).drop_last() =~= audiences(all.take(i as int)));
                assert(audiences(all.take(i + 1)).last() == e.audience);
                assert(f.messages@ =~= m0 + messages_of(all.take(i + 1)));
                assert(f.deliveries@ =~= d0 + fanout_deliveries(audiences(all.take(i + 1)), self@.sessions, base as int));
                assert(events@ =~= all.skip(i + 1));
            }
            i = i + 1;
        }
        assert(all.take(i as int) =~= all);
    }

    /// An empty fanout.
    fn nothing() -> (f: Fanout)
        ensures
            fanout_empty(f),
    {
        Fanout { messages: Vec::new(), deliveries: Vec::new(), released: Vec::new() }
    }

    /// Marks one session's queue as attached or not.
    fn set_attached(&mut self, k: usize, attached: bool)
        requires
            k < old(self)@.sessions.len(),
        ensures
            final(self)@ == (RoomView {
                sessions: old(self)@.sessions.update(
                    k as int,
                    Session { attached, ..old(self)@.sessions[k as int] },
                ),
                ..old(self)@
            }),
            old(self).wf() ==> final(self).wf(),
    {
        let mut s = self.sessions[k];
        s.attached = attached;
        self.sessions.set(k, s);
    }

    /// First half of a join: refuses banned browsers, reclaims a known
    /// browser's player or adds a new player, and prepares the greeting.
    pub fn begin_join(&mut self, token: ClientToken, profile: PlayerProfile) -> (r: Result<JoinTicket, JoinError>)
        requires
            old(self).wf(),
        ensures
            final(self).wf(),
            join_begun(old(self)@, final(self)@, token, profile, r),
    {
        let mut i: usize = 0;
        while i < self.kicked.len()
            invariant
                self.wf(),
                i <= self@.kicked.len(),
                forall|j: int| 0 <= j < i ==> self@.kicked[j] != token,
            decreases self.kicked.len() - i,
        {
            if self.kicked[i] == token {
                assert(self@.kicked[i as int] == token);
                return Err(JoinError::Kicked);
            }
            i = i + 1;
        }
        assert(!self@.kicked.contains(token));
        match self.find_token(token) {
            Some(k) => {
                let s = self.sessions[k];
                let generation = s.generation.saturating_add(1);
                self.sessions.set(k, Session { token: s.token, player_id: s.player_id, generation, attached: false });
                proof {
                    lemma_session_by_token(old(self)@.sessions, token);
                    assert(self@.sessions =~= old(self)@.sessions.update(
                        k as int,
                        Session { generation, attached: false, ..s },
                    ));
                }
                let ghost g0 = self.game@;
                let rr = self.game.reconnect_player(s.player_id);
                proof {
                    assert(reconnect_done(g0, self.game@, s.player_id, seq_result(rr)));
                    let s0 = old(self)@.sessions;
                    let s1 = self@.sessions;
                    assert forall|i: int, j: int| 0 <= i < j < s1.len() implies (#[trigger] s1[i]).token
                        != (#[trigger] s1[j]).token && s1[i].player_id != s1[j].player_id by {
                        assert(s0[i].token != s0[j].token);
                    }
                    assert forall|i: int| 0 <= i < s1.len() implies (#[trigger] s1[i]).player_id.0
                        < self.game@.next_player_id by {
                        assert(s0[i].player_id == s1[i].player_id);
                    }
                }
                match rr {
                    Ok(events) => {
                        let greeting = ServerMessage::Resume(self.game.resume_for(s.player_id));
                        Ok(
                            JoinTicket {
                                lease: ConnectionLease { player_id: s.player_id, generation },
                                resumed: true,
                                token,
                                replaced: s.attached,
                                greeting,
                                events,
                            },
                        )
                    },
                    Err(_) => Err(JoinError::RoomClosed),
                }
            },
            None => {
                let claim_host = token == self.creator_token;
                let ghost g0 = self.game@;
                let ra = self.game.add_player(profile, claim_host);
                proof {
                    assert(add_done(g0, self.game@, profile, claim_host, ra));
                }
                match ra {
                    Ok((player_id, events)) => {
                        let greeting = ServerMessage::Welcome(self.game.welcome_for(player_id, self.room_code));
                        let ghost s0 = self@.sessions;
                        self.sessions.push(Session { token, player_id, generation: 1, attached: false });
                        proof {
                            lemma_session_by_token(s0, token);
                            let s1 = self@.sessions;
                            assert forall|i: int, j: int| 0 <= i < j < s1.len() implies (#[trigger] s1[i]).token
                                != (#[trigger] s1[j]).token && s1[i].player_id != s1[j].player_id by {
                                if j == s1.len() - 1 {
                                    assert(s0[i].token != token);
                                    assert(s0[i].player_id.0 < g0.next_player_id);
                                } else {
                                    assert(s0[i].token != s0[j].token);
                                }
                            }
                            assert forall|i: int| 0 <= i < s1.len() implies (#[trigger] s1[i]).player_id.0
                                < self.game@.next_player_id by {
                                if i < s1.len() - 1 {
                                    assert(s0[i] == s1[i]);
                                }
                            }
                        }
                        Ok(
                            JoinTicket {
                                lease: ConnectionLease { player_id, generation: 1 },
                                resumed: false,
                                token,
                                replaced: false,
                                greeting,
                                events,
                            },
                        )
                    },
                    Err(e) => Err(e),
                }
            },
        }
    }

    /// Second half of a join, once the greeting's delivery is known.
    pub fn finish_join(&mut self, ticket: JoinTicket, delivered: bool, now: GameTime) -> (r: (
        Result<JoinAccepted, JoinError>,
        Fanout,
    ))
        requires
            old(self).wf(),
        ensures
            final(self).wf(),
            join_finished(old(self)@, final(self)@, ticket, delivered, now, r.0, r.1),
    {
        let ghost t = ticket;
        let found = self.find_token(ticket.token);
        if delivered {
            match found {
                Some(k) => self.set_attached(k, true),
                None => {},
            }
            self.ever_joined = true;
            self.empty_since = None;
            let mut f = Room::nothing();
            let JoinTicket { lease, resumed, events, .. } = ticket;
            self.fanout_into(&mut f, events);
            assert(f.messages@ =~= messages_of(t.events@));
            assert(f.deliveries@ =~= fanout_deliveries(audiences(t.events@), self@.sessions, 0));
            (Ok(JoinAccepted { lease, resumed }), f)
        } else {
            match found {
                Some(k) => self.set_attached(k, false),
                None => {},
            }
            let ghost g0 = self.game@;
            let rd = self.game.disconnect_player(ticket.lease.player_id, now);
            proof {
                assert(disconnect_done(g0, self.game@, ticket.lease.player_id, now, seq_result(rd)));
            }
            if !ticket.resumed {
                self.ever_joined = true;
            }
            (Err(JoinError::OutboundUnavailable), Room::nothing())
        }
    }

    /// Handles one action received on a connection: stale leases are
    /// ignored, accepted actions are published, a removed player's browser
    /// is banned and dismissed, and a rejected action is explained to its
    /// author.
    pub fn action(&mut self, lease: ConnectionLease, action: PlayerAction, now: GameTime) -> (f: Fanout)
        requires
            old(self).wf(),
        ensures
            final(self).wf(),
            action_handled(old(self)@, final(self)@, lease, action, now, f),
    {
        if !self.is_current(lease) {
            return Room::nothing();
        }
        let kicked_target = match &action {
            PlayerAction::KickPlayer { player_id } => Some(*player_id),
            _ => None,
        };
        let ghost g0 = self.game@;
        let ghost a = action;
        let ra = self.game.apply(lease.player_id, action, now);
        proof {
            assert(apply_done(g0, self.game@, lease.player_id, a, now, seq_result(ra)));
        }
        match ra {
            Ok(events) => {
                let ghost evs = events@;
                let mut f = Room::nothing();
                match kicked_target {
                    Some(target) => {
                        match self.find_session(target) {
                            Some(k) => {
                                let s = self.sessions[k];
                                self.kicked.push(s.token);
                                self.sessions.remove(k);
                                if s.attached {
                                    f.messages.push(ServerMessage::Bye { reason: ByeReason::Kicked });
                                    f.deliveries.push(Delivery { message: 0, token: s.token });
                                    f.released.push(s.token);
                                }
                            },
                            None => {},
                        }
                    },
                    None => {},
                }
                let ghost d0 = f.deliveries@;
                let ghost m0 = f.messages@;
                let ghost r_mid = self@;
                self.fanout_into(&mut f, events);
                proof {
                    let b = match a {
                        PlayerAction::KickPlayer { player_id } => banned(old(self)@.sessions, old(self)@.kicked, player_id),
                        _ => (old(self)@.sessions, old(self)@.kicked, None),
                    };
                    lemma_session_of(old(self)@.sessions, kicked_target->0);
                    assert(self@.sessions == b.0);
                    assert(self@.kicked == b.1);
                    if b.2 is Some {
                        assert(f.messages@ =~= seq![ServerMessage::Bye { reason: ByeReason::Kicked }] + messages_of(evs));
                        assert(f.deliveries@ =~= seq![Delivery { message: 0, token: b.2->0 }] + fanout_deliveries(audiences(evs), b.0, 1));
                        assert(f.released@ =~= seq![b.2->0]);
                    } else {
                        assert(f.messages@ =~= messages_of(evs));
                        assert(f.deliveries@ =~= fanout_deliveries(audiences(evs), self@.sessions, 0));
                    }
                }
                f
            },
            Err(e) => {
                let message = ServerMessage::Error(e.as_protocol_error());
                let mut events: Vec<EmittedEvent> = Vec::new();
                events.push(EmittedEvent::player(lease.player_id, message));
                let mut f = Room::nothing();
                let ghost evs = events@;
                self.fanout_into(&mut f, events);
                proof {
                    assert(audiences(evs) =~= seq![Audience::Player(lease.player_id)]);
                    assert(f.deliveries@ =~= fanout_deliveries(seq![Audience::Player(lease.player_id)], self@.sessions, 0));
                    assert(f.messages@.len() == 1);
                    assert(f.messages@[0] == messages_of(evs)[0]);
                }
                f
            },
        }
    }

    /// A connection went away: releases its queue and marks its player away.
    pub fn leave(&mut self, lease: ConnectionLease, now: GameTime) -> (f: Fanout)
        requires
            old(self).wf(),
        ensures
            final(self).wf(),
            !lease_current(old(self)@.sessions, lease) ==> final(self)@ == old(self)@ && fanout_empty(f),
            lease_current(old(self)@.sessions, lease) ==> departure_handled(
                old(self)@,
                final(self)@,
                session_of(old(self)@.sessions, lease.player_id),
                now,
                f,
            ),
    {
        if !self.is_current(lease) {
            return Room::nothing();
        }
        match self.find_session(lease.player_id) {
            Some(k) => self.depart(k, now),
            None => Room::nothing(),
        }
    }

    /// A delivery to a browser failed: its queue is released and its player
    /// marked away.
    pub fn drop_slow(&mut self, token: ClientToken, now: GameTime) -> (f: Fanout)
        requires
            old(self).wf(),
        ensures
            final(self).wf(),
            session_by_token(old(self)@.sessions, token) < 0 ==> final(self)@ == old(self)@ && fanout_empty(f),
            session_by_token(old(self)@.sessions, token) >= 0 ==> departure_handled(
                old(self)@,
                final(self)@,
                session_by_token(old(self)@.sessions, token),
                now,
                f,
            ),
    {
        match self.find_token(token) {
            Some(k) => self.depart(k, now),
            None => Room::nothing(),
        }
    }

    /// Releases the queue of session `k` and marks its player away.
    fn depart(&mut self, k: usize, now: GameTime) -> (f: Fanout)
        requires
            old(self).wf(),
            k < old(self)@.sessions.len(),
        ensures
            final(self).wf(),
            departure_handled(old(self)@, final(self)@, k as int, now, f),
    {
        let s = self.sessions[k];
        self.set_attached(k, false);
        let ghost g0 = self.game@;
        let rd = self.game.disconnect_player(s.player_id, now);
        proof {
            assert(disconnect_done(g0, self.game@, s.player_id, now, seq_result(rd)));
        }
        let mut f = Room::nothing();
        f.released.push(s.token);
        match rd {
            Ok(events) => {
                self.fanout_into(&mut f, events);
            },
            Err(_) => {},
        }
        proof {
            assert(f.released@ =~= seq![s.token]);
            if rd is Ok {
                assert(f.messages@ =~= messages_of(seq_result(rd)->Ok_0));
                assert(f.deliveries@ =~= fanout_deliveries(audiences(seq_result(rd)->Ok_0), self@.sessions, 0));
            }
        }
        f
    }

    /// Fires the due game deadlines at `now`, at most eight of them, then
    /// updates the empty-room clock.
    pub fn advance_deadlines(&mut self, now: GameTime) -> (f: Fanout)
        requires
            old(self).wf(),
        ensures
            final(self).wf(),
            exists|evs: Seq<EmittedEvent>|
                #![trigger deadlines_fired(old(self)@.game, final(self)@.game, now, 8, evs)]
                deadlines_fired(old(self)@.game, final(self)@.game, now, 8, evs) && fanout_of(
                    f,
                    evs,
                    old(self)@.sessions,
                ),
            final(self)@ == (RoomView {
                game: final(self)@.game,
                empty_since: final(self)@.empty_since,
                ..old(self)@
            }),
            final(self)@.empty_since == empty_since_after(
                RoomView { game: final(self)@.game, ..old(self)@ },
                now,
            ),
    {
        let ghost r0 = self@;
        let mut f = Room::nothing();
        let ghost mut fired: Seq<EmittedEvent> = Seq::empty();
        assert(f.messages@ =~= messages_of(fired));
        assert(f.deliveries@ =~= fanout_deliveries(audiences(fired), r0.sessions, 0));
        assert forall|rest: Seq<EmittedEvent>, g1: GameView|
            deadlines_fired(self@.game, g1, now, 8, rest) implies deadlines_fired(
                r0.game,
                g1,
                now,
                8,
                fired + rest,
            ) by {
            assert(fired + rest =~= rest);
        }
        let mut n: usize = 0;
        while n < 8 && self.deadline_due(now)
            invariant
                r0 == old(self)@,
                self.wf(),
                n <= 8,
                self@ == (RoomView { game: self@.game, ..r0 }),
                forall|rest: Seq<EmittedEvent>, g1: GameView|
                    #[trigger] deadlines_fired(self@.game, g1, now, (8 - n) as nat, rest) ==> deadlines_fired(
                        r0.game,
                        g1,
                        now,
                        8,
                        fired + rest,
                    ),
                fanout_of(f, fired, r0.sessions),
            decreases 8 - n,
        {
            let ghost g0 = self.game@;
            let r = self.game.handle_deadline(now);
            proof {
                assert(deadline_done(g0, self.game@, now, seq_result(r)));
            }
            match r {
                Ok(events) => {
                    let ghost e1 = events@;
                    self.fanout_into(&mut f, events);
                    proof {
                        lemma_fanout_append(audiences(fired), audiences(e1), r0.sessions, 0);
                        assert(audiences(fired + e1) =~= audiences(fired) + audiences(e1));
                        assert(messages_of(fired + e1) =~= messages_of(fired) + messages_of(e1));
                        assert forall|rest: Seq<EmittedEvent>, g1: GameView|
                            #[trigger] deadlines_fired(self@.game, g1, now, (8 - n - 1) as nat, rest) implies deadlines_fired(
                                r0.game,
                                g1,
                                now,
                                8,
                                fired + e1 + rest,
                            ) by {
                            assert((e1 + rest).take(e1.len() as int) =~= e1);
                            assert((e1 + rest).skip(e1.len() as int) =~= rest);
                            assert(deadlines_fired(g0, g1, now, (8 - n) as nat, e1 + rest));
                            assert(fired + (e1 + rest) =~= fired + e1 + rest);
                        }
                        fired = fired + e1;
                    }
                },
                Err(_) => {
                    proof {
                        assert(deadlines_fired(g0, self@.game, now, (8 - n) as nat, Seq::empty()));
                        assert(fired + Seq::<EmittedEvent>::empty() =~= fired);
                        assert(deadlines_fired(r0.game, self@.game, now, 8, fired));
                    }
                    self.update_empty_deadline(now);
                    return f;
                },
            }
            n = n + 1;
        }
        proof {
            assert(deadlines_fired(self@.game, self@.game, now, (8 - n) as nat, Seq::empty()));
            assert(fired + Seq::<EmittedEvent>::empty() =~= fired);
            assert(deadlines_fired(r0.game, self@.game, now, 8, fired));
        }
        self.update_empty_deadline(now);
        f
    }

    /// Whether a game deadline is due at `now`.
    fn deadline_due(&self, now: GameTime) -> (r: bool)
        ensures
            r == (next_deadline_of(self@.game.phase) matches Some(d) && now.0 >= d.0),
    {
        match self.game.next_deadline() {
            Some(d) => d.is_due(now),
            None => false,
        }
    }

    /// Says goodbye to every attached browser and releases every queue.
    pub fn close_all(&mut self, reason: ByeReason) -> (f: Fanout)
        requires
            old(self).wf(),
        ensures
            final(self).wf(),
            f.messages@ == seq![ServerMessage::Bye { reason }],
            f.deliveries@ == deliveries_of(0, recipients(Audience::Everyone, old(self)@.sessions)),
            f.released@ == recipients(Audience::Everyone, old(self)@.sessions),
            final(self)@ == (RoomView {
                sessions: Seq::new(
                    old(self)@.sessions.len(),
                    |i: int| Session { attached: false, ..old(self)@.sessions[i] },
                ),
                ..old(self)@
            }),
    {
        let ghost s0 = self@.sessions;
        let mut f = Room::nothing();
        f.messages.push(ServerMessage::Bye { reason });
        let mut k: usize = 0;
        while k < self.sessions.len()
            invariant
                self.wf(),
                k <= self@.sessions.len(),
                self@.sessions.len() == s0.len(),
                self@ == (RoomView { sessions: self@.sessions, ..old(self)@ }),
                forall|j: int| 0 <= j < k ==> #[trigger] self@.sessions[j] == (Session { attached: false, ..s0[j] }),
                forall|j: int| k <= j < s0.len() ==> #[trigger] self@.sessions[j] == s0[j],
                f.messages@ == seq![ServerMessage::Bye { reason }],
                f.deliveries@ == deliveries_of(0, recipients(Audience::Everyone, s0.take(k as int))),
                f.released@ == recipients(Audience::Everyone, s0.take(k as int)),
            decreases self.sessions.len() - k,
        {
            assert(s0.take(k + 1).drop_last() =~= s0.take(k as int));
            let s = self.sessions[k];
            if s.attached {
                f.deliveries.push(Delivery { message: 0, token: s.token });
                f.released.push(s.token);
                self.set_attached(k, false);
            }
            k = k + 1;
            assert(f.deliveries@ =~= deliveries_of(0, recipients(Audience::Everyone, s0.take(k as int))));
        }
        assert(s0.take(k as int) =~= s0);
        assert(self@.sessions =~= Seq::new(s0.len(), |i: int| Session { attached: false, ..s0[i] }));
        f
    }

    /// The lifecycle notice announcing that this room ended.
    pub fn exit_notice(&self, reason: RoomExitReason) -> (e: RoomExit)
        ensures
            e == (RoomExit { room_code: self@.room_code, room_generation: self@.room_generation, reason }),
    {
        RoomExit { room_code: self.room_code, room_generation: self.room_generation, reason }
    }
}

/// A kick that the rules accept bans the kicked player's browser: its token
/// joins the banned list and its session is forgotten.
pub proof fn lemma_accepted_kick_bans(
    r0: RoomView,
    r1: RoomView,
    lease: ConnectionLease,
    target: PlayerId,
    now: GameTime,
    f: Fanout,
)
    requires
        lease_current(r0.sessions, lease),
        player_connected(r0.game.players, lease.player_id),
        !(next_deadline_of(r0.game.phase) matches Some(dl) && now.0 >= dl.0),
        kick_refusal(r0.game, lease.player_id, target) is None,
        session_of(r0.sessions, target) >= 0,
        action_handled(r0, r1, lease, PlayerAction::KickPlayer { player_id: target }, now, f),
    ensures
        r1.kicked == r0.kicked.push(r0.sessions[session_of(r0.sessions, target)].token),
        r1.sessions == r0.sessions.remove(session_of(r0.sessions, target)),
{
    let action = PlayerAction::KickPlayer { player_id: target };
    let ra = choose|ra: Result<Seq<EmittedEvent>, RuleError>|
        apply_done(r0.game, r1.game, lease.player_id, action, now, ra) && action_outcome(r0, r1, lease, action, f, ra);
    assert(apply_done(r0.game, r1.game, lease.player_id, action, now, ra));
    assert(kick_done(r0.game, r1.game, lease.player_id, target, now, ra));
    assert(ra is Ok);
}

/// A banned browser stays banned whatever action the room handles.
pub proof fn lemma_action_keeps_bans(
    r0: RoomView,
    r1: RoomView,
    lease: ConnectionLease,
    action: PlayerAction,
    now: GameTime,
    f: Fanout,
    token: ClientToken,
)
    requires
        r0.kicked.contains(token),
        action_handled(r0, r1, lease, action, now, f),
    ensures
        r1.kicked.contains(token),
{
    if lease_current(r0.sessions, lease) {
        let ra = choose|ra: Result<Seq<EmittedEvent>, RuleError>|
            apply_done(r0.game, r1.game, lease.player_id, action, now, ra) && action_outcome(r0, r1, lease, action, f, ra);
        let i = choose|i: int| 0 <= i < r0.kicked.len() && r0.kicked[i] == token;
        if ra is Ok {
            match action {
                PlayerAction::KickPlayer { player_id } => {
                    if session_of(r0.sessions, player_id) >= 0 {
                        assert(r1.kicked[i] == token);
                    }
                },
                _ => {},
            }
        }
    }
}

/// A join from a banned browser is refused and changes nothing.
pub proof fn lemma_banned_join_refused(
    r0: RoomView,
    r1: RoomView,
    token: ClientToken,
    profile: PlayerProfile,
    res: Result<JoinTicket, JoinError>,
)
    requires
        r0.kicked.contains(token),
        join_begun(r0, r1, token, profile, res),
    ensures
        res matches Err(e) && e == JoinError::Kicked,
        r1 == r0,
{
}

/// The room never sleeps past a deadline: it wakes no later than the lobby
/// expiry while in the lobby, the next game deadline, and the empty-room
/// expiry, or at once when one of them has passed.
pub proof fn lemma_wake_precedes_deadlines(r: RoomView, now: GameTime)
    ensures
        r.game.phase is Lobby ==> wake_at(r, now) <= if r.lobby_timeout_ms >= now.0 {
            r.lobby_timeout_ms
        } else {
            now.0
        },
        next_deadline_of(r.game.phase) matches Some(d) ==> wake_at(r, now) <= if d.0 >= now.0 {
            d.0
        } else {
            now.0
        },
        r.empty_since matches Some(t) ==> wake_at(r, now) <= if sat_add(t.0, r.empty_timeout_ms) >= now.0 {
            sat_add(t.0, r.empty_timeout_ms)
        } else {
            now.0
        },
        wake_at(r, now) >= now.0,
{
}

/// Resuming fences the previous connection: once a browser has resumed its
/// player, no lease issued to an earlier connection of that player is
/// current, whether or not the greeting reached the new connection, so a
/// late departure or action carrying such a lease changes nothing; the new
/// connection's lease is current once its greeting was delivered.
pub proof fn lemma_resume_fences_earlier_leases(
    room: Room,
    r1: RoomView,
    r2: RoomView,
    earlier: ConnectionLease,
    token: ClientToken,
    profile: PlayerProfile,
    t: JoinTicket,
    delivered: bool,
    now: GameTime,
    res: Result<JoinAccepted, JoinError>,
    f: Fanout,
)
    requires
        room.wf(),
        session_by_token(room@.sessions, token) >= 0,
        earlier.player_id == room@.sessions[session_by_token(room@.sessions, token)].player_id,
        earlier.generation <= room@.sessions[session_by_token(room@.sessions, token)].generation,
        room@.sessions[session_by_token(room@.sessions, token)].generation < u64::MAX,
        join_begun(room@, r1, token, profile, Ok(t)),
        join_finished(r1, r2, t, delivered, now, res, f),
    ensures
        !lease_current(r1.sessions, earlier),
        !lease_current(r2.sessions, earlier),
        delivered ==> lease_current(r2.sessions, t.lease),
{
    let s0 = room@.sessions;
    let k = session_by_token(s0, token);
    lemma_session_by_token(s0, token);
    assert(!room@.kicked.contains(token));
    let s1 = r1.sessions;
    assert(s1.len() == s0.len());
    assert forall|i: int, j: int| 0 <= i < j < s1.len() implies (#[trigger] s1[i]).token != (
    #[trigger] s1[j]).token && s1[i].player_id != s1[j].player_id by {
        assert(s0[i].token != s0[j].token);
    }
    lemma_session_of_at(s1, k);
    lemma_session_by_token_at(s1, k);
    assert(s1[k].token == token);
    assert(t.token == token);
    let s2 = r2.sessions;
    assert(s2.len() == s1.len());
    assert forall|i: int, j: int| 0 <= i < j < s2.len() implies (#[trigger] s2[i]).player_id
        != (#[trigger] s2[j]).player_id by {
        assert(s2[i].player_id == s1[i].player_id && s2[j].player_id == s1[j].player_id);
    }
    lemma_session_of_at(s2, k);
}

/// A join whose greeting was delivered is accepted, and the lease it hands
/// out is the current one of its player.
pub proof fn lemma_delivered_join_is_current(
    room: Room,
    r1: RoomView,
    r2: RoomView,
    token: ClientToken,
    profile: PlayerProfile,
    t: JoinTicket,
    now: GameTime,
    res: Result<JoinAccepted, JoinError>,
    f: Fanout,
)
    requires
        room.wf(),
        join_begun(room@, r1, token, profile, Ok(t)),
        join_finished(r1, r2, t, true, now, res, f),
    ensures
        res == Ok::<JoinAccepted, JoinError>(JoinAccepted { lease: t.lease, resumed: t.resumed }),
        lease_current(r2.sessions, t.lease),
{
    let s0 = room@.sessions;
    lemma_session_by_token(s0, token);
    assert(!room@.kicked.contains(token));
    let s1 = r1.sessions;
    let k = if session_by_token(s0, token) >= 0 {
        session_by_token(s0, token)
    } else {
        s0.len() as int
    };
    if session_by_token(s0, token) < 0 {
        let claim = token == room@.creator_token;
        let ra = choose|ra: Result<(PlayerId, Vec<EmittedEvent>), JoinError>|
            #![trigger add_done(room@.game, r1.game, profile, claim, ra)]
            add_done(room@.game, r1.game, profile, claim, ra) && addition_outcome(room@, r1, token, Ok(t), ra);
        assert(ra is Ok);
        assert forall|i: int, j: int| 0 <= i < j < s1.len() implies (#[trigger] s1[i]).token != (
        #[trigger] s1[j]).token && s1[i].player_id != s1[j].player_id by {
            if j == s1.len() - 1 {
                assert(s0[i].token != token);
                assert(s0[i].player_id.0 < room@.game.next_player_id);
            } else {
                assert(s0[i].token != s0[j].token);
            }
        }
    } else {
        assert forall|i: int, j: int| 0 <= i < j < s1.len() implies (#[trigger] s1[i]).token != (
        #[trigger] s1[j]).token && s1[i].player_id != s1[j].player_id by {
            assert(s0[i].token != s0[j].token);
        }
    }
    lemma_session_by_token_at(s1, k);
    assert(s1[k].token == token);
    let s2 = r2.sessions;
    assert(s2.len() == s1.len());
    assert forall|i: int, j: int| 0 <= i < j < s2.len() implies (#[trigger] s2[i]).player_id
        != (#[trigger] s2[j]).player_id by {
        assert(s2[i].player_id == s1[i].player_id && s2[j].player_id == s1[j].player_id);
    }
    lemma_session_of_at(s2, k);
}

/// With distinct players, a session is found by its own player.
proof fn lemma_session_of_at(s: Seq<Session>, k: int)
    requires
        0 <= k < s.len(),
        forall|i: int, j: int| 0 <= i < j < s.len() ==> (#[trigger] s[i]).player_id != (#[trigger] s[j]).player_id,
    ensures
        session_of(s, s[k].player_id) == k,
{
    lemma_session_of(s, s[k].player_id);
    let found = session_of(s, s[k].player_id);
    if found != k {
        assert(found >= 0 ==> s[found].player_id == s[k].player_id);
    }
}

/// With distinct browsers, a session is found by its own token.
proof fn lemma_session_by_token_at(s: Seq<Session>, k: int)
    requires
        0 <= k < s.len(),
        forall|i: int, j: int| 0 <= i < j < s.len() ==> (#[trigger] s[i]).token != (#[trigger] s[j]).token,
    ensures
        session_by_token(s, s[k].token) == k,
{
    lemma_session_by_token(s, s[k].token);
    let found = session_by_token(s, s[k].token);
    if found != k {
        assert(found >= 0 ==> s[found].token == s[k].token);
    }
}

proof fn lemma_session_of(s: Seq<Session>, p: PlayerId)
    ensures
        -1 <= session_of(s, p) < s.len(),
        session_of(s, p) >= 0 ==> s[session_of(s, p)].player_id == p,
        forall|j: int|
            0 <= j < s.len() && (session_of(s, p) < 0 || j < session_of(s, p)) ==> (
            #[trigger] s[j]).player_id != p,
    decreases s.len(),
{
    if s.len() > 0 {
        lemma_session_of(s.drop_last(), p);
        assert forall|j: int|
            0 <= j < s.len() && (session_of(s, p) < 0 || j < session_of(s, p)) implies (
            #[trigger] s[j]).player_id != p by {
            if j < s.len() - 1 {
                assert(s[j] == s.drop_last()[j]);
            }
        }
        if session_of(s.drop_last(), p) >= 0 {
            assert(s[session_of(s, p)] == s.drop_last()[session_of(s, p)]);
        }
    }
}

proof fn lemma_session_by_token(s: Seq<Session>, t: ClientToken)
    ensures
        -1 <= session_by_token(s, t) < s.len(),
        session_by_token(s, t) >= 0 ==> s[session_by_token(s, t)].token == t,
        forall|j: int|
            0 <= j < s.len() && (session_by_token(s, t) < 0 || j < session_by_token(s, t)) ==> (
            #[trigger] s[j]).token != t,
    decreases s.len(),
{
    if s.len() > 0 {
        lemma_session_by_token(s.drop_last(), t);
        assert forall|j: int|
            0 <= j < s.len() && (session_by_token(s, t) < 0 || j < session_by_token(s, t)) implies (
            #[trigger] s[j]).token != t by {
            if j < s.len() - 1 {
                assert(s[j] == s.drop_last()[j]);
            }
        }
        if session_by_token(s.drop_last(), t) >= 0 {
            assert(s[session_by_token(s, t)] == s.drop_last()[session_by_token(s, t)]);
        }
    }
}

} // verus!
