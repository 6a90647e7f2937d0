//! Synchronous server-authoritative game state machine.

pub mod command;
pub mod event;
pub mod state;
pub mod views;
pub mod turns;
pub mod roster;
pub mod actions;
pub mod laws;

use vstd::prelude::*;

use crate::failure::{GameBuildError, RuleError};
use crate::ids::PlayerId;
use crate::limit::MAX_CHAT_HISTORY;
use crate::model::{ChatEvent, RoomSettings};
use crate::time::GameDeadline;
use crate::validate::{check_chat, check_profile, check_settings, Validate};
use crate::shuffle::seeded_order;
use crate::words::{deck_check, pool_ok, pool_word_ok, texts, WordDeck};

pub use command::PlayerAction;
pub use event::{Audience, EmittedEvent};
pub use state::{
    ChoosingWordState, DrawingState, GameStateView, LobbyState, PhaseState, PlayerState,
    RoundEndState,
};

verus! {

/// Milliseconds given to the drawer to select a word.
pub const WORD_CHOICE_DURATION: u128 = 15_000;

/// Milliseconds for which turn results remain visible.
pub const ROUND_END_DURATION: u128 = 6_000;

/// Mathematical state of a game.
#[verifier::ext_equal]
pub struct GameView {
    pub settings: RoomSettings,
    /// Players in join order.
    pub players: Seq<PlayerState>,
    pub host: Option<PlayerId>,
    pub phase: PhaseState,
    pub round: u8,
    /// Players still to draw in the current round, in order.
    pub remaining_drawers: Seq<PlayerId>,
    pub next_player_id: u32,
    pub next_turn_id: u32,
    pub next_joined_order: u64,
    pub unix_origin_ms: u64,
    /// Recent chat, oldest first.
    pub chat_history: Seq<ChatEvent>,
    /// The word pool offers are dealt from.
    pub pool: Seq<Seq<char>>,
    /// Pool indices left in the word deck's current cycle, in order.
    pub deck_upcoming: Seq<usize>,
    /// The seed the word deck was made with.
    pub deck_seed: Seq<u8>,
    /// The number of shuffles the word deck has made.
    pub deck_shuffles: nat,
}

/// Deterministic authoritative game state for one room.
pub struct Game {
    settings: RoomSettings,
    players: Vec<PlayerState>,
    host: Option<PlayerId>,
    phase: PhaseState,
    round: u8,
    remaining_drawers: Vec<PlayerId>,
    next_player_id: u32,
    next_turn_id: u32,
    next_joined_order: u64,
    words: WordDeck,
    unix_origin_ms: u64,
    chat_history: Vec<ChatEvent>,
}

impl View for Game {
    type V = GameView;

    closed spec fn view(&self) -> GameView {
        GameView {
            settings: self.settings,
            players: self.players@,
            host: self.host,
            phase: self.phase,
            round: self.round,
            remaining_drawers: self.remaining_drawers@,
            next_player_id: self.next_player_id,
            next_turn_id: self.next_turn_id,
            next_joined_order: self.next_joined_order,
            unix_origin_ms: self.unix_origin_ms,
            chat_history: self.chat_history@,
            pool: self.words.pool(),
            deck_upcoming: self.words.upcoming(),
            deck_seed: self.words.seed(),
            deck_shuffles: self.words.shuffles(),
        }
    }
}

// ---------------------------------------------------------------------------
// Roster model
// ---------------------------------------------------------------------------

/// Position of the first player with this identity, or -1.
pub open spec fn find_player(ps: Seq<PlayerState>, id: PlayerId) -> int
    decreases ps.len(),
{
    if ps.len() == 0 {
        -1
    } else {
        let k = find_player(ps.drop_last(), id);
        if k >= 0 {
            k
        } else if ps.last().player_id == id {
            ps.len() - 1
        } else {
            -1
        }
    }
}

/// Whether the roster holds this identity.
pub open spec fn has_player(ps: Seq<PlayerState>, id: PlayerId) -> bool {
    find_player(ps, id) >= 0
}

/// Whether the roster holds this identity with an attached connection.
pub open spec fn player_connected(ps: Seq<PlayerState>, id: PlayerId) -> bool {
    find_player(ps, id) >= 0 && ps[find_player(ps, id)].connected
}

/// No identity occurs twice.
pub open spec fn ids_unique(ps: Seq<PlayerState>) -> bool {
    forall|i: int, j: int|
        0 <= i < ps.len() && 0 <= j < ps.len() && i != j ==> #[trigger] ps[i].player_id
            != #[trigger] ps[j].player_id
}

/// Identities of the connected players, in roster order.
pub open spec fn connected_ids(ps: Seq<PlayerState>) -> Seq<PlayerId>
    decreases ps.len(),
{
    if ps.len() == 0 {
        Seq::empty()
    } else {
        let r = connected_ids(ps.drop_last());
        if ps.last().connected {
            r.push(ps.last().player_id)
        } else {
            r
        }
    }
}

/// Number of connected players.
pub open spec fn count_connected(ps: Seq<PlayerState>) -> nat {
    connected_ids(ps).len()
}

/// The earliest-joined connected player.
pub open spec fn oldest_connected(ps: Seq<PlayerState>) -> Option<PlayerId> {
    if connected_ids(ps).len() > 0 {
        Some(connected_ids(ps)[0])
    } else {
        None
    }
}

/// The events of a result, as a sequence.
pub open spec fn seq_result(r: Result<Vec<EmittedEvent>, RuleError>) -> Result<Seq<EmittedEvent>, RuleError> {
    match r {
        Ok(v) => Ok(v@),
        Err(e) => Err(e),
    }
}

/// Every key occurs once.
pub open spec fn keys_unique<V>(s: Seq<(PlayerId, V)>) -> bool {
    forall|i: int, j: int|
        0 <= i < s.len() && 0 <= j < s.len() && i != j ==> #[trigger] s[i].0 != #[trigger] s[j].0
}

pub proof fn lemma_find_player(ps: Seq<PlayerState>, id: PlayerId)
    ensures
        -1 <= find_player(ps, id) < ps.len(),
        find_player(ps, id) >= 0 ==> ps[find_player(ps, id)].player_id == id,
        forall|j: int|
            0 <= j < ps.len() && (find_player(ps, id) < 0 || j < find_player(ps, id))
                ==> #[trigger] ps[j].player_id != id,
    decreases ps.len(),
{
    if ps.len() > 0 {
        lemma_find_player(ps.drop_last(), id);
        assert forall|j: int|
            0 <= j < ps.len() && (find_player(ps, id) < 0 || j < find_player(ps, id))
                implies #[trigger] ps[j].player_id != id by {
            if j < ps.len() - 1 {
                assert(ps[j] == ps.drop_last()[j]);
            }
        }
    }
}

/// Lookup depends on the identities alone.
pub proof fn lemma_find_same_ids(a: Seq<PlayerState>, b: Seq<PlayerState>, id: PlayerId)
    requires
        a.len() == b.len(),
        forall|j: int| 0 <= j < a.len() ==> (#[trigger] a[j]).player_id == b[j].player_id,
    ensures
        find_player(a, id) == find_player(b, id),
    decreases a.len(),
{
    if a.len() > 0 {
        lemma_find_same_ids(a.drop_last(), b.drop_last(), id);
        assert(a.last().player_id == b[b.len() - 1].player_id);
    }
}

/// Identities other than `id`, in order.
pub open spec fn without_id(s: Seq<PlayerId>, id: PlayerId) -> Seq<PlayerId> {
    s.filter(|x: PlayerId| x != id)
}

pub proof fn lemma_without_id(s: Seq<PlayerId>, id: PlayerId)
    ensures
        forall|x: PlayerId| without_id(s, id).contains(x) <==> s.contains(x) && x != id,
        s.no_duplicates() ==> without_id(s, id).no_duplicates(),
    decreases s.len(),
{
    reveal(Seq::filter);
    if s.len() > 0 {
        let p = s.drop_last();
        lemma_without_id(p, id);
        let f = without_id(p, id);
        assert forall|x: PlayerId| without_id(s, id).contains(x) <==> s.contains(x) && x != id by {
            if without_id(s, id).contains(x) {
                let j = choose|j: int| 0 <= j < without_id(s, id).len() && without_id(s, id)[j] == x;
                if j < f.len() {
                    assert(f[j] == x);
                    assert(f.contains(x));
                    assert(p.contains(x));
                    let k = choose|k: int| 0 <= k < p.len() && p[k] == x;
                    assert(s[k] == x);
                } else {
                    assert(s[s.len() - 1] == x);
                }
            }
            if s.contains(x) && x != id {
                let k = choose|k: int| 0 <= k < s.len() && s[k] == x;
                if k < s.len() - 1 {
                    assert(p[k] == x);
                    assert(p.contains(x));
                    assert(f.contains(x));
                    let j = choose|j: int| 0 <= j < f.len() && f[j] == x;
                    assert(without_id(s, id)[j] == x);
                } else {
                    assert(without_id(s, id)[without_id(s, id).len() - 1] == x);
                }
            }
        }
        if s.no_duplicates() {
            assert(p.no_duplicates());
            if s.last() != id {
                assert(!p.contains(s.last()));
                assert(!f.contains(s.last()));
                assert(without_id(s, id) =~= f.push(s.last()));
            } else {
                assert(without_id(s, id) =~= f);
            }
        }
    }
}

/// With unique identities, the player at position `i` is found at `i`.
pub proof fn lemma_find_unique(ps: Seq<PlayerState>, i: int)
    requires
        ids_unique(ps),
        0 <= i < ps.len(),
    ensures
        find_player(ps, ps[i].player_id) == i,
{
    lemma_find_player(ps, ps[i].player_id);
}

/// Roster position of the `k`-th connected player.
pub open spec fn connected_index(ps: Seq<PlayerState>, k: int) -> int
    decreases ps.len(),
{
    if ps.len() == 0 {
        -1
    } else if k < connected_ids(ps.drop_last()).len() {
        connected_index(ps.drop_last(), k)
    } else {
        ps.len() - 1
    }
}

pub proof fn lemma_connected_ids(ps: Seq<PlayerState>)
    ensures
        connected_ids(ps).len() <= ps.len(),
        forall|k: int|
            0 <= k < connected_ids(ps).len() ==> #[trigger] connected_index(ps, k) < ps.len()
                && 0 <= connected_index(ps, k) && ps[connected_index(ps, k)].connected
                && ps[connected_index(ps, k)].player_id == connected_ids(ps)[k],
        forall|i: int|
            0 <= i < ps.len() && #[trigger] ps[i].connected ==> connected_ids(ps).contains(
                ps[i].player_id,
            ),
    decreases ps.len(),
{
    if ps.len() > 0 {
        let p = ps.drop_last();
        lemma_connected_ids(p);
        let r = connected_ids(p);
        assert forall|k: int| 0 <= k < connected_ids(ps).len() implies #[trigger] connected_index(
            ps,
            k,
        ) < ps.len() && 0 <= connected_index(ps, k) && ps[connected_index(ps, k)].connected
            && ps[connected_index(ps, k)].player_id == connected_ids(ps)[k] by {
            if k < r.len() {
                let j = connected_index(p, k);
                assert(connected_index(ps, k) == j);
                assert(ps[j] == p[j]);
                assert(connected_ids(ps)[k] == r[k]);
            }
        }
        assert forall|i: int| 0 <= i < ps.len() && #[trigger] ps[i].connected implies connected_ids(
            ps,
        ).contains(ps[i].player_id) by {
            if i < ps.len() - 1 {
                assert(ps[i] == p[i]);
                assert(r.contains(ps[i].player_id));
                let k = choose|k: int| 0 <= k < r.len() && r[k] == ps[i].player_id;
                assert(connected_ids(ps)[k] == ps[i].player_id);
            } else {
                assert(connected_ids(ps)[r.len() as int] == ps[i].player_id);
            }
        }
    } else {
        assert(connected_ids(ps).len() == 0);
    }
}

// ---------------------------------------------------------------------------
// Game invariant
// ---------------------------------------------------------------------------

/// Structural facts each phase keeps.
pub open spec fn phase_wf(p: PhaseState, s: RoomSettings, pool: Seq<Seq<char>>) -> bool {
    match p {
        PhaseState::ChoosingWord(c) => {
            &&& c.options@.len() == s.word_choices
            &&& forall|i: int| 0 <= i < c.options@.len() ==> #[trigger] pool_word_ok(c.options@[i]@)
        },
        PhaseState::Drawing(d) => {
            &&& d.word_characters@ == d.secret_word@
            &&& d.revealed@.len() == d.word_characters@.len()
            &&& pool_word_ok(d.secret_word@)
            &&& d.canvas.wf()
            &&& d.next_hint <= d.hint_deadlines@.len()
            &&& d.guessed@.no_duplicates()
            &&& keys_unique(d.guess_awards@)
        },
        PhaseState::RoundEnd(r) => {
            &&& pool_word_ok(r.secret_word@)
            &&& r.canvas.wf()
            &&& r.canvas@.active is None
            &&& keys_unique(r.votes@)
        },
        _ => true,
    }
}

/// The game invariant over its mathematical state.
pub open spec fn game_wf(g: GameView) -> bool {
    &&& check_settings(g.settings) is Ok
    &&& ids_unique(g.players)
    &&& forall|i: int| 0 <= i < g.players.len() ==> (#[trigger] g.players[i]).player_id.0 < g.next_player_id
    &&& g.players.len() <= g.settings.max_players
    &&& forall|i: int| 0 <= i < g.players.len() ==> check_profile((#[trigger] g.players[i]).profile) is Ok
    &&& (g.host matches Some(h) ==> has_player(g.players, h))
    &&& g.pool.len() >= g.settings.word_choices
    &&& g.chat_history.len() <= MAX_CHAT_HISTORY
    &&& forall|i: int| 0 <= i < g.chat_history.len() ==> check_chat(#[trigger] g.chat_history[i]) is Ok
    &&& phase_wf(g.phase, g.settings, g.pool)
    &&& g.round <= g.settings.rounds
}

impl Game {
    /// The game invariant.
    pub closed spec fn wf(&self) -> bool {
        &&& game_wf(self@)
        &&& self.words.wf()
    }

    /// The word deck of a consistent game has an acceptable pool and a cycle
    /// of distinct pool indices.
    pub proof fn lemma_deck_cycle(&self)
        requires
            self.wf(),
        ensures
            pool_ok(self@.pool),
            self@.deck_upcoming.no_duplicates(),
            forall|i: int|
                0 <= i < self@.deck_upcoming.len() ==> #[trigger] self@.deck_upcoming[i] < self@.pool.len(),
    {
        self.words.lemma_cycle_has_no_repeats();
    }

    /// Constructs a validated lobby.
    ///
    /// `unix_origin_ms` maps deterministic room-relative deadlines into the
    /// timestamps displayed by clients.
    pub fn new(
        settings: RoomSettings,
        words: Vec<String>,
        random_seed: [u8; 32],
        unix_origin_ms: u64,
        lobby_deadline: GameDeadline,
    ) -> (r: Result<Self, GameBuildError>)
        ensures
            match r {
                Ok(g) => {
                    &&& check_settings(settings) is Ok
                    &&& deck_check(texts(words@), settings.word_choices as usize) is Ok
                    &&& g.wf()
                    &&& g@.settings == settings
                    &&& g@.players == Seq::<PlayerState>::empty()
                    &&& g@.host is None
                    &&& (g@.phase matches PhaseState::Lobby(l) && l.deadline == lobby_deadline)
                    &&& g@.round == 0
                    &&& g@.remaining_drawers == Seq::<PlayerId>::empty()
                    &&& g@.next_player_id == 1
                    &&& g@.next_turn_id == 1
                    &&& g@.next_joined_order == 0
                    &&& g@.unix_origin_ms == unix_origin_ms
                    &&& g@.chat_history == Seq::<ChatEvent>::empty()
                    &&& g@.pool == texts(words@)
                    &&& g@.deck_seed == random_seed@
                    &&& g@.deck_shuffles == 1
                    &&& g@.deck_upcoming == seeded_order(random_seed@, 1, words@.len() as nat)
                },
                Err(GameBuildError::InvalidSettings(e)) => check_settings(settings) == Err::<(), _>(e),
                Err(GameBuildError::WordDeck(e)) => {
                    &&& check_settings(settings) is Ok
                    &&& deck_check(texts(words@), settings.word_choices as usize) == Err::<(), _>(e)
                },
            },
    {
        match settings.validate() {
            Ok(()) => {},
            Err(e) => {
                return Err(GameBuildError::InvalidSettings(e));
            },
        }
        let word_choices = settings.word_choices as usize;
        let deck = match WordDeck::new(words, word_choices, random_seed) {
            Ok(d) => d,
            Err(e) => {
                return Err(GameBuildError::WordDeck(e));
            },
        };
        let g = Game {
            settings,
            players: Vec::new(),
            host: None,
            phase: PhaseState::Lobby(LobbyState { deadline: lobby_deadline }),
            round: 0,
            remaining_drawers: Vec::new(),
            next_player_id: 1,
            next_turn_id: 1,
            next_joined_order: 0,
            words: deck,
            unix_origin_ms,
            chat_history: Vec::new(),
        };
        Ok(g)
    }

    /// Returns immutable room configuration.
    pub fn settings(&self) -> (s: RoomSettings)
        ensures
            s == self@.settings,
    {
        self.settings
    }

    /// Returns whether new identities may enter the room.
    pub fn is_lobby(&self) -> (r: bool)
        ensures
            r == (self@.phase is Lobby),
    {
        match self.phase {
            PhaseState::Lobby(_) => true,
            _ => false,
        }
    }

    /// Position of a player in the roster.
    fn index_of(&self, player_id: PlayerId) -> (r: Option<usize>)
        ensures
            match r {
                Some(i) => {
                    &&& find_player(self@.players, player_id) == i as int
                    &&& i < self@.players.len()
                    &&& self@.players[i as int].player_id == player_id
                },
                None => find_player(self@.players, player_id) < 0,
            },
    {
        proof {
            lemma_find_player(self@.players, player_id);
        }
        let mut i: usize = 0;
        while i < self.players.len()
            invariant
                i <= self.players@.len(),
                forall|j: int| 0 <= j < i ==> #[trigger] self.players@[j].player_id != player_id,
                -1 <= find_player(self@.players, player_id) < self@.players.len(),
                find_player(self@.players, player_id) >= 0 ==> self@.players[find_player(
                    self@.players,
                    player_id,
                )].player_id == player_id,
                forall|j: int|
                    0 <= j < self@.players.len() && (find_player(self@.players, player_id) < 0 || j
                        < find_player(self@.players, player_id)) ==> #[trigger] self@.players[j].player_id
                        != player_id,
            decreases self.players.len() - i,
        {
            if self.players[i].player_id == player_id {
                return Some(i);
            }
            i = i + 1;
        }
        None
    }

    /// Returns whether this player identity is retained by the game.
    pub fn has_player(&self, player_id: PlayerId) -> (r: bool)
        ensures
            r == has_player(self@.players, player_id),
    {
        self.index_of(player_id).is_some()
    }

    /// Returns whether this player currently has a connection.
    pub fn is_connected(&self, player_id: PlayerId) -> (r: bool)
        ensures
            r == player_connected(self@.players, player_id),
    {
        match self.index_of(player_id) {
            Some(i) => self.players[i].connected,
            None => false,
        }
    }

    /// Number of players with an attached connection.
    pub fn connected_count(&self) -> (n: usize)
        ensures
            n == count_connected(self@.players),
    {
        let mut n: usize = 0;
        let mut i: usize = 0;
        while i < self.players.len()
            invariant
                i <= self.players@.len(),
                n == count_connected(self@.players.take(i as int)),
                n <= i,
            decreases self.players.len() - i,
        {
            proof {
                assert(self@.players.take(i + 1).drop_last() =~= self@.players.take(i as int));
                lemma_connected_ids(self@.players.take(i as int));
            }
            if self.players[i].connected {
                n = n + 1;
            }
            i = i + 1;
        }
        assert(self@.players.take(i as int) =~= self@.players);
        n
    }
}

} // verus!
