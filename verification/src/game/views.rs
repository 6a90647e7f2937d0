//! Viewer-specific projections of the game: player and phase views,
//! snapshots, ratings, and diagnostics.

use vstd::prelude::*;

use super::state::{DrawingState, GameStateView, PhaseState, PlayerState, RoundEndState};
use super::{count_connected, find_player, lemma_find_player, lemma_find_unique, Game, GameView};
use crate::canvas::{snapshot_of, CanvasState};
use crate::ids::{PlayerId, RoomCode, TurnId};
use crate::model::{
    CanvasSnapshot, ChatEvent, DrawingRatingView, DrawingVote, PhaseView, PlayerProfile,
    PlayerView, Resume, RoomSnapshot, TurnAward, TurnResultView, Welcome, WordOptions,
};
use crate::text::push_char;
use crate::time::{sat_add, GameDeadline};
use crate::words::texts;

verus! {

/// Drawer of the current turn, if a turn exists.
pub open spec fn turn_drawer(p: PhaseState) -> Option<PlayerId> {
    match p {
        PhaseState::ChoosingWord(c) => Some(c.drawer),
        PhaseState::Drawing(d) => Some(d.drawer),
        PhaseState::RoundEnd(r) => Some(r.drawer),
        _ => None,
    }
}

/// Identity of the current turn, if a turn exists.
pub open spec fn turn_of(p: PhaseState) -> Option<TurnId> {
    match p {
        PhaseState::ChoosingWord(c) => Some(c.turn_id),
        PhaseState::Drawing(d) => Some(d.turn_id),
        PhaseState::RoundEnd(r) => Some(r.turn_id),
        _ => None,
    }
}

/// Deadline of the current phase as shown to clients.
pub open spec fn phase_deadline(p: PhaseState) -> Option<GameDeadline> {
    match p {
        PhaseState::Lobby(l) => Some(l.deadline),
        PhaseState::ChoosingWord(c) => Some(c.deadline),
        PhaseState::Drawing(d) => Some(d.deadline),
        PhaseState::RoundEnd(r) => Some(r.deadline),
        PhaseState::GameOver => None,
    }
}

/// The public mask of a word: revealed positions show their character,
/// the others an underscore.
pub open spec fn mask(chars: Seq<char>, revealed: Seq<bool>) -> Seq<char> {
    Seq::new(chars.len(), |i: int| if revealed[i] { chars[i] } else { '_' })
}

/// Whether a phase view describes the game's current phase.
pub open spec fn phase_view_ok(v: PhaseView, g: GameView) -> bool {
    &&& v.phase == super::state::public_phase_of(g.phase)
    &&& v.round == g.round
    &&& v.total_rounds == g.settings.rounds
    &&& v.drawer == turn_drawer(g.phase)
    &&& v.turn_id == turn_of(g.phase)
    &&& v.deadline_unix_ms == match phase_deadline(g.phase) {
        Some(d) => Some(sat_add(g.unix_origin_ms, d.0)),
        None => None,
    }
    &&& match g.phase {
        PhaseState::Drawing(d) => v.masked_word matches Some(w) && w@ == mask(
            d.word_characters@,
            d.revealed@,
        ),
        PhaseState::RoundEnd(r) => v.masked_word matches Some(w) && w@ == r.secret_word@,
        _ => v.masked_word is None,
    }
}

/// Whether a player view shows this player record in the given game.
pub open spec fn player_view_ok(v: PlayerView, p: PlayerState, g: GameView) -> bool {
    &&& v.player_id == p.player_id
    &&& v.profile.display_name@ == p.profile.display_name@
    &&& v.profile.avatar == p.profile.avatar
    &&& v.score == p.score
    &&& v.connected == p.connected
    &&& v.is_host == (g.host == Some(p.player_id))
    &&& v.has_guessed == (g.phase matches PhaseState::Drawing(d) && d.guessed@.contains(
        p.player_id,
    ))
}

/// Whether two chat events carry the same author, kind and text.
pub open spec fn same_chat(a: ChatEvent, b: ChatEvent) -> bool {
    a.player_id == b.player_id && a.kind == b.kind && a.text@ == b.text@
}

/// Number of likes among votes.
pub open spec fn count_likes(votes: Seq<(PlayerId, DrawingVote)>) -> nat
    decreases votes.len(),
{
    if votes.len() == 0 {
        0
    } else {
        count_likes(votes.drop_last()) + if votes.last().1 == DrawingVote::Like {
            1nat
        } else {
            0nat
        }
    }
}

/// A count clamped to `u8`.
pub open spec fn clamp_u8(n: nat) -> u8 {
    if n > 255 {
        255
    } else {
        n as u8
    }
}

/// The vote a player currently holds.
pub open spec fn vote_of(votes: Seq<(PlayerId, DrawingVote)>, id: PlayerId) -> Option<DrawingVote>
    decreases votes.len(),
{
    if votes.len() == 0 {
        None
    } else if votes.last().0 == id {
        Some(votes.last().1)
    } else {
        vote_of(votes.drop_last(), id)
    }
}

/// Like and dislike counts, each clamped to `u8`.
pub open spec fn rating_of(votes: Seq<(PlayerId, DrawingVote)>) -> (u8, u8) {
    (clamp_u8(count_likes(votes)), clamp_u8((votes.len() - count_likes(votes)) as nat))
}

/// Like and dislike counts of a vote table.
pub fn rating_counts(votes: &Vec<(PlayerId, DrawingVote)>) -> (r: (u8, u8))
    ensures
        r == rating_of(votes@),
{
    let mut likes: usize = 0;
    let mut i: usize = 0;
    while i < votes.len()
        invariant
            i <= votes@.len(),
            likes == count_likes(votes@.take(i as int)),
            likes <= i,
        decreases votes.len() - i,
    {
        proof {
            assert(votes@.take(i + 1).drop_last() =~= votes@.take(i as int));
        }
        if votes[i].1 == DrawingVote::Like {
            likes = likes + 1;
        }
        i = i + 1;
    }
    assert(votes@.take(i as int) =~= votes@);
    let dislikes = votes.len() - likes;
    let l: u8 = if likes > 255 {
        255
    } else {
        likes as u8
    };
    let d: u8 = if dislikes > 255 {
        255
    } else {
        dislikes as u8
    };
    (l, d)
}

/// The current vote of one voter.
pub fn find_vote(votes: &Vec<(PlayerId, DrawingVote)>, id: PlayerId) -> (r: Option<DrawingVote>)
    ensures
        r == vote_of(votes@, id),
{
    let mut i: usize = votes.len();
    assert(votes@.take(votes@.len() as int) =~= votes@);
    while i > 0
        invariant
            i <= votes@.len(),
            vote_of(votes@, id) == vote_of(votes@.take(i as int), id),
        decreases i,
    {
        assert(votes@.take(i as int).drop_last() =~= votes@.take(i - 1));
        if votes[i - 1].0 == id {
            return Some(votes[i - 1].1);
        }
        i = i - 1;
    }
    None
}

/// Rating summary of the displayed drawing for one viewer.
pub fn rating_view(state: &RoundEndState, viewer: PlayerId) -> (v: DrawingRatingView)
    ensures
        v.turn_id == state.turn_id,
        (v.likes, v.dislikes) == rating_of(state.votes@),
        v.viewer_vote == vote_of(state.votes@, viewer),
{
    let (likes, dislikes) = rating_counts(&state.votes);
    DrawingRatingView { turn_id: state.turn_id, likes, dislikes, viewer_vote: find_vote(&state.votes, viewer) }
}

/// The word with unrevealed positions replaced by underscores.
pub fn masked_word(state: &DrawingState) -> (w: String)
    requires
        state.revealed@.len() == state.word_characters@.len(),
    ensures
        w@ == mask(state.word_characters@, state.revealed@),
{
    let mut w = String::new();
    let mut i: usize = 0;
    while i < state.word_characters.len()
        invariant
            i <= state.word_characters@.len(),
            state.revealed@.len() == state.word_characters@.len(),
            w@ == mask(state.word_characters@, state.revealed@).take(i as int),
        decreases state.word_characters.len() - i,
    {
        let c = if state.revealed[i] {
            state.word_characters[i]
        } else {
            '_'
        };
        push_char(&mut w, c);
        i = i + 1;
        assert(w@ =~= mask(state.word_characters@, state.revealed@).take(i as int));
    }
    assert(mask(state.word_characters@, state.revealed@).take(i as int) =~= mask(
        state.word_characters@,
        state.revealed@,
    ));
    w
}

/// Converts a non-negative score change into a wire delta.
pub fn positive_score_delta(score: u32) -> (d: i32)
    ensures
        d as int == (if score > i32::MAX as u32 {
            i32::MAX as int
        } else {
            score as int
        }),
{
    if score > i32::MAX as u32 {
        i32::MAX
    } else {
        score as i32
    }
}

/// A copy of a profile.
pub fn copy_profile(p: &PlayerProfile) -> (r: PlayerProfile)
    ensures
        r.display_name@ == p.display_name@,
        r.avatar == p.avatar,
{
    PlayerProfile { display_name: p.display_name.clone(), avatar: p.avatar }
}

/// A copy of a list of strings.
pub fn copy_strings(v: &Vec<String>) -> (r: Vec<String>)
    ensures
        texts(r@) == texts(v@),
{
    let mut r: Vec<String> = Vec::new();
    let mut i: usize = 0;
    while i < v.len()
        invariant
            i <= v@.len(),
            texts(r@) == texts(v@.take(i as int)),
        decreases v.len() - i,
    {
        let s: String = v[i].clone();
        assert(s@ == v@[i as int]@);
        let ghost before = r@;
        r.push(s);
        assert(texts(r@) =~= texts(before).push(s@));
        assert(texts(v@.take(i + 1)) =~= texts(v@.take(i as int)).push(v@[i as int]@));
        i = i + 1;
    }
    assert(v@.take(i as int) =~= v@);
    r
}

/// A copy of a chat event.
pub fn copy_chat(e: &ChatEvent) -> (r: ChatEvent)
    ensures
        same_chat(r, *e),
{
    ChatEvent { player_id: e.player_id, kind: e.kind, text: e.text.clone() }
}

/// A copy of a list of awards.
pub fn copy_awards(v: &Vec<TurnAward>) -> (r: Vec<TurnAward>)
    ensures
        r@ == v@,
{
    let mut r: Vec<TurnAward> = Vec::new();
    let mut i: usize = 0;
    while i < v.len()
        invariant
            i <= v@.len(),
            r@ == v@.take(i as int),
        decreases v.len() - i,
    {
        let a = v[i];
        r.push(TurnAward { player_id: a.player_id, points: a.points, reason: a.reason });
        i = i + 1;
        assert(r@ =~= v@.take(i as int));
    }
    assert(v@.take(i as int) =~= v@);
    r
}

/// Whether a snapshot shows game `g` to `viewer`: the public state, plus the
/// word offer only to a choosing drawer and the secret only to the drawing
/// drawer.
pub open spec fn snapshot_ok(s: RoomSnapshot, g: GameView, viewer: PlayerId) -> bool {
    &&& s.settings == g.settings
    &&& s.players@.len() == g.players.len()
    &&& forall|i: int| 0 <= i < g.players.len() ==> player_view_ok(#[trigger] s.players@[i], g.players[i], g)
    &&& phase_view_ok(s.phase, g)
    &&& s.canvas@ == match g.phase {
        PhaseState::Drawing(d) => snapshot_of(d.canvas@),
        PhaseState::RoundEnd(r) => snapshot_of(r.canvas@),
        _ => Seq::empty(),
    }
    &&& (s.word_options is Some) == (g.phase matches PhaseState::ChoosingWord(c) && c.drawer == viewer)
    &&& (s.word_options matches Some(o) ==> (g.phase matches PhaseState::ChoosingWord(c) && o.turn_id
        == c.turn_id && texts(o.words@) == texts(c.options@)))
    &&& (s.secret_word is Some) == (g.phase matches PhaseState::Drawing(d) && d.drawer == viewer)
    &&& (s.secret_word matches Some(w) ==> (g.phase matches PhaseState::Drawing(d) && w@
        == d.secret_word@))
    &&& s.chat_history@.len() == g.chat_history.len()
    &&& forall|i: int| 0 <= i < g.chat_history.len() ==> same_chat(#[trigger] s.chat_history@[i], g.chat_history[i])
    &&& (s.turn_result is Some) == (g.phase is RoundEnd)
    &&& (s.turn_result matches Some(t) ==> (g.phase matches PhaseState::RoundEnd(r) && t.turn_id
        == r.turn_id && t.word@ == r.secret_word@ && t.awards@ == r.awards@))
    &&& (s.drawing_rating is Some) == (g.phase is RoundEnd)
    &&& (s.drawing_rating matches Some(v) ==> (g.phase matches PhaseState::RoundEnd(r) && v.turn_id
        == r.turn_id && (v.likes, v.dislikes) == rating_of(r.votes@) && v.viewer_vote == vote_of(
        r.votes@,
        viewer,
    )))
}

impl Game {
    /// Returns a private room snapshot safe for the specified viewer.
    pub fn snapshot_for(&self, viewer: PlayerId) -> (s: RoomSnapshot)
        requires
            self.wf(),
        ensures
            snapshot_ok(s, self@, viewer),
    {
        let (canvas, word_options, secret_word, turn_result, drawing_rating): (
            CanvasSnapshot,
            Option<WordOptions>,
            Option<String>,
            Option<TurnResultView>,
            Option<DrawingRatingView>,
        ) = match &self.phase {
            PhaseState::ChoosingWord(state) => {
                let options = if state.drawer == viewer {
                    Some(WordOptions { turn_id: state.turn_id, words: copy_strings(&state.options) })
                } else {
                    None
                };
                (empty_canvas(), options, None, None, None)
            },
            PhaseState::Drawing(state) => {
                let secret = if state.drawer == viewer {
                    Some(state.secret_word.clone())
                } else {
                    None
                };
                (state.canvas.snapshot(), None, secret, None, None)
            },
            PhaseState::RoundEnd(state) => (
                state.canvas.snapshot(),
                None,
                None,
                Some(
                    TurnResultView {
                        turn_id: state.turn_id,
                        word: state.secret_word.clone(),
                        awards: copy_awards(&state.awards),
                    },
                ),
                Some(rating_view(state, viewer)),
            ),
            _ => (empty_canvas(), None, None, None, None),
        };
        let mut players: Vec<PlayerView> = Vec::new();
        let mut i: usize = 0;
        while i < self.players.len()
            invariant
                i <= self@.players.len(),
                players@.len() == i,
                forall|j: int| 0 <= j < i ==> player_view_ok(#[trigger] players@[j], self@.players[j], self@),
            decreases self.players.len() - i,
        {
            players.push(self.view_at(i));
            i = i + 1;
        }
        let mut chat_history: Vec<ChatEvent> = Vec::new();
        let mut k: usize = 0;
        while k < self.chat_history.len()
            invariant
                k <= self@.chat_history.len(),
                chat_history@.len() == k,
                forall|j: int| 0 <= j < k ==> same_chat(#[trigger] chat_history@[j], self@.chat_history[j]),
            decreases self.chat_history.len() - k,
        {
            chat_history.push(copy_chat(&self.chat_history[k]));
            k = k + 1;
        }
        RoomSnapshot {
            settings: self.settings,
            players,
            phase: self.phase_view(),
            canvas,
            word_options,
            secret_word,
            chat_history,
            turn_result,
            drawing_rating,
        }
    }

    /// Builds a new-session message for a viewer.
    pub fn welcome_for(&self, player_id: PlayerId, room_code: RoomCode) -> (w: Welcome)
        requires
            self.wf(),
        ensures
            w.player_id == player_id,
            w.room_code == room_code,
            snapshot_ok(w.snapshot, self@, player_id),
    {
        Welcome { player_id, room_code, snapshot: self.snapshot_for(player_id) }
    }

    /// Builds a resumed-session message for a viewer.
    pub fn resume_for(&self, player_id: PlayerId) -> (r: Resume)
        requires
            self.wf(),
        ensures
            r.player_id == player_id,
            snapshot_ok(r.snapshot, self@, player_id),
    {
        Resume { player_id, snapshot: self.snapshot_for(player_id) }
    }

    /// Returns a compact immutable diagnostic view.
    pub fn state_view(&self) -> (v: GameStateView)
        ensures
            v.phase == super::state::public_phase_of(self@.phase),
            v.round == self@.round,
            v.host == self@.host,
            v.drawer == turn_drawer(self@.phase),
            v.turn_id == turn_of(self@.phase),
            v.connected_players == count_connected(self@.players),
            v.scores@ == self@.players.map_values(|p: PlayerState| (p.player_id, p.score)),
    {
        let (drawer, turn_id) = self.current_turn();
        let mut scores: Vec<(PlayerId, u32)> = Vec::new();
        let mut i: usize = 0;
        while i < self.players.len()
            invariant
                i <= self@.players.len(),
                scores@ == self@.players.take(i as int).map_values(|p: PlayerState| (p.player_id, p.score)),
            decreases self.players.len() - i,
        {
            scores.push((self.players[i].player_id, self.players[i].score));
            i = i + 1;
            assert(scores@ =~= self@.players.take(i as int).map_values(
                |p: PlayerState| (p.player_id, p.score),
            ));
        }
        assert(self@.players.take(i as int) =~= self@.players);
        GameStateView {
            phase: self.phase.public_phase(),
            round: self.round,
            host: self.host,
            drawer,
            turn_id,
            connected_players: self.connected_count(),
            scores,
        }
    }

    /// Public view of one player, if present.
    pub(crate) fn player_view(&self, player_id: PlayerId) -> (r: Option<PlayerView>)
        ensures
            match r {
                Some(v) => find_player(self@.players, player_id) >= 0 && player_view_ok(
                    v,
                    self@.players[find_player(self@.players, player_id)],
                    self@,
                ),
                None => find_player(self@.players, player_id) < 0,
            },
    {
        match self.index_of(player_id) {
            Some(i) => Some(self.view_at(i)),
            None => None,
        }
    }

    /// Public view of the player at a roster position.
    pub(crate) fn view_at(&self, i: usize) -> (v: PlayerView)
        requires
            i < self@.players.len(),
        ensures
            player_view_ok(v, self@.players[i as int], self@),
    {
        let p = &self.players[i];
        let has_guessed = match &self.phase {
            PhaseState::Drawing(d) => contains_id(&d.guessed, p.player_id),
            _ => false,
        };
        let is_host = match self.host {
            Some(h) => h == p.player_id,
            None => false,
        };
        PlayerView {
            player_id: p.player_id,
            profile: copy_profile(&p.profile),
            score: p.score,
            connected: p.connected,
            is_host,
            has_guessed,
        }
    }

    /// Drawer and turn of the current phase.
    pub(crate) fn current_turn(&self) -> (r: (Option<PlayerId>, Option<TurnId>))
        ensures
            r == (turn_drawer(self@.phase), turn_of(self@.phase)),
    {
        match &self.phase {
            PhaseState::ChoosingWord(s) => (Some(s.drawer), Some(s.turn_id)),
            PhaseState::Drawing(s) => (Some(s.drawer), Some(s.turn_id)),
            PhaseState::RoundEnd(s) => (Some(s.drawer), Some(s.turn_id)),
            _ => (None, None),
        }
    }

    /// Public phase information.
    pub(crate) fn phase_view(&self) -> (v: PhaseView)
        requires
            self@.phase matches PhaseState::Drawing(d) ==> d.revealed@.len()
                == d.word_characters@.len(),
        ensures
            phase_view_ok(v, self@),
    {
        let (drawer, turn_id) = self.current_turn();
        let (deadline, masked): (Option<GameDeadline>, Option<String>) = match &self.phase {
            PhaseState::Lobby(s) => (Some(s.deadline), None),
            PhaseState::ChoosingWord(s) => (Some(s.deadline), None),
            PhaseState::Drawing(s) => (Some(s.deadline), Some(masked_word(s))),
            PhaseState::RoundEnd(s) => (Some(s.deadline), Some(s.secret_word.clone())),
            PhaseState::GameOver => (None, None),
        };
        let deadline_unix_ms = match deadline {
            Some(d) => Some(self.unix_origin_ms.saturating_add(d.0)),
            None => None,
        };
        PhaseView {
            phase: self.phase.public_phase(),
            round: self.round,
            total_rounds: self.settings.rounds,
            drawer,
            turn_id,
            deadline_unix_ms,
            masked_word: masked,
        }
    }
}

/// A canvas with nothing on it.
fn empty_canvas() -> (c: CanvasSnapshot)
    ensures
        c@ == Seq::<crate::canvas::ActionView>::empty(),
{
    let c = CanvasSnapshot { actions: Vec::new() };
    assert(c@ =~= Seq::<crate::canvas::ActionView>::empty());
    c
}

/// Whether an identity list holds an identity.
pub fn contains_id(ids: &Vec<PlayerId>, id: PlayerId) -> (r: bool)
    ensures
        r == ids@.contains(id),
{
    let mut i: usize = 0;
    while i < ids.len()
        invariant
            i <= ids@.len(),
            forall|j: int| 0 <= j < i ==> ids@[j] != id,
        decreases ids.len() - i,
    {
        if ids[i] == id {
            return true;
        }
        i = i + 1;
    }
    false
}

} // verus!
