use ndraw::failure::JoinError;
use ndraw::game::{Audience, PlayerAction};
use ndraw::ids::{ClientToken, PlayerId, RoomCode};
use ndraw::model::{ByeReason, GamePhase, PlayerProfile, RoomSettings, ServerMessage};
use ndraw::room::{audience_includes, ConnectionLease, Room, RoomExitReason};
use ndraw::time::GameTime;

fn profile(name: &str) -> PlayerProfile {
    PlayerProfile { display_name: name.to_owned(), avatar: [0; 8] }
}

const CREATOR: ClientToken = ClientToken(1);
const GUEST: ClientToken = ClientToken(2);

fn room() -> Room {
    Room::open(
        RoomCode::new(*b"ABC234").unwrap(),
        5,
        CREATOR,
        RoomSettings { rounds: 1, draw_seconds: 15, word_choices: 1, max_players: 4 },
        vec!["windmill".to_owned(), "telescope".to_owned()],
        [3; 32],
        0,
        180_000,
        60_000,
    )
    .expect("valid room")
}

fn join(room: &mut Room, token: ClientToken, name: &str, delivered: bool) -> Result<ConnectionLease, JoinError> {
    let ticket = room.begin_join(token, profile(name))?;
    let (accepted, _) = room.finish_join(ticket, delivered, GameTime(0));
    accepted.map(|a| a.lease)
}

#[test]
fn audiences_select_their_players() {
    assert!(audience_includes(Audience::Everyone, PlayerId(1)));
    assert!(audience_includes(Audience::Player(PlayerId(1)), PlayerId(1)));
    assert!(!audience_includes(Audience::Player(PlayerId(1)), PlayerId(2)));
    assert!(!audience_includes(Audience::EveryoneExcept(PlayerId(1)), PlayerId(1)));
    assert!(audience_includes(Audience::EveryoneExcept(PlayerId(1)), PlayerId(2)));
}

#[test]
fn the_creator_becomes_host_and_others_are_announced() {
    let mut room = room();
    let ticket = room.begin_join(CREATOR, profile("Host")).unwrap();
    assert!(matches!(ticket.greeting, ServerMessage::Welcome(_)));
    let (accepted, _) = room.finish_join(ticket, true, GameTime(0));
    let host = accepted.unwrap();
    assert!(!host_is_missing(&room, host));
    let ticket = room.begin_join(GUEST, profile("Guest")).unwrap();
    let (accepted, fanout) = room.finish_join(ticket, true, GameTime(0));
    let guest = accepted.unwrap();
    assert!(!guest.resumed);
    assert_eq!(room.game().state_view().host, Some(host.lease.player_id));
    // The host hears about the guest; the guest is not told about themselves.
    assert!(fanout.deliveries.iter().all(|d| d.token == CREATOR));
    assert!(!fanout.deliveries.is_empty());
}

fn host_is_missing(room: &Room, host: ndraw::room::JoinAccepted) -> bool {
    room.game().state_view().host != Some(host.lease.player_id)
}

#[test]
fn reconnect_fences_the_previous_socket_generation() {
    let mut room = room();
    let first = join(&mut room, CREATOR, "Host", true).unwrap();
    assert!(room.is_current(first));
    let ticket = room.begin_join(CREATOR, profile("Host")).unwrap();
    assert!(ticket.resumed);
    assert!(ticket.replaced);
    assert!(matches!(ticket.greeting, ServerMessage::Resume(_)));
    let (accepted, _) = room.finish_join(ticket, true, GameTime(1));
    let second = accepted.unwrap().lease;
    assert_eq!(second.generation, first.generation + 1);
    assert!(!room.is_current(first));
    assert!(room.is_current(second));
    let stale = room.leave(first, GameTime(2));
    assert!(stale.messages.is_empty() && stale.released.is_empty());
    assert!(room.game().is_connected(second.player_id));
}

#[test]
fn kicked_tokens_cannot_resume() {
    let mut room = room();
    let host = join(&mut room, CREATOR, "Host", true).unwrap();
    let guest = join(&mut room, GUEST, "Guest", true).unwrap();
    let fanout = room.action(host, PlayerAction::KickPlayer { player_id: guest.player_id }, GameTime(1));
    assert!(matches!(fanout.messages[0], ServerMessage::Bye { reason: ByeReason::Kicked }));
    assert_eq!(fanout.released, vec![GUEST]);
    assert!(!room.game().has_player(guest.player_id));
    assert!(matches!(room.begin_join(GUEST, profile("Guest")), Err(JoinError::Kicked)));
}

#[test]
fn rejected_actions_are_explained_only_to_their_author() {
    let mut room = room();
    let host = join(&mut room, CREATOR, "Host", true).unwrap();
    let _guest = join(&mut room, GUEST, "Guest", true).unwrap();
    let fanout = room.action(host, PlayerAction::Rematch, GameTime(1));
    assert_eq!(fanout.messages.len(), 1);
    match &fanout.messages[0] {
        ServerMessage::Error(error) => assert_eq!(error.message, "action is not valid in the current phase"),
        other => panic!("unexpected {other:?}"),
    }
    assert_eq!(fanout.deliveries.len(), 1);
    assert_eq!(fanout.deliveries[0].token, CREATOR);
}

#[test]
fn an_unused_lobby_expires_on_virtual_time() {
    let room = room();
    assert_eq!(room.lifecycle_expiry(GameTime(179_999)), None);
    assert_eq!(room.lifecycle_expiry(GameTime(180_000)), Some(RoomExitReason::LobbyExpired));
    assert_eq!(room.next_wake(GameTime(0)), 180_000);
}

#[test]
fn an_abandoned_room_expires_after_its_empty_grace_period() {
    let mut room = room();
    let host = join(&mut room, CREATOR, "Host", true).unwrap();
    let guest = join(&mut room, GUEST, "Guest", true).unwrap();
    room.action(host, PlayerAction::StartGame, GameTime(1));
    room.update_empty_deadline(GameTime(1));
    room.leave(host, GameTime(2));
    room.leave(guest, GameTime(3));
    room.update_empty_deadline(GameTime(3));
    assert_eq!(room.lifecycle_expiry(GameTime(60_002)), None);
    assert_eq!(room.lifecycle_expiry(GameTime(60_003)), Some(RoomExitReason::Empty));
}

#[test]
fn failed_writer_attachment_can_resume_the_retained_identity() {
    let mut room = room();
    assert_eq!(join(&mut room, CREATOR, "Host", false), Err(JoinError::OutboundUnavailable));
    assert_eq!(room.game().connected_count(), 0);
    let lease = join(&mut room, CREATOR, "Host", true).unwrap();
    assert_eq!(lease.generation, 2);
    assert!(room.game().is_connected(lease.player_id));
}

#[test]
fn a_saturated_outbound_disconnects_only_the_slow_player() {
    let mut room = room();
    let host = join(&mut room, CREATOR, "Host", true).unwrap();
    let guest = join(&mut room, GUEST, "Guest", true).unwrap();
    let fanout = room.drop_slow(GUEST, GameTime(4));
    assert_eq!(fanout.released, vec![GUEST]);
    assert!(!room.is_current(guest));
    assert!(room.is_current(host));
    assert!(room.game().is_connected(host.player_id));
    assert!(!room.game().is_connected(guest.player_id));
    assert!(fanout.deliveries.iter().all(|d| d.token == CREATOR));
}

#[test]
fn closing_says_goodbye_to_every_attached_browser() {
    let mut room = room();
    join(&mut room, CREATOR, "Host", true).unwrap();
    join(&mut room, GUEST, "Guest", true).unwrap();
    let fanout = room.close_all(ByeReason::ServerShutdown);
    assert_eq!(fanout.messages.len(), 1);
    assert_eq!(fanout.released, vec![CREATOR, GUEST]);
    assert_eq!(room.exit_notice(RoomExitReason::Shutdown).room_generation, 5);
}

#[test]
fn due_deadlines_advance_the_game() {
    let mut room = room();
    let host = join(&mut room, CREATOR, "Host", true).unwrap();
    join(&mut room, GUEST, "Guest", true).unwrap();
    room.action(host, PlayerAction::StartGame, GameTime(0));
    assert_eq!(room.game().state_view().phase, GamePhase::ChoosingWord);
    let fanout = room.advance_deadlines(GameTime(15_000));
    assert!(!fanout.messages.is_empty());
    assert_eq!(room.game().state_view().phase, GamePhase::Drawing);
}

#[test]
fn an_ongoing_game_accepts_known_tokens_but_rejects_new_players() {
    let mut room = room();
    let host = join(&mut room, CREATOR, "Host", true).unwrap();
    join(&mut room, GUEST, "Guest", true).unwrap();
    let started = room.action(host, PlayerAction::StartGame, GameTime(1));
    assert!(started.messages.iter().any(|m| matches!(m, ServerMessage::PhaseChanged(p) if p.phase == GamePhase::ChoosingWord)));

    let late = room.begin_join(ClientToken(3), profile("Late player"));
    assert!(matches!(late, Err(JoinError::GameAlreadyStarted)));

    let ticket = room.begin_join(GUEST, profile("Ignored on resume")).unwrap();
    assert!(ticket.resumed);
    assert!(matches!(ticket.greeting, ServerMessage::Resume(_)));
    let (accepted, _) = room.finish_join(ticket, true, GameTime(2));
    assert!(accepted.unwrap().resumed);

    let goodbye = room.close_all(ByeReason::ServerShutdown);
    assert_eq!(goodbye.released.len(), 2);
}
