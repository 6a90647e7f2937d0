use ndraw::catalogue::builtin_words;
use ndraw::error::ValidationError;
use ndraw::failure::{CanvasError, RuleError};
use ndraw::ids::{ClientToken, PlayerId, RoomCode, StrokeId, TurnId};
use ndraw::metrics::ServerMetrics;
use ndraw::model::{ClientMessage, DrawOp, ErrorCode, Point};
use ndraw::game::PlayerAction;
use ndraw::server::{
    code_from_indices, created_room, heartbeat_consistent, into_action, origin_allowed, parse_origins,
    positive_u64, positive_usize, random_room_code, rate_class, silent_too_long, trim_trailing_slashes,
    fresh_voice_identity, voice_grant, voice_identity, voice_request, CreateRoomError, RateClass,
    VoiceRejection, VOICE_SUFFIX_LENGTH,
};
use ndraw::time::unix_milliseconds;
use ndraw::server::{after_forward, busy_error, first_frame, rate_limit_error, reader_step, FrameEvent, ReaderAction};
use ndraw::error::DecodeError;
use ndraw::failure::MailboxError;
use ndraw::model::{ByeReason, Hello, PlayerProfile};

#[test]
fn metrics_render_every_series_in_prometheus_text() {
    let mut metrics = ServerMetrics::default();
    metrics.room_created();
    metrics.room_created();
    metrics.room_closed();
    metrics.socket_connected();
    metrics.incoming(10);
    metrics.outgoing(7);
    metrics.decode_failure();
    let text = metrics.render();
    assert!(text.starts_with("# TYPE ndraw_active_rooms gauge\nndraw_active_rooms 1\n"));
    assert!(text.contains("ndraw_rooms_created_total 2\n"));
    assert!(text.contains("ndraw_incoming_bytes_total 10\n"));
    assert!(text.contains("ndraw_outgoing_bytes_total 7\n"));
    assert!(text.contains("# TYPE ndraw_slow_client_disconnects_total counter\nndraw_slow_client_disconnects_total 0\n"));
    assert_eq!(text.lines().count(), 22);
    assert_eq!(metrics.active_rooms(), 1);
}

#[test]
fn gauges_never_drop_below_zero() {
    let mut metrics = ServerMetrics::default();
    metrics.room_closed();
    metrics.socket_disconnected();
    assert_eq!(metrics.active_rooms(), 0);
    assert_eq!(metrics.active_sockets, 0);
    assert_eq!(metrics.connected_players, 0);
}

#[test]
fn catalogues_skip_comments_and_keep_first_spellings() {
    let sources = vec![
        "# easy words\nred fox\r\n\n  Windmill  \n".to_owned(),
        "RED-FOX\ntelescope\n#hidden\n".to_owned(),
    ];
    assert_eq!(builtin_words(&sources), vec!["red fox", "Windmill", "telescope"]);
    assert!(builtin_words(&Vec::new()).is_empty());
}

#[test]
fn origins_are_checked_against_the_allowlist() {
    let allowed = vec!["https://draw.example".to_owned()];
    assert!(origin_allowed(Some("https://draw.example".to_owned()), &allowed));
    assert!(!origin_allowed(Some("https://evil.example".to_owned()), &allowed));
    assert!(!origin_allowed(None, &allowed));
    assert!(origin_allowed(None, &Vec::new()));
}

#[test]
fn settings_parse_positive_integers_and_origin_lists() {
    assert_eq!(positive_u64("X", None, 7), Ok(7));
    assert_eq!(positive_u64("X", Some("12".to_owned()), 7), Ok(12));
    assert!(positive_u64("X", Some("0".to_owned()), 7).is_err());
    let error = positive_usize("NDRAW_OUTBOUND_CAPACITY", Some("lots".to_owned()), 1).unwrap_err();
    assert_eq!(error.name, "NDRAW_OUTBOUND_CAPACITY");
    assert_eq!(error.value, "lots");
    assert_eq!(parse_origins(" https://a.example , ,https://b.example"), vec!["https://a.example", "https://b.example"]);
    assert_eq!(trim_trailing_slashes("wss://draw.example//"), "wss://draw.example");
    assert!(heartbeat_consistent(15, 45));
    assert!(!heartbeat_consistent(15, 15));
    assert!(silent_too_long(50_000, 4_000, 45_000));
    assert!(!silent_too_long(48_000, 4_000, 45_000));
}

#[test]
fn client_messages_map_to_actions_and_budgets() {
    let draw = ClientMessage::Draw(DrawOp::Begin { stroke_id: StrokeId(1), color: 0, width: 1, start: Point { x: 0, y: 0 } });
    assert_eq!(rate_class(&draw), RateClass::Drawing);
    assert_eq!(rate_class(&ClientMessage::Chat { text: "hi".to_owned() }), RateClass::Text);
    assert_eq!(rate_class(&ClientMessage::Rematch), RateClass::Administrative);
    assert_eq!(rate_class(&ClientMessage::Pong { nonce: 1 }), RateClass::Unlimited);
    assert_eq!(into_action(ClientMessage::PickWord { choice: 2 }), Some(PlayerAction::PickWord { choice: 2 }));
    assert_eq!(
        into_action(ClientMessage::VoteDrawing { turn_id: TurnId(3), vote: None }),
        Some(PlayerAction::VoteDrawing { turn_id: TurnId(3), vote: None })
    );
    assert_eq!(into_action(ClientMessage::Pong { nonce: 1 }), None);
}

#[test]
fn room_codes_come_from_the_alphabet() {
    let code = code_from_indices([0, 1, 2, 25, 26, 31]).unwrap();
    assert_eq!(code.to_string(), "ABC349");
    assert!(matches!(code_from_indices([0, 0, 0, 0, 0, 32]), Err(CreateRoomError::InvalidGeneratedCode)));
    let random = random_room_code().unwrap();
    assert!(random.to_string().parse::<RoomCode>().is_ok());
    let response = created_room("ws://127.0.0.1:3000", code, 1_000, 180_000);
    assert_eq!(response.websocket_url, format!("ws://127.0.0.1:3000/v1/ws/{}", code.to_string()));
    assert_eq!(response.lobby_expires_at_ms, 181_000);
}

#[test]
fn voice_grants_name_the_participant_and_room() {
    assert_eq!(voice_identity(Some(7), "abcd1234"), "player-7-abcd1234");
    assert_eq!(voice_identity(None, "abcd1234"), "guest-abcd1234");
    assert_eq!(voice_request("bad", "Ada".to_owned()), Err(VoiceRejection::InvalidRoomCode));
    assert_eq!(voice_request("ABC234", " ".to_owned()), Err(VoiceRejection::InvalidDisplayName));
    let (code, profile) = voice_request("ABC234", "Ada".to_owned()).unwrap();
    let grant = voice_grant("key".to_owned(), "guest-x".to_owned(), profile.display_name, u64::MAX - 1, code);
    assert_eq!(grant.expires, u64::MAX);
    assert_eq!(grant.room, "ABC234");
    assert!(grant.can_publish && !grant.can_publish_data);
}

#[test]
fn rule_errors_become_user_safe_protocol_errors() {
    let phase = RuleError::DeadlineElapsed.as_protocol_error();
    assert_eq!(phase.code, ErrorCode::InvalidPhase);
    assert_eq!(phase.message, "phase deadline has elapsed");
    assert_eq!(RuleError::CannotKickDrawer.as_protocol_error().code, ErrorCode::Forbidden);
    let invalid = RuleError::InvalidMessage(ValidationError::TooLong { field: "chat.text", maximum: 200, actual: 201 });
    assert_eq!(invalid.as_protocol_error().code, ErrorCode::InvalidMessage);
    assert_eq!(invalid.message(), "invalid message: chat.text exceeds its maximum of 200; received 201");
    let canvas = RuleError::Canvas(CanvasError::WrongSequence { expected: 1, received: 0 });
    assert_eq!(canvas.message(), "expected sequence 1, received 0");
    assert_eq!(
        ValidationError::OutOfRange { field: "rounds", minimum: 1, maximum: 10, actual: 0 }.message(),
        "rounds must be in 1..=10; received 0"
    );
}

#[test]
fn client_tokens_print_and_parse_as_uuids() {
    let token = ClientToken(0x0011_2233_4455_6677_8899_aabb_ccdd_eeff);
    assert_eq!(token.to_string(), "00112233-4455-6677-8899-aabbccddeeff");
    assert_eq!("00112233-4455-6677-8899-aabbccddeeff".parse::<ClientToken>(), Ok(token));
    assert!("not a uuid".parse::<ClientToken>().is_err());
    assert_ne!(ClientToken::new(), ClientToken::new());
    let _ = PlayerId(1);
}

#[test]
fn fresh_voice_identities_end_in_eight_random_letters_or_digits() {
    let guest = fresh_voice_identity(None);
    assert!(guest.starts_with("guest-"));
    assert_eq!(guest.len(), "guest-".len() + VOICE_SUFFIX_LENGTH);
    assert!(guest["guest-".len()..].chars().all(|c| c.is_ascii_alphanumeric()));
    let player = fresh_voice_identity(Some(7));
    assert!(player.starts_with("player-7-"));
    assert_eq!(player.len(), "player-7-".len() + VOICE_SUFFIX_LENGTH);
}

#[test]
fn the_wall_clock_reads_unix_milliseconds() {
    assert!(unix_milliseconds() > 1_600_000_000_000);
}

#[test]
fn integer_settings_accept_a_plus_sign_and_reject_other_text() {
    assert_eq!(positive_u64("X", Some("+30".to_owned()), 7), Ok(30));
    assert!(positive_u64("X", Some("-30".to_owned()), 7).is_err());
    assert!(positive_u64("X", Some("+".to_owned()), 7).is_err());
    assert!(positive_u64("X", Some(" 30".to_owned()), 7).is_err());
    assert!(positive_u64("X", Some("".to_owned()), 7).is_err());
    assert_eq!(positive_u64("X", Some("18446744073709551615".to_owned()), 7), Ok(u64::MAX));
    assert!(positive_u64("X", Some("18446744073709551616".to_owned()), 7).is_err());
    assert_eq!(positive_usize("X", Some("007".to_owned()), 1), Ok(7));
}

#[test]
fn each_received_frame_decides_the_next_step() {
    let chat = ClientMessage::Chat { text: "hi".to_owned() };
    assert_eq!(
        reader_step(FrameEvent::Binary(Ok(chat.clone())), true),
        ReaderAction::Forward(PlayerAction::Chat { text: "hi".to_owned() })
    );
    assert_eq!(reader_step(FrameEvent::Binary(Ok(chat)), false), ReaderAction::RateLimited);
    assert_eq!(
        reader_step(FrameEvent::Binary(Err(DecodeError::FrameTooShort { actual: 0 })), true),
        ReaderAction::Undecodable
    );
    let hello = Hello { client_token: ClientToken(1), profile: PlayerProfile { display_name: "Ada".to_owned(), avatar: [0; 8] } };
    assert_eq!(reader_step(FrameEvent::Binary(Ok(ClientMessage::Hello(hello.clone()))), true), ReaderAction::Violation);
    assert_eq!(reader_step(FrameEvent::Binary(Ok(ClientMessage::Pong { nonce: 3 })), true), ReaderAction::Ignore);
    assert_eq!(reader_step(FrameEvent::Text, true), ReaderAction::Violation);
    assert_eq!(reader_step(FrameEvent::Ping, true), ReaderAction::AnswerPing);
    assert_eq!(reader_step(FrameEvent::Pong, true), ReaderAction::Ignore);
    assert_eq!(reader_step(FrameEvent::Close, true), ReaderAction::Stop);
    assert_eq!(reader_step(FrameEvent::TransportError, true), ReaderAction::Stop);
    assert_eq!(after_forward(Ok(())), ReaderAction::Ignore);
    assert_eq!(after_forward(Err(MailboxError::Full)), ReaderAction::Busy);
    assert_eq!(after_forward(Err(MailboxError::Closed)), ReaderAction::Stop);
    assert_eq!(rate_limit_error().message, "rate limit exceeded");
    assert_eq!(rate_limit_error().code, ErrorCode::RateLimited);
    assert_eq!(busy_error().message, "room command queue is full");
    assert_eq!(busy_error().code, ErrorCode::ServerBusy);
    assert_eq!(first_frame(FrameEvent::Binary(Ok(ClientMessage::Hello(hello.clone())))), Ok(hello));
    assert_eq!(first_frame(FrameEvent::Binary(Ok(ClientMessage::StartGame))), Err(ByeReason::ProtocolViolation));
    assert_eq!(first_frame(FrameEvent::Text), Err(ByeReason::ProtocolViolation));
}

#[test]
fn new_client_tokens_are_version_four_uuids() {
    for _ in 0..16 {
        let token = ClientToken::new();
        assert_eq!((token.0 >> 76) & 0xf, 4);
        assert_eq!((token.0 >> 62) & 0x3, 2);
    }
}

#[test]
fn room_codes_print_and_read_back() {
    let code = RoomCode::new(*b"ABC234").unwrap();
    assert_eq!(code.to_string().parse::<RoomCode>(), Ok(code));
    assert_eq!(code.to_string().as_bytes(), code.as_bytes());
}

#[test]
fn the_active_room_gauge_replays_creations_and_closures() {
    let mut metrics = ServerMetrics::default();
    metrics.room_created();
    metrics.room_created();
    metrics.room_closed();
    assert_eq!(metrics.active_rooms(), 1);
    metrics.room_closed();
    metrics.room_closed();
    assert_eq!(metrics.active_rooms(), 0);
    metrics.room_created();
    assert_eq!(metrics.active_rooms(), 1);
    assert!(metrics.render().contains("ndraw_active_rooms 1\n"));
}
