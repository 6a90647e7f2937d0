use ndraw::codec::{decode_client, encode_client, ClientOpcode};
use ndraw::error::{DecodeError, EncodeError, RoomCodeParseError, ValidationError};
use ndraw::ids::{PlayerId, RoomCode, StrokeId};
use ndraw::limit::{CANVAS_WIDTH, MAX_FRAME_BYTES, MAX_NAME_GRAPHEMES, MAX_POINTS_PER_BATCH, PROTOCOL_VERSION};
use ndraw::model::{
    CanvasSnapshot, ClientMessage, DrawOp, GamePhase, PhaseView, PlayerProfile, PlayerView, Point,
    RoomSettings, RoomSnapshot, Welcome,
};
use ndraw::validate::Validate;

fn no_payload(_: ClientOpcode, _: &[u8]) -> Result<(ClientMessage, usize), DecodeError> {
    Err(DecodeError::Postcard("payloads are not read in this test".to_owned()))
}

fn profile(name: &str) -> PlayerProfile {
    PlayerProfile { display_name: name.to_owned(), avatar: [1, 2, 3, 4, 5, 6, 7, 8] }
}

fn lobby_welcome() -> Welcome {
    let code = RoomCode::new(*b"ABC234").expect("valid code");
    Welcome {
        player_id: PlayerId(7),
        room_code: code,
        snapshot: RoomSnapshot {
            settings: RoomSettings::default(),
            players: vec![PlayerView {
                player_id: PlayerId(7),
                profile: profile("Ada"),
                score: 125,
                connected: true,
                is_host: true,
                has_guessed: false,
            }],
            phase: PhaseView {
                phase: GamePhase::Lobby,
                round: 0,
                total_rounds: 3,
                drawer: None,
                turn_id: None,
                deadline_unix_ms: Some(1_800_000_000_000),
                masked_word: None,
            },
            canvas: CanvasSnapshot::default(),
            word_options: None,
            secret_word: None,
            chat_history: Vec::new(),
            turn_result: None,
            drawing_rating: None,
        },
    }
}

#[test]
fn room_code_normalizes_to_one_canonical_alphabet() {
    let valid = "ABC234".parse::<RoomCode>();
    assert!(valid.is_ok());
    assert_eq!(valid.map(|code| code.to_string()), Ok("ABC234".to_owned()));

    assert!(matches!("ABC23".parse::<RoomCode>(), Err(RoomCodeParseError::InvalidLength { .. })));
    assert!(matches!("ABC01O".parse::<RoomCode>(), Err(RoomCodeParseError::InvalidCharacter { .. })));
}

#[test]
fn display_names_use_graphemes_not_bytes() {
    let valid = PlayerProfile {
        display_name: "🧑🏽‍🚀".repeat(MAX_NAME_GRAPHEMES),
        avatar: [0; 8],
    };
    assert!(valid.validate().is_ok());

    let too_long = PlayerProfile {
        display_name: "🧑🏽‍🚀".repeat(MAX_NAME_GRAPHEMES + 1),
        avatar: [0; 8],
    };
    assert!(matches!(
        too_long.validate(),
        Err(ValidationError::TooLong { field: "display_name", .. })
    ));
}

#[test]
fn room_settings_enforce_supported_ranges() {
    assert!(RoomSettings::default().validate().is_ok());

    let invalid = RoomSettings { max_players: 1, ..RoomSettings::default() };
    assert!(matches!(
        invalid.validate(),
        Err(ValidationError::OutOfRange { field: "max_players", .. })
    ));
}

#[test]
fn point_batches_are_nonempty_bounded_and_on_canvas() {
    let empty = DrawOp::Points { stroke_id: StrokeId(1), sequence: 0, points: Vec::new() };
    assert!(matches!(empty.validate(), Err(ValidationError::TooShort { .. })));

    let oversized = DrawOp::Points {
        stroke_id: StrokeId(1),
        sequence: 0,
        points: vec![Point { x: 0, y: 0 }; MAX_POINTS_PER_BATCH + 1],
    };
    assert!(matches!(oversized.validate(), Err(ValidationError::TooLong { .. })));

    let outside = DrawOp::Points {
        stroke_id: StrokeId(1),
        sequence: 0,
        points: vec![Point { x: CANVAS_WIDTH.saturating_add(1), y: 0 }],
    };
    assert!(matches!(
        outside.validate(),
        Err(ValidationError::OutOfRange { field: "point.x", .. })
    ));
}

#[test]
fn encode_rejects_invalid_messages() {
    let invalid = ClientMessage::Chat { text: "\n".to_owned() };
    assert!(matches!(
        encode_client(&invalid, Vec::new()),
        Err(EncodeError::Validation(ValidationError::Empty { field: "chat.text" }))
    ));
}

#[test]
fn decode_rejects_bad_headers_and_trailing_bytes() {
    assert!(matches!(decode_client(&[], no_payload), Err(DecodeError::FrameTooShort { actual: 0 })));
    assert!(matches!(
        decode_client(&[PROTOCOL_VERSION + 1, 0x02], no_payload),
        Err(DecodeError::UnsupportedVersion { .. })
    ));
    assert!(matches!(
        decode_client(&[PROTOCOL_VERSION, 0xff], no_payload),
        Err(DecodeError::UnknownOpcode { direction: "client", opcode: 0xff })
    ));
    assert!(matches!(
        decode_client(&[PROTOCOL_VERSION, 0x02, 0], no_payload),
        Err(DecodeError::TrailingBytes { remaining: 1 })
    ));
}

#[test]
fn decode_checks_size_before_deserialization() {
    let frame = vec![0; MAX_FRAME_BYTES + 1];
    assert!(matches!(decode_client(&frame, no_payload), Err(DecodeError::FrameTooLarge { .. })));
}

#[test]
fn welcome_snapshot_requires_the_assigned_player() {
    let mut welcome = lobby_welcome();
    assert!(welcome.validate().is_ok());
    welcome.player_id = PlayerId(999);
    assert!(matches!(
        welcome.validate(),
        Err(ValidationError::Inconsistent { field: "welcome.player_id", .. })
    ));
}

#[test]
fn start_game_frames_carry_no_payload() {
    let frame = encode_client(&ClientMessage::StartGame, vec![9, 9]).expect("valid message");
    assert_eq!(frame, vec![PROTOCOL_VERSION, 0x02]);
    assert_eq!(decode_client(&frame, no_payload), Ok(ClientMessage::StartGame));
}

#[test]
fn framed_payloads_follow_the_header() {
    let message = ClientMessage::PickWord { choice: 2 };
    let frame = encode_client(&message, vec![2]).expect("valid message");
    assert_eq!(frame[0], PROTOCOL_VERSION);
    assert_eq!(frame[2..], [2]);
    let decoded = decode_client(&frame, |opcode, payload| {
        assert_eq!(payload, &[2]);
        assert_eq!(opcode.as_u8(), frame[1]);
        Ok((ClientMessage::PickWord { choice: payload[0] }, 0))
    });
    assert_eq!(decoded, Ok(message));
}

#[test]
fn payload_leftovers_and_invalid_values_are_rejected_after_reading() {
    let frame = vec![PROTOCOL_VERSION, ClientOpcode::Guess.as_u8(), 0];
    let leftover = decode_client(&frame, |_, _| Ok((ClientMessage::Guess { text: "hi".to_owned() }, 2)));
    assert_eq!(leftover, Err(DecodeError::TrailingBytes { remaining: 2 }));
    let blank = decode_client(&frame, |_, _| Ok((ClientMessage::Guess { text: String::new() }, 0)));
    assert_eq!(blank, Err(DecodeError::Validation(ValidationError::Empty { field: "guess.text" })));
}
