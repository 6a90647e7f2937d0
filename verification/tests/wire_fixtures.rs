//! Byte-exact frames shared with the browser codec. The library frames the
//! Postcard payloads; here they are produced by Postcard from values laid out
//! field by field as the protocol types are.

use ndraw::codec::{decode_client, encode_client, encode_server, ClientOpcode};
use ndraw::error::{DecodeError, EncodeError, ValidationError};
use ndraw::ids::{ClientToken, PlayerId, RoomCode, StrokeId, TurnId};
use ndraw::limit::PROTOCOL_VERSION;
use ndraw::model::{
    CanvasAction, CanvasSnapshot, ClientMessage, DrawingVote, DrawingVoteUpdate, GamePhase, Hello,
    PhaseView, PlayerProfile, PlayerView, Point, RoomSettings, RoomSnapshot, ServerMessage, Stroke,
    Welcome,
};
use uuid::Uuid;

fn profile(name: &str) -> PlayerProfile {
    PlayerProfile { display_name: name.to_owned(), avatar: [1, 2, 3, 4, 5, 6, 7, 8] }
}

fn hello() -> Hello {
    Hello { client_token: ClientToken(0x0011_2233_4455_6677_8899_aabb_ccdd_eeff), profile: profile("Ada") }
}

fn welcome() -> Welcome {
    Welcome {
        player_id: PlayerId(7),
        room_code: "ABC234".parse::<RoomCode>().expect("valid code"),
        snapshot: RoomSnapshot {
            settings: RoomSettings::default(),
            players: vec![PlayerView {
                player_id: PlayerId(7),
                profile: profile("Ada"),
                score: 125,
                connected: true,
                is_host: true,
                has_guessed: false,
            }],
            phase: PhaseView {
                phase: GamePhase::Lobby,
                round: 0,
                total_rounds: 3,
                drawer: None,
                turn_id: None,
                deadline_unix_ms: Some(1_800_000_000_000),
                masked_word: None,
            },
            canvas: CanvasSnapshot::default(),
            word_options: None,
            secret_word: None,
            chat_history: Vec::new(),
            turn_result: None,
            drawing_rating: None,
        },
    }
}

fn postcard<T: serde::Serialize>(value: &T) -> Vec<u8> {
    postcard::to_stdvec(value).expect("serializable payload")
}

fn profile_fields(p: &PlayerProfile) -> (String, [u8; 8]) {
    (p.display_name.clone(), p.avatar)
}

/// Postcard payload of a lobby `Welcome` whose canvas holds only strokes.
fn lobby_welcome_payload(w: &Welcome) -> Vec<u8> {
    let s = &w.snapshot;
    let settings = (s.settings.rounds, s.settings.draw_seconds, s.settings.word_choices, s.settings.max_players);
    let players: Vec<(u32, (String, [u8; 8]), u32, bool, bool, bool)> = s
        .players
        .iter()
        .map(|p| (p.player_id.0, profile_fields(&p.profile), p.score, p.connected, p.is_host, p.has_guessed))
        .collect();
    assert_eq!(s.phase.phase, GamePhase::Lobby);
    let phase = (
        0u32,
        s.phase.round,
        s.phase.total_rounds,
        s.phase.drawer.map(|d| d.0),
        s.phase.turn_id.map(|t| t.0),
        s.phase.deadline_unix_ms,
        s.phase.masked_word.clone(),
    );
    let actions: Vec<(u32, (u32, u32, u8, Vec<(u16, u16)>))> = s
        .canvas
        .actions
        .iter()
        .map(|a| match a {
            CanvasAction::Stroke(st) => {
                (0u32, (st.stroke_id.0, st.color, st.width, st.points.iter().map(|p| (p.x, p.y)).collect()))
            }
            CanvasAction::Fill { .. } => panic!("only strokes are laid out here"),
        })
        .collect();
    assert!(s.word_options.is_none() && s.secret_word.is_none() && s.chat_history.is_empty());
    assert!(s.turn_result.is_none() && s.drawing_rating.is_none());
    let snapshot = (
        settings,
        players,
        phase,
        (actions,),
        None::<u8>,
        None::<String>,
        Vec::<u8>::new(),
        None::<u8>,
        None::<u8>,
    );
    postcard(&(w.player_id.0, w.room_code.to_string(), snapshot))
}

#[test]
fn unit_client_opcode_is_stable() {
    let frame = encode_client(&ClientMessage::StartGame, Vec::new()).expect("valid message");
    assert_eq!(hex::encode(frame), "0202");
}

#[test]
fn ping_opcode_and_payload_are_stable() {
    let frame = encode_server(&ServerMessage::Ping { nonce: 42 }, postcard(&42u32)).expect("valid message");
    assert_eq!(hex::encode(frame), "028f2a");
}

#[test]
fn hello_fixture_is_visible_for_cross_language_clients() {
    let hello = hello();
    let payload = postcard(&(Uuid::from_u128(hello.client_token.0), profile_fields(&hello.profile)));
    let frame = encode_client(&ClientMessage::Hello(hello), payload).expect("valid message");
    assert_eq!(hex::encode(frame), "02011000112233445566778899aabbccddeeff034164610102030405060708");
}

#[test]
fn drawing_vote_fixtures_match_browser_codec() {
    let like = 0u32;
    let client = encode_client(
        &ClientMessage::VoteDrawing { turn_id: TurnId(4), vote: Some(DrawingVote::Like) },
        postcard(&(4u32, Some(like))),
    )
    .expect("valid message");
    assert_eq!(hex::encode(client), "020a040100");

    let server = encode_server(
        &ServerMessage::DrawingVoteChanged(DrawingVoteUpdate {
            turn_id: TurnId(4),
            player_id: PlayerId(7),
            vote: Some(DrawingVote::Like),
            likes: 1,
            dislikes: 0,
        }),
        postcard(&(4u32, 7u32, Some(like), 1u8, 0u8)),
    )
    .expect("valid message");
    assert_eq!(hex::encode(server), "0292040701000100");
}

#[test]
fn decode_rejects_invalid_payloads_after_deserialization() {
    let mut frame = vec![PROTOCOL_VERSION, 0x05];
    frame.extend_from_slice(&postcard(&""));
    let decoded = decode_client(&frame, |opcode, payload| {
        assert_eq!(opcode, ClientOpcode::Guess);
        postcard::take_from_bytes::<String>(payload)
            .map(|(text, rest)| (ClientMessage::Guess { text }, rest.len()))
            .map_err(|error| DecodeError::Postcard(error.to_string()))
    });
    assert!(matches!(decoded, Err(DecodeError::Validation(ValidationError::Empty { field: "guess.text" }))));
}

#[test]
fn encode_rejects_semantically_valid_payloads_that_exceed_the_frame_limit() {
    let mut welcome = welcome();
    welcome.snapshot.canvas.actions = (0..100)
        .map(|stroke_id| {
            CanvasAction::Stroke(Stroke {
                stroke_id: StrokeId(stroke_id),
                color: 0,
                width: 1,
                points: vec![Point { x: 1, y: 1 }; 128],
            })
        })
        .collect();
    let payload = lobby_welcome_payload(&welcome);
    assert!(matches!(
        encode_server(&ServerMessage::Welcome(welcome), payload),
        Err(EncodeError::FrameTooLarge { .. })
    ));
}

#[test]
fn a_lobby_welcome_fits_in_one_frame() {
    let welcome = welcome();
    let payload = lobby_welcome_payload(&welcome);
    let frame = encode_server(&ServerMessage::Welcome(welcome), payload.clone()).expect("valid message");
    assert_eq!(frame[..2], [PROTOCOL_VERSION, 0x81]);
    assert_eq!(frame[2..], payload[..]);
}
