//! Stable binary framing for WebSocket application messages.
//!
//! Every frame has the following form:
//!
//! ```text
//! byte 0      protocol version
//! byte 1      explicit direction-specific opcode
//! byte 2..N   Postcard-encoded payload
//! ```
//!
//! The opcode values below are a public compatibility contract: they must
//! never be reordered or reused. This module validates messages, assigns
//! opcodes, and frames and checks bytes; the payload bytes themselves are
//! produced and read by the caller's Postcard serializer.

use vstd::prelude::*;

use crate::error::{DecodeError, EncodeError, ValidationError};
use crate::limit::{MAX_FRAME_BYTES, PROTOCOL_VERSION};
use crate::model::{ClientMessage, ServerMessage};
use crate::validate::{check_client_message, check_server_message, Validate};

verus! {

/// Frozen client-to-server opcode assignments for protocol version 2.
#[derive(Debug, Clone, Copy, PartialEq, Eq, Structural)]
pub enum ClientOpcode {
    Hello,
    StartGame,
    PickWord,
    Draw,
    Guess,
    Chat,
    KickPlayer,
    Rematch,
    Pong,
    VoteDrawing,
}

/// Frozen server-to-client opcode assignments for protocol version 2.
#[derive(Debug, Clone, Copy, PartialEq, Eq, Structural)]
pub enum ServerOpcode {
    Welcome,
    Resume,
    PlayerJoined,
    PlayerLeft,
    HostChanged,
    PhaseChanged,
    WordOptions,
    SecretWord,
    HintRevealed,
    Draw,
    Chat,
    GuessResult,
    ScoreChanged,
    Error,
    Ping,
    Bye,
    TurnResult,
    DrawingVoteChanged,
}

/// Frame direction, used to pick the opcode table.
#[derive(Debug, Clone, Copy, PartialEq, Eq, Structural)]
pub enum Direction {
    /// Client-to-server frames.
    Client,
    /// Server-to-client frames.
    Server,
}

impl ClientOpcode {
    /// The stable byte written into a client frame.
    pub open spec fn spec_byte(self) -> u8 {
        match self {
            ClientOpcode::Hello => 0x01,
            ClientOpcode::StartGame => 0x02,
            ClientOpcode::PickWord => 0x03,
            ClientOpcode::Draw => 0x04,
            ClientOpcode::Guess => 0x05,
            ClientOpcode::Chat => 0x06,
            ClientOpcode::KickPlayer => 0x07,
            ClientOpcode::Rematch => 0x08,
            ClientOpcode::Pong => 0x09,
            ClientOpcode::VoteDrawing => 0x0a,
        }
    }

    /// Returns the stable byte written into a client frame.
    pub fn as_u8(self) -> (b: u8)
        ensures
            b == self.spec_byte(),
    {
        match self {
            ClientOpcode::Hello => 0x01,
            ClientOpcode::StartGame => 0x02,
            ClientOpcode::PickWord => 0x03,
            ClientOpcode::Draw => 0x04,
            ClientOpcode::Guess => 0x05,
            ClientOpcode::Chat => 0x06,
            ClientOpcode::KickPlayer => 0x07,
            ClientOpcode::Rematch => 0x08,
            ClientOpcode::Pong => 0x09,
            ClientOpcode::VoteDrawing => 0x0a,
        }
    }

    /// The opcode assigned to a byte, if any.
    pub fn try_from_u8(value: u8) -> (r: Option<ClientOpcode>)
        ensures
            match r {
                Some(op) => op.spec_byte() == value,
                None => forall|op: ClientOpcode| #[trigger] op.spec_byte() != value,
            },
    {
        match value {
            0x01 => Some(ClientOpcode::Hello),
            0x02 => Some(ClientOpcode::StartGame),
            0x03 => Some(ClientOpcode::PickWord),
            0x04 => Some(ClientOpcode::Draw),
            0x05 => Some(ClientOpcode::Guess),
            0x06 => Some(ClientOpcode::Chat),
            0x07 => Some(ClientOpcode::KickPlayer),
            0x08 => Some(ClientOpcode::Rematch),
            0x09 => Some(ClientOpcode::Pong),
            0x0a => Some(ClientOpcode::VoteDrawing),
            _ => None,
        }
    }

    /// Opcode that carries a client message.
    pub open spec fn spec_of(m: ClientMessage) -> ClientOpcode {
        match m {
            ClientMessage::Hello(_) => ClientOpcode::Hello,
            ClientMessage::StartGame => ClientOpcode::StartGame,
            ClientMessage::PickWord { .. } => ClientOpcode::PickWord,
            ClientMessage::Draw(_) => ClientOpcode::Draw,
            ClientMessage::Guess { .. } => ClientOpcode::Guess,
            ClientMessage::Chat { .. } => ClientOpcode::Chat,
            ClientMessage::KickPlayer { .. } => ClientOpcode::KickPlayer,
            ClientMessage::Rematch => ClientOpcode::Rematch,
            ClientMessage::Pong { .. } => ClientOpcode::Pong,
            ClientMessage::VoteDrawing { .. } => ClientOpcode::VoteDrawing,
        }
    }

    /// Opcode that carries a client message.
    pub fn of(m: &ClientMessage) -> (op: ClientOpcode)
        ensures
            op == ClientOpcode::spec_of(*m),
    {
        match m {
            ClientMessage::Hello(_) => ClientOpcode::Hello,
            ClientMessage::StartGame => ClientOpcode::StartGame,
            ClientMessage::PickWord { .. } => ClientOpcode::PickWord,
            ClientMessage::Draw(_) => ClientOpcode::Draw,
            ClientMessage::Guess { .. } => ClientOpcode::Guess,
            ClientMessage::Chat { .. } => ClientOpcode::Chat,
            ClientMessage::KickPlayer { .. } => ClientOpcode::KickPlayer,
            ClientMessage::Rematch => ClientOpcode::Rematch,
            ClientMessage::Pong { .. } => ClientOpcode::Pong,
            ClientMessage::VoteDrawing { .. } => ClientOpcode::VoteDrawing,
        }
    }
}

impl ServerOpcode {
    /// The stable byte written into a server frame.
    pub open spec fn spec_byte(self) -> u8 {
        match self {
            ServerOpcode::Welcome => 0x81,
            ServerOpcode::Resume => 0x82,
            ServerOpcode::PlayerJoined => 0x83,
            ServerOpcode::PlayerLeft => 0x84,
            ServerOpcode::HostChanged => 0x85,
            ServerOpcode::PhaseChanged => 0x86,
            ServerOpcode::WordOptions => 0x87,
            ServerOpcode::SecretWord => 0x88,
            ServerOpcode::HintRevealed => 0x89,
            ServerOpcode::Draw => 0x8a,
            ServerOpcode::Chat => 0x8b,
            ServerOpcode::GuessResult => 0x8c,
            ServerOpcode::ScoreChanged => 0x8d,
            ServerOpcode::Error => 0x8e,
            ServerOpcode::Ping => 0x8f,
            ServerOpcode::Bye => 0x90,
            ServerOpcode::TurnResult => 0x91,
            ServerOpcode::DrawingVoteChanged => 0x92,
        }
    }

    /// Returns the stable byte written into a server frame.
    pub fn as_u8(self) -> (b: u8)
        ensures
            b == self.spec_byte(),
    {
        match self {
            ServerOpcode::Welcome => 0x81,
            ServerOpcode::Resume => 0x82,
            ServerOpcode::PlayerJoined => 0x83,
            ServerOpcode::PlayerLeft => 0x84,
            ServerOpcode::HostChanged => 0x85,
            ServerOpcode::PhaseChanged => 0x86,
            ServerOpcode::WordOptions => 0x87,
            ServerOpcode::SecretWord => 0x88,
            ServerOpcode::HintRevealed => 0x89,
            ServerOpcode::Draw => 0x8a,
            ServerOpcode::Chat => 0x8b,
            ServerOpcode::GuessResult => 0x8c,
            ServerOpcode::ScoreChanged => 0x8d,
            ServerOpcode::Error => 0x8e,
            ServerOpcode::Ping => 0x8f,
            ServerOpcode::Bye => 0x90,
            ServerOpcode::TurnResult => 0x91,
            ServerOpcode::DrawingVoteChanged => 0x92,
        }
    }

    /// The opcode assigned to a byte, if any.
    pub fn try_from_u8(value: u8) -> (r: Option<ServerOpcode>)
        ensures
            match r {
                Some(op) => op.spec_byte() == value,
                None => forall|op: ServerOpcode| #[trigger] op.spec_byte() != value,
            },
    {
        match value {
            0x81 => Some(ServerOpcode::Welcome),
            0x82 => Some(ServerOpcode::Resume),
            0x83 => Some(ServerOpcode::PlayerJoined),
            0x84 => Some(ServerOpcode::PlayerLeft),
            0x85 => Some(ServerOpcode::HostChanged),
            0x86 => Some(ServerOpcode::PhaseChanged),
            0x87 => Some(ServerOpcode::WordOptions),
            0x88 => Some(ServerOpcode::SecretWord),
            0x89 => Some(ServerOpcode::HintRevealed),
            0x8a => Some(ServerOpcode::Draw),
            0x8b => Some(ServerOpcode::Chat),
            0x8c => Some(ServerOpcode::GuessResult),
            0x8d => Some(ServerOpcode::ScoreChanged),
            0x8e => Some(ServerOpcode::Error),
            0x8f => Some(ServerOpcode::Ping),
            0x90 => Some(ServerOpcode::Bye),
            0x91 => Some(ServerOpcode::TurnResult),
            0x92 => Some(ServerOpcode::DrawingVoteChanged),
            _ => None,
        }
    }

    /// Opcode that carries a server message.
    pub open spec fn spec_of(m: ServerMessage) -> ServerOpcode {
        match m {
            ServerMessage::Welcome(_) => ServerOpcode::Welcome,
            ServerMessage::Resume(_) => ServerOpcode::Resume,
            ServerMessage::PlayerJoined(_) => ServerOpcode::PlayerJoined,
            ServerMessage::PlayerLeft { .. } => ServerOpcode::PlayerLeft,
            ServerMessage::HostChanged { .. } => ServerOpcode::HostChanged,
            ServerMessage::PhaseChanged(_) => ServerOpcode::PhaseChanged,
            ServerMessage::WordOptions(_) => ServerOpcode::WordOptions,
            ServerMessage::SecretWord { .. } => ServerOpcode::SecretWord,
            ServerMessage::HintRevealed(_) => ServerOpcode::HintRevealed,
            ServerMessage::Draw(_) => ServerOpcode::Draw,
            ServerMessage::Chat(_) => ServerOpcode::Chat,
            ServerMessage::GuessResult(_) => ServerOpcode::GuessResult,
            ServerMessage::ScoreChanged(_) => ServerOpcode::ScoreChanged,
            ServerMessage::Error(_) => ServerOpcode::Error,
            ServerMessage::Ping { .. } => ServerOpcode::Ping,
            ServerMessage::Bye { .. } => ServerOpcode::Bye,
            ServerMessage::TurnResult(_) => ServerOpcode::TurnResult,
            ServerMessage::DrawingVoteChanged(_) => ServerOpcode::DrawingVoteChanged,
        }
    }

    /// Opcode that carries a server message.
    pub fn of(m: &ServerMessage) -> (op: ServerOpcode)
        ensures
            op == ServerOpcode::spec_of(*m),
    {
        match m {
            ServerMessage::Welcome(_) => ServerOpcode::Welcome,
            ServerMessage::Resume(_) => ServerOpcode::Resume,
            ServerMessage::PlayerJoined(_) => ServerOpcode::PlayerJoined,
            ServerMessage::PlayerLeft { .. } => ServerOpcode::PlayerLeft,
            ServerMessage::HostChanged { .. } => ServerOpcode::HostChanged,
            ServerMessage::PhaseChanged(_) => ServerOpcode::PhaseChanged,
            ServerMessage::WordOptions(_) => ServerOpcode::WordOptions,
            ServerMessage::SecretWord { .. } => ServerOpcode::SecretWord,
            ServerMessage::HintRevealed(_) => ServerOpcode::HintRevealed,
            ServerMessage::Draw(_) => ServerOpcode::Draw,
            ServerMessage::Chat(_) => ServerOpcode::Chat,
            ServerMessage::GuessResult(_) => ServerOpcode::GuessResult,
            ServerMessage::ScoreChanged(_) => ServerOpcode::ScoreChanged,
            ServerMessage::Error(_) => ServerOpcode::Error,
            ServerMessage::Ping { .. } => ServerOpcode::Ping,
            ServerMessage::Bye { .. } => ServerOpcode::Bye,
            ServerMessage::TurnResult(_) => ServerOpcode::TurnResult,
            ServerMessage::DrawingVoteChanged(_) => ServerOpcode::DrawingVoteChanged,
        }
    }
}

/// Whether a byte is an assigned opcode in the given direction.
pub open spec fn is_opcode(direction: Direction, b: u8) -> bool {
    match direction {
        Direction::Client => exists|op: ClientOpcode| #[trigger] op.spec_byte() == b,
        Direction::Server => exists|op: ServerOpcode| #[trigger] op.spec_byte() == b,
    }
}

/// Human-readable direction name carried in decode errors.
pub open spec fn direction_name(direction: Direction) -> &'static str {
    match direction {
        Direction::Client => "client",
        Direction::Server => "server",
    }
}

/// The bytes of a frame: version, opcode, payload.
pub open spec fn framed(opcode: u8, payload: Seq<u8>) -> Seq<u8> {
    seq![PROTOCOL_VERSION, opcode] + payload
}

/// Outcome of framing a payload under an opcode.
pub open spec fn frame_result(opcode: u8, payload: Seq<u8>) -> Result<Seq<u8>, EncodeError> {
    if payload.len() + 2 > MAX_FRAME_BYTES {
        Err(
            EncodeError::FrameTooLarge {
                maximum: MAX_FRAME_BYTES,
                actual: if payload.len() + 2 > usize::MAX {
                    usize::MAX
                } else {
                    (payload.len() + 2) as usize
                },
            },
        )
    } else {
        Ok(framed(opcode, payload))
    }
}

/// Outcome of checking a frame header: the opcode byte, or the first error.
pub open spec fn header_result(frame: Seq<u8>, direction: Direction) -> Result<u8, DecodeError> {
    if frame.len() < 2 {
        Err(DecodeError::FrameTooShort { actual: frame.len() as usize })
    } else if frame.len() > MAX_FRAME_BYTES {
        Err(DecodeError::FrameTooLarge { maximum: MAX_FRAME_BYTES, actual: frame.len() as usize })
    } else if frame[0] != PROTOCOL_VERSION {
        Err(DecodeError::UnsupportedVersion { expected: PROTOCOL_VERSION, received: frame[0] })
    } else if !is_opcode(direction, frame[1]) {
        Err(DecodeError::UnknownOpcode { direction: direction_name(direction), opcode: frame[1] })
    } else {
        Ok(frame[1])
    }
}

/// Prepends the version and opcode to a payload, enforcing the frame limit.
pub fn make_frame(opcode: u8, payload: Vec<u8>) -> (r: Result<Vec<u8>, EncodeError>)
    ensures
        match frame_result(opcode, payload@) {
            Ok(bytes) => r matches Ok(frame) && frame@ == bytes,
            Err(e) => r == Err::<Vec<u8>, EncodeError>(e),
        },
{
    let actual = payload.len().saturating_add(2);
    if actual > MAX_FRAME_BYTES {
        return Err(EncodeError::FrameTooLarge { maximum: MAX_FRAME_BYTES, actual });
    }
    let mut frame: Vec<u8> = Vec::with_capacity(actual);
    frame.push(PROTOCOL_VERSION);
    frame.push(opcode);
    let mut i: usize = 0;
    while i < payload.len()
        invariant
            i <= payload.len(),
            frame@ == seq![PROTOCOL_VERSION, opcode] + payload@.take(i as int),
        decreases payload.len() - i,
    {
        frame.push(payload[i]);
        i = i + 1;
        assert(frame@ =~= seq![PROTOCOL_VERSION, opcode] + payload@.take(i as int));
    }
    assert(payload@.take(payload.len() as int) =~= payload@);
    Ok(frame)
}

/// Checks the version, size, and opcode of a frame and returns the opcode
/// byte with the payload that follows it.
pub fn parse_header(frame: &[u8], direction: Direction) -> (r: Result<(u8, &[u8]), DecodeError>)
    ensures
        match header_result(frame@, direction) {
            Ok(op) => r matches Ok((o, payload)) && o == op && payload@ == frame@.skip(2),
            Err(e) => r == Err::<(u8, &[u8]), DecodeError>(e),
        },
{
    if frame.len() < 2 {
        return Err(DecodeError::FrameTooShort { actual: frame.len() });
    }
    if frame.len() > MAX_FRAME_BYTES {
        return Err(DecodeError::FrameTooLarge { maximum: MAX_FRAME_BYTES, actual: frame.len() });
    }
    if frame[0] != PROTOCOL_VERSION {
        return Err(DecodeError::UnsupportedVersion { expected: PROTOCOL_VERSION, received: frame[0] });
    }
    let opcode = frame[1];
    match direction {
        Direction::Client => {
            if ClientOpcode::try_from_u8(opcode).is_none() {
                return Err(DecodeError::UnknownOpcode { direction: "client", opcode });
            }
        },
        Direction::Server => {
            if ServerOpcode::try_from_u8(opcode).is_none() {
                return Err(DecodeError::UnknownOpcode { direction: "server", opcode });
            }
        },
    }
    let payload = &frame[2..frame.len()];
    assert(payload@ =~= frame@.skip(2));
    Ok((opcode, payload))
}

/// Rejects a payload that should have been empty.
pub fn require_empty_payload(payload: &[u8]) -> (r: Result<(), DecodeError>)
    ensures
        payload@.len() == 0 ==> r is Ok,
        payload@.len() != 0 ==> r == Err::<(), DecodeError>(
            DecodeError::TrailingBytes { remaining: payload@.len() as usize },
        ),
{
    if payload.len() == 0 {
        Ok(())
    } else {
        Err(DecodeError::TrailingBytes { remaining: payload.len() })
    }
}

/// Whether a client message travels with an empty payload.
pub open spec fn is_unit_client_opcode(op: ClientOpcode) -> bool {
    op == ClientOpcode::StartGame || op == ClientOpcode::Rematch
}

/// Outcome of encoding: validation first, then framing of the serialized
/// payload under the message's opcode.
pub open spec fn encode_client_result(m: ClientMessage, payload: Seq<u8>) -> Result<Seq<u8>, EncodeError> {
    match check_client_message(m) {
        Err(e) => Err(EncodeError::Validation(e)),
        Ok(_) => frame_result(
            ClientOpcode::spec_of(m).spec_byte(),
            if is_unit_client_opcode(ClientOpcode::spec_of(m)) {
                Seq::empty()
            } else {
                payload
            },
        ),
    }
}

/// Outcome of encoding a server message with its serialized payload.
pub open spec fn encode_server_result(m: ServerMessage, payload: Seq<u8>) -> Result<Seq<u8>, EncodeError> {
    match check_server_message(m) {
        Err(e) => Err(EncodeError::Validation(e)),
        Ok(_) => frame_result(ServerOpcode::spec_of(m).spec_byte(), payload),
    }
}

/// Validates one client-to-server message and frames its Postcard payload.
/// `StartGame` and `Rematch` carry no payload; `payload` is ignored for them.
pub fn encode_client(message: &ClientMessage, payload: Vec<u8>) -> (r: Result<Vec<u8>, EncodeError>)
    ensures
        match encode_client_result(*message, payload@) {
            Ok(bytes) => r matches Ok(frame) && frame@ == bytes,
            Err(e) => r == Err::<Vec<u8>, EncodeError>(e),
        },
{
    match message.validate() {
        Err(e) => return Err(EncodeError::Validation(e)),
        Ok(()) => {},
    }
    let opcode = ClientOpcode::of(message);
    match opcode {
        ClientOpcode::StartGame | ClientOpcode::Rematch => make_frame(opcode.as_u8(), Vec::new()),
        _ => make_frame(opcode.as_u8(), payload),
    }
}

/// Validates one server-to-client message and frames its Postcard payload.
pub fn encode_server(message: &ServerMessage, payload: Vec<u8>) -> (r: Result<Vec<u8>, EncodeError>)
    ensures
        match encode_server_result(*message, payload@) {
            Ok(bytes) => r matches Ok(frame) && frame@ == bytes,
            Err(e) => r == Err::<Vec<u8>, EncodeError>(e),
        },
{
    match message.validate() {
        Err(e) => return Err(EncodeError::Validation(e)),
        Ok(()) => {},
    }
    let opcode = ServerOpcode::of(message);
    make_frame(opcode.as_u8(), payload)
}

/// What a decoder outcome becomes once the payload has been read:
/// decoder errors pass through, unread bytes are rejected, and the message is
/// validated.
pub open spec fn finish_client_decode(out: Result<(ClientMessage, usize), DecodeError>) -> Result<
    ClientMessage,
    DecodeError,
> {
    match out {
        Err(e) => Err(e),
        Ok((m, remaining)) => if remaining != 0 {
            Err(DecodeError::TrailingBytes { remaining })
        } else {
            match check_client_message(m) {
                Err(e) => Err(DecodeError::Validation(e)),
                Ok(_) => Ok(m),
            }
        },
    }
}

/// Server-direction counterpart of [`finish_client_decode`].
pub open spec fn finish_server_decode(out: Result<(ServerMessage, usize), DecodeError>) -> Result<
    ServerMessage,
    DecodeError,
> {
    match out {
        Err(e) => Err(e),
        Ok((m, remaining)) => if remaining != 0 {
            Err(DecodeError::TrailingBytes { remaining })
        } else {
            match check_server_message(m) {
                Err(e) => Err(DecodeError::Validation(e)),
                Ok(_) => Ok(m),
            }
        },
    }
}

/// Completes a client decode from the payload reader's outcome.
pub fn finish_client(out: Result<(ClientMessage, usize), DecodeError>) -> (r: Result<ClientMessage, DecodeError>)
    ensures
        r == finish_client_decode(out),
{
    match out {
        Err(e) => Err(e),
        Ok((message, remaining)) => {
            if remaining != 0 {
                return Err(DecodeError::TrailingBytes { remaining });
            }
            match message.validate() {
                Err(e) => Err(DecodeError::Validation(e)),
                Ok(()) => Ok(message),
            }
        },
    }
}

/// Completes a server decode from the payload reader's outcome.
pub fn finish_server(out: Result<(ServerMessage, usize), DecodeError>) -> (r: Result<ServerMessage, DecodeError>)
    ensures
        r == finish_server_decode(out),
{
    match out {
        Err(e) => Err(e),
        Ok((message, remaining)) => {
            if remaining != 0 {
                return Err(DecodeError::TrailingBytes { remaining });
            }
            match message.validate() {
                Err(e) => Err(DecodeError::Validation(e)),
                Ok(()) => Ok(message),
            }
        },
    }
}

/// Decodes and validates one client-to-server frame. `read_payload` reads
/// the Postcard payload of a message-bearing opcode and reports the decoded
/// message with the number of bytes it left unread; `StartGame` and
/// `Rematch` are decoded here and must carry an empty payload.
pub fn decode_client<F: Fn(ClientOpcode, &[u8]) -> Result<(ClientMessage, usize), DecodeError>>(
    frame: &[u8],
    read_payload: F,
) -> (r: Result<ClientMessage, DecodeError>)
    requires
        forall|op: ClientOpcode, p: &[u8]| read_payload.requires((op, p)),
    ensures
        match header_result(frame@, Direction::Client) {
            Err(e) => r == Err::<ClientMessage, DecodeError>(e),
            Ok(b) => {
                let payload = frame@.skip(2);
                if b == ClientOpcode::StartGame.spec_byte() || b == ClientOpcode::Rematch.spec_byte() {
                    if payload.len() != 0 {
                        r == Err::<ClientMessage, DecodeError>(
                            DecodeError::TrailingBytes { remaining: payload.len() as usize },
                        )
                    } else if b == ClientOpcode::StartGame.spec_byte() {
                        r == Ok::<ClientMessage, DecodeError>(ClientMessage::StartGame)
                    } else {
                        r == Ok::<ClientMessage, DecodeError>(ClientMessage::Rematch)
                    }
                } else {
                    exists|op: ClientOpcode, p: &[u8], out: Result<(ClientMessage, usize), DecodeError>|
                        op.spec_byte() == b && p@ == payload && #[trigger] read_payload.ensures(
                            (op, p),
                            out,
                        ) && r == finish_client_decode(out)
                }
            },
        },
{
    let (opcode, payload) = parse_header(frame, Direction::Client)?;
    let op = match ClientOpcode::try_from_u8(opcode) {
        Some(op) => op,
        None => return Err(DecodeError::UnknownOpcode { direction: "client", opcode }),
    };
    match op {
        ClientOpcode::StartGame => {
            require_empty_payload(payload)?;
            Ok(ClientMessage::StartGame)
        },
        ClientOpcode::Rematch => {
            require_empty_payload(payload)?;
            Ok(ClientMessage::Rematch)
        },
        _ => {
            let out = read_payload(op, payload);
            finish_client(out)
        },
    }
}

/// Decodes and validates one server-to-client frame. `read_payload` reads
/// the Postcard payload for the frame's opcode and reports the decoded
/// message with the number of bytes it left unread.
pub fn decode_server<F: Fn(ServerOpcode, &[u8]) -> Result<(ServerMessage, usize), DecodeError>>(
    frame: &[u8],
    read_payload: F,
) -> (r: Result<ServerMessage, DecodeError>)
    requires
        forall|op: ServerOpcode, p: &[u8]| read_payload.requires((op, p)),
    ensures
        match header_result(frame@, Direction::Server) {
            Err(e) => r == Err::<ServerMessage, DecodeError>(e),
            Ok(b) => exists|op: ServerOpcode, p: &[u8], out: Result<(ServerMessage, usize), DecodeError>|
                op.spec_byte() == b && p@ == frame@.skip(2) && #[trigger] read_payload.ensures(
                    (op, p),
                    out,
                ) && r == finish_server_decode(out),
        },
{
    let (opcode, payload) = parse_header(frame, Direction::Server)?;
    let op = match ServerOpcode::try_from_u8(opcode) {
        Some(op) => op,
        None => return Err(DecodeError::UnknownOpcode { direction: "server", opcode }),
    };
    let out = read_payload(op, payload);
    finish_server(out)
}

/// Framing round trip: a frame built from an assigned opcode and a payload
/// within the size limit passes the header check and yields that opcode and
/// payload back.
pub proof fn lemma_frame_round_trip(direction: Direction, opcode: u8, payload: Seq<u8>)
    requires
        is_opcode(direction, opcode),
        payload.len() + 2 <= MAX_FRAME_BYTES,
    ensures
        frame_result(opcode, payload) == Ok::<Seq<u8>, EncodeError>(framed(opcode, payload)),
        header_result(framed(opcode, payload), direction) == Ok::<u8, DecodeError>(opcode),
        framed(opcode, payload).skip(2) == payload,
{
    assert(framed(opcode, payload).skip(2) =~= payload);
}

/// Encoding then decoding gives a client message back. Its frame passes the
/// header check under the message's own opcode, whose byte no other opcode
/// has. The frame of `StartGame` or `Rematch` has an empty payload, which
/// decodes to that message; any other frame carries the serialized payload,
/// and once the payload reader gives the message back with nothing left
/// unread, decoding ends in that message.
pub proof fn lemma_client_round_trip(m: ClientMessage, payload: Seq<u8>, frame: Seq<u8>)
    requires
        encode_client_result(m, payload) == Ok::<Seq<u8>, EncodeError>(frame),
    ensures
        header_result(frame, Direction::Client) == Ok::<u8, DecodeError>(
            ClientOpcode::spec_of(m).spec_byte(),
        ),
        forall|op: ClientOpcode| #[trigger]
            op.spec_byte() == ClientOpcode::spec_of(m).spec_byte() ==> op == ClientOpcode::spec_of(m),
        is_unit_client_opcode(ClientOpcode::spec_of(m)) ==> frame.skip(2).len() == 0,
        ClientOpcode::spec_of(m) == ClientOpcode::StartGame ==> m == ClientMessage::StartGame,
        ClientOpcode::spec_of(m) == ClientOpcode::Rematch ==> m == ClientMessage::Rematch,
        !is_unit_client_opcode(ClientOpcode::spec_of(m)) ==> frame.skip(2) == payload,
        finish_client_decode(Ok((m, 0usize))) == Ok::<ClientMessage, DecodeError>(m),
{
    let op = ClientOpcode::spec_of(m);
    let body = if is_unit_client_opcode(op) {
        Seq::<u8>::empty()
    } else {
        payload
    };
    assert(is_opcode(Direction::Client, op.spec_byte()));
    lemma_frame_round_trip(Direction::Client, op.spec_byte(), body);
}

/// Encoding then decoding gives a server message back: its frame passes the
/// header check under the message's own opcode, whose byte no other opcode
/// has, and carries the serialized payload; once the payload reader gives
/// the message back with nothing left unread, decoding ends in that message.
pub proof fn lemma_server_round_trip(m: ServerMessage, payload: Seq<u8>, frame: Seq<u8>)
    requires
        encode_server_result(m, payload) == Ok::<Seq<u8>, EncodeError>(frame),
    ensures
        header_result(frame, Direction::Server) == Ok::<u8, DecodeError>(
            ServerOpcode::spec_of(m).spec_byte(),
        ),
        forall|op: ServerOpcode| #[trigger]
            op.spec_byte() == ServerOpcode::spec_of(m).spec_byte() ==> op == ServerOpcode::spec_of(m),
        frame.skip(2) == payload,
        finish_server_decode(Ok((m, 0usize))) == Ok::<ServerMessage, DecodeError>(m),
{
    let op = ServerOpcode::spec_of(m);
    assert(is_opcode(Direction::Server, op.spec_byte()));
    lemma_frame_round_trip(Direction::Server, op.spec_byte(), payload);
}

/// The client opcodes in the order the protocol declares them.
pub open spec fn client_opcodes() -> Seq<ClientOpcode> {
    seq![
        ClientOpcode::Hello,
        ClientOpcode::StartGame,
        ClientOpcode::PickWord,
        ClientOpcode::Draw,
        ClientOpcode::Guess,
        ClientOpcode::Chat,
        ClientOpcode::KickPlayer,
        ClientOpcode::Rematch,
        ClientOpcode::Pong,
        ClientOpcode::VoteDrawing,
    ]
}

/// The server opcodes in the order the protocol declares them.
pub open spec fn server_opcodes() -> Seq<ServerOpcode> {
    seq![
        ServerOpcode::Welcome,
        ServerOpcode::Resume,
        ServerOpcode::PlayerJoined,
        ServerOpcode::PlayerLeft,
        ServerOpcode::HostChanged,
        ServerOpcode::PhaseChanged,
        ServerOpcode::WordOptions,
        ServerOpcode::SecretWord,
        ServerOpcode::HintRevealed,
        ServerOpcode::Draw,
        ServerOpcode::Chat,
        ServerOpcode::GuessResult,
        ServerOpcode::ScoreChanged,
        ServerOpcode::Error,
        ServerOpcode::Ping,
        ServerOpcode::Bye,
        ServerOpcode::TurnResult,
        ServerOpcode::DrawingVoteChanged,
    ]
}

/// The opcode bytes are fixed by declaration order: client opcodes are
/// `0x01..=0x0a` and server opcodes `0x81..=0x92`, one after another, and
/// every opcode has its place in that order.
pub proof fn lemma_opcode_tables(c: ClientOpcode, s: ServerOpcode)
    ensures
        client_opcodes().len() == 10,
        client_opcodes().contains(c),
        forall|i: int| 0 <= i < 10 ==> (#[trigger] client_opcodes()[i]).spec_byte() == 0x01 + i,
        server_opcodes().len() == 18,
        server_opcodes().contains(s),
        forall|i: int| 0 <= i < 18 ==> (#[trigger] server_opcodes()[i]).spec_byte() == 0x81 + i,
{
    let cs = client_opcodes();
    let ss = server_opcodes();
    match c {
        ClientOpcode::Hello => assert(cs[0] == c),
        ClientOpcode::StartGame => assert(cs[1] == c),
        ClientOpcode::PickWord => assert(cs[2] == c),
        ClientOpcode::Draw => assert(cs[3] == c),
        ClientOpcode::Guess => assert(cs[4] == c),
        ClientOpcode::Chat => assert(cs[5] == c),
        ClientOpcode::KickPlayer => assert(cs[6] == c),
        ClientOpcode::Rematch => assert(cs[7] == c),
        ClientOpcode::Pong => assert(cs[8] == c),
        ClientOpcode::VoteDrawing => assert(cs[9] == c),
    }
    match s {
        ServerOpcode::Welcome => assert(ss[0] == s),
        ServerOpcode::Resume => assert(ss[1] == s),
        ServerOpcode::PlayerJoined => assert(ss[2] == s),
        ServerOpcode::PlayerLeft => assert(ss[3] == s),
        ServerOpcode::HostChanged => assert(ss[4] == s),
        ServerOpcode::PhaseChanged => assert(ss[5] == s),
        ServerOpcode::WordOptions => assert(ss[6] == s),
        ServerOpcode::SecretWord => assert(ss[7] == s),
        ServerOpcode::HintRevealed => assert(ss[8] == s),
        ServerOpcode::Draw => assert(ss[9] == s),
        ServerOpcode::Chat => assert(ss[10] == s),
        ServerOpcode::GuessResult => assert(ss[11] == s),
        ServerOpcode::ScoreChanged => assert(ss[12] == s),
        ServerOpcode::Error => assert(ss[13] == s),
        ServerOpcode::Ping => assert(ss[14] == s),
        ServerOpcode::Bye => assert(ss[15] == s),
        ServerOpcode::TurnResult => assert(ss[16] == s),
        ServerOpcode::DrawingVoteChanged => assert(ss[17] == s),
    }
    assert forall|i: int| 0 <= i < 10 implies (#[trigger] cs[i]).spec_byte() == 0x01 + i by {
        assert(cs[0].spec_byte() == 0x01 && cs[1].spec_byte() == 0x02 && cs[2].spec_byte() == 0x03
            && cs[3].spec_byte() == 0x04 && cs[4].spec_byte() == 0x05 && cs[5].spec_byte() == 0x06
            && cs[6].spec_byte() == 0x07 && cs[7].spec_byte() == 0x08 && cs[8].spec_byte() == 0x09
            && cs[9].spec_byte() == 0x0a);
    }
    assert forall|i: int| 0 <= i < 18 implies (#[trigger] ss[i]).spec_byte() == 0x81 + i by {
        assert(ss[0].spec_byte() == 0x81 && ss[1].spec_byte() == 0x82 && ss[2].spec_byte() == 0x83
            && ss[3].spec_byte() == 0x84 && ss[4].spec_byte() == 0x85 && ss[5].spec_byte() == 0x86
            && ss[6].spec_byte() == 0x87 && ss[7].spec_byte() == 0x88 && ss[8].spec_byte() == 0x89
            && ss[9].spec_byte() == 0x8a && ss[10].spec_byte() == 0x8b && ss[11].spec_byte() == 0x8c
            && ss[12].spec_byte() == 0x8d && ss[13].spec_byte() == 0x8e && ss[14].spec_byte() == 0x8f
            && ss[15].spec_byte() == 0x90 && ss[16].spec_byte() == 0x91 && ss[17].spec_byte() == 0x92);
    }
}

/// An encoded server frame starts with the protocol version and then the
/// byte of the message's opcode, `0x81` plus the opcode's place in
/// declaration order.
pub proof fn lemma_server_frame_bytes(m: ServerMessage, payload: Seq<u8>, frame: Seq<u8>, i: int)
    requires
        encode_server_result(m, payload) == Ok::<Seq<u8>, EncodeError>(frame),
        0 <= i < 18,
        server_opcodes()[i] == ServerOpcode::spec_of(m),
    ensures
        frame.len() >= 2,
        frame[0] == PROTOCOL_VERSION,
        frame[1] == 0x81 + i,
{
    lemma_opcode_tables(ClientOpcode::Hello, ServerOpcode::spec_of(m));
    assert(server_opcodes()[i].spec_byte() == 0x81 + i);
}

/// An encoded client frame starts with the protocol version and then the
/// byte of the message's opcode, `0x01` plus the opcode's place in
/// declaration order.
pub proof fn lemma_client_frame_bytes(m: ClientMessage, payload: Seq<u8>, frame: Seq<u8>, i: int)
    requires
        encode_client_result(m, payload) == Ok::<Seq<u8>, EncodeError>(frame),
        0 <= i < 10,
        client_opcodes()[i] == ClientOpcode::spec_of(m),
    ensures
        frame.len() >= 2,
        frame[0] == PROTOCOL_VERSION,
        frame[1] == 0x01 + i,
{
    lemma_opcode_tables(ClientOpcode::spec_of(m), ServerOpcode::Welcome);
    assert(client_opcodes()[i].spec_byte() == 0x01 + i);
}

} // verus!
