//! Decisions of the network edge: which browser origins may connect, how
//! client messages become game actions and which rate limit they draw on,
//! how settings are read, how rooms are named and announced, and what a
//! voice-chat grant says.

use vstd::prelude::*;

use crate::catalogue::{pieces, split_pieces};
use crate::failure::GameBuildError;
use crate::game::PlayerAction;
use crate::ids::RoomCode;
use crate::limit::{room_code_alphabet_at, room_code_alphabet_byte, ROOM_CODE_ALPHABET_LEN};
use crate::error::DecodeError;
use crate::failure::MailboxError;
use crate::model::{ByeReason, ClientMessage, ErrorCode, Hello, PlayerProfile, ProtocolError};
use crate::text::{chars_of, decimal, push_char, push_decimal, push_str, string_from_chars, trim_bounds, trimmed};
use crate::time::sat_add;
use crate::validate::{check_profile, Validate};
use crate::words::texts;
use crate::ids::code_text_ok;
use vstd::string::StringSliceAdditionalSpecFns;

verus! {

// ---------------------------------------------------------------------------
// Connections
// ---------------------------------------------------------------------------

/// Whether a browser origin may open a WebSocket: any origin when the
/// allowlist is empty, otherwise only a listed one.
pub open spec fn origin_permitted(origin: Option<Seq<char>>, allowed: Seq<Seq<char>>) -> bool {
    allowed.len() == 0 || (origin matches Some(o) && allowed.contains(o))
}

/// Whether a browser origin may open a WebSocket.
pub fn origin_allowed(origin: Option<String>, allowed: &Vec<String>) -> (r: bool)
    ensures
        r == origin_permitted(
            match origin {
                Some(o) => Some(o@),
                None => None,
            },
            texts(allowed@),
        ),
{
    if allowed.len() == 0 {
        return true;
    }
    match origin {
        Some(o) => lists_text(allowed, &o),
        None => false,
    }
}

/// Whether a list of strings holds a text.
fn lists_text(list: &Vec<String>, o: &String) -> (r: bool)
    ensures
        r == texts(list@).contains(o@),
{
    let mut i: usize = 0;
    while i < list.len()
        invariant
            i <= list@.len(),
            forall|j: int| 0 <= j < i ==> list@[j]@ != o@,
        decreases list.len() - i,
    {
        if list[i] == *o {
            assert(texts(list@)[i as int] == o@);
            return true;
        }
        i = i + 1;
    }
    assert(!texts(list@).contains(o@)) by {
        if texts(list@).contains(o@) {
            let j = choose|j: int| 0 <= j < texts(list@).len() && texts(list@)[j] == o@;
            assert(list@[j]@ == o@);
        }
    }
    false
}

/// The game action a client message asks for; `Hello` and `Pong` are
/// connection-level messages and ask for none.
pub open spec fn action_for(m: ClientMessage) -> Option<PlayerAction> {
    match m {
        ClientMessage::StartGame => Some(PlayerAction::StartGame),
        ClientMessage::PickWord { choice } => Some(PlayerAction::PickWord { choice }),
        ClientMessage::Draw(operation) => Some(PlayerAction::Draw(operation)),
        ClientMessage::Guess { text } => Some(PlayerAction::Guess { text }),
        ClientMessage::Chat { text } => Some(PlayerAction::Chat { text }),
        ClientMessage::KickPlayer { player_id } => Some(PlayerAction::KickPlayer { player_id }),
        ClientMessage::Rematch => Some(PlayerAction::Rematch),
        ClientMessage::VoteDrawing { turn_id, vote } => Some(PlayerAction::VoteDrawing { turn_id, vote }),
        _ => None,
    }
}

/// Converts a client message into the game action it asks for.
pub fn into_action(message: ClientMessage) -> (r: Option<PlayerAction>)
    ensures
        r == action_for(message),
{
    match message {
        ClientMessage::StartGame => Some(PlayerAction::StartGame),
        ClientMessage::PickWord { choice } => Some(PlayerAction::PickWord { choice }),
        ClientMessage::Draw(operation) => Some(PlayerAction::Draw(operation)),
        ClientMessage::Guess { text } => Some(PlayerAction::Guess { text }),
        ClientMessage::Chat { text } => Some(PlayerAction::Chat { text }),
        ClientMessage::KickPlayer { player_id } => Some(PlayerAction::KickPlayer { player_id }),
        ClientMessage::Rematch => Some(PlayerAction::Rematch),
        ClientMessage::VoteDrawing { turn_id, vote } => Some(PlayerAction::VoteDrawing { turn_id, vote }),
        ClientMessage::Hello(_) | ClientMessage::Pong { .. } => None,
    }
}

/// The client message that asks for a game action.
pub open spec fn requesting_message(a: PlayerAction) -> ClientMessage {
    match a {
        PlayerAction::StartGame => ClientMessage::StartGame,
        PlayerAction::PickWord { choice } => ClientMessage::PickWord { choice },
        PlayerAction::Draw(operation) => ClientMessage::Draw(operation),
        PlayerAction::Guess { text } => ClientMessage::Guess { text },
        PlayerAction::Chat { text } => ClientMessage::Chat { text },
        PlayerAction::KickPlayer { player_id } => ClientMessage::KickPlayer { player_id },
        PlayerAction::Rematch => ClientMessage::Rematch,
        PlayerAction::VoteDrawing { turn_id, vote } => ClientMessage::VoteDrawing { turn_id, vote },
    }
}

/// Converting a client message to a game action keeps its kind and payload:
/// only `Hello` and `Pong` ask for no action, and every other message becomes
/// the action it is the request for, so a `Guess` becomes a guess with the
/// same text and a `Chat` a chat with the same text.
pub proof fn lemma_action_keeps_kind_and_payload(m: ClientMessage)
    ensures
        action_for(m) is None <==> (m is Hello || m is Pong),
        action_for(m) matches Some(a) ==> requesting_message(a) == m,
        m matches ClientMessage::Guess { text } ==> action_for(m) matches Some(
            PlayerAction::Guess { text: t },
        ) && t == text,
        m matches ClientMessage::Chat { text } ==> action_for(m) matches Some(
            PlayerAction::Chat { text: t },
        ) && t == text,
{
}

/// Every game action is reached from the message that requests it, and from
/// no other message.
pub proof fn lemma_every_action_has_its_message(a: PlayerAction, m: ClientMessage)
    ensures
        action_for(requesting_message(a)) == Some(a),
        action_for(m) == Some(a) ==> m == requesting_message(a),
{
}

/// The per-connection budget a client message draws on.
#[derive(Debug, Clone, Copy, PartialEq, Eq, Structural)]
pub enum RateClass {
    /// Canvas operations.
    Drawing,
    /// Guesses and chat.
    Text,
    /// Game control: start, word choice, kicks, rematch, and votes.
    Administrative,
    /// Connection-level messages, never limited.
    Unlimited,
}

/// The budget of a client message.
pub open spec fn class_of(m: ClientMessage) -> RateClass {
    match m {
        ClientMessage::Draw(_) => RateClass::Drawing,
        ClientMessage::Guess { .. } | ClientMessage::Chat { .. } => RateClass::Text,
        ClientMessage::Hello(_) | ClientMessage::Pong { .. } => RateClass::Unlimited,
        _ => RateClass::Administrative,
    }
}

/// The budget a client message draws on.
pub fn rate_class(message: &ClientMessage) -> (c: RateClass)
    ensures
        c == class_of(*message),
{
    match message {
        ClientMessage::Draw(_) => RateClass::Drawing,
        ClientMessage::Guess { .. } | ClientMessage::Chat { .. } => RateClass::Text,
        ClientMessage::StartGame
        | ClientMessage::PickWord { .. }
        | ClientMessage::KickPlayer { .. }
        | ClientMessage::Rematch
        | ClientMessage::VoteDrawing { .. } => RateClass::Administrative,
        ClientMessage::Hello(_) | ClientMessage::Pong { .. } => RateClass::Unlimited,
    }
}

/// A message's budget follows the action it asks for: guesses and chat share
/// the text budget, canvas operations draw on the drawing budget, the other
/// game actions on the administrative budget, and only the messages that ask
/// for no action (`Hello` and `Pong`) are unlimited.
pub proof fn lemma_rate_class_follows_action(m: ClientMessage)
    ensures
        class_of(m) == RateClass::Unlimited <==> action_for(m) is None,
        class_of(m) == RateClass::Unlimited <==> (m is Hello || m is Pong),
        class_of(m) == RateClass::Text <==> (m is Guess || m is Chat),
        class_of(m) == RateClass::Text <==> (action_for(m) matches Some(PlayerAction::Guess { .. })
            || action_for(m) matches Some(PlayerAction::Chat { .. })),
        class_of(m) == RateClass::Drawing <==> action_for(m) matches Some(PlayerAction::Draw(_)),
        class_of(m) == RateClass::Administrative <==> (action_for(m) matches Some(PlayerAction::StartGame)
            || action_for(m) matches Some(PlayerAction::PickWord { .. })
            || action_for(m) matches Some(PlayerAction::KickPlayer { .. })
            || action_for(m) matches Some(PlayerAction::Rematch)
            || action_for(m) matches Some(PlayerAction::VoteDrawing { .. })),
{
}

/// What a connection received from its socket, once a binary frame has been
/// decoded.
#[derive(Debug, PartialEq, Eq)]
pub enum FrameEvent {
    /// A binary frame and the outcome of decoding it.
    Binary(Result<ClientMessage, DecodeError>),
    /// A text frame, which the binary protocol does not use.
    Text,
    /// A transport-level ping.
    Ping,
    /// A transport-level pong.
    Pong,
    /// The peer closed the socket.
    Close,
    /// The socket failed, or its stream ended.
    TransportError,
}

/// What a connection does next after one received event.
#[derive(Debug, Clone, PartialEq, Eq)]
pub enum ReaderAction {
    /// Keep reading; nothing to do.
    Ignore,
    /// Stop reading; nothing more is sent.
    Stop,
    /// Answer the transport ping with a pong carrying its payload, and keep
    /// reading.
    AnswerPing,
    /// Count an undecodable frame, say `Bye` for a protocol violation, and
    /// stop.
    Undecodable,
    /// Say `Bye` for a protocol violation, and stop.
    Violation,
    /// Count a rate-limited frame, answer with the rate-limit error, and keep
    /// reading.
    RateLimited,
    /// Answer with the busy-room error, and keep reading.
    Busy,
    /// Hand the action to the room, and keep reading.
    Forward(PlayerAction),
}

/// The decision after one event of an established connection.
/// `rate_allowed` says whether the message's budget allowed it; it matters
/// only for a decoded binary frame.
pub open spec fn reader_decision(event: FrameEvent, rate_allowed: bool) -> ReaderAction {
    match event {
        FrameEvent::TransportError | FrameEvent::Close => ReaderAction::Stop,
        FrameEvent::Text => ReaderAction::Violation,
        FrameEvent::Ping => ReaderAction::AnswerPing,
        FrameEvent::Pong => ReaderAction::Ignore,
        FrameEvent::Binary(Err(_)) => ReaderAction::Undecodable,
        FrameEvent::Binary(Ok(m)) => if !rate_allowed {
            ReaderAction::RateLimited
        } else {
            match m {
                ClientMessage::Hello(_) => ReaderAction::Violation,
                ClientMessage::Pong { .. } => ReaderAction::Ignore,
                _ => match action_for(m) {
                    Some(a) => ReaderAction::Forward(a),
                    None => ReaderAction::Ignore,
                },
            }
        },
    }
}

/// Decides what an established connection does after one event: a frame
/// that does not decode or a text frame ends it as a protocol violation, a
/// message over its budget is refused, a second `Hello` ends it, a `Pong`
/// is ignored, and every other message goes to the room.
pub fn reader_step(event: FrameEvent, rate_allowed: bool) -> (a: ReaderAction)
    ensures
        a == reader_decision(event, rate_allowed),
{
    match event {
        FrameEvent::TransportError | FrameEvent::Close => ReaderAction::Stop,
        FrameEvent::Text => ReaderAction::Violation,
        FrameEvent::Ping => ReaderAction::AnswerPing,
        FrameEvent::Pong => ReaderAction::Ignore,
        FrameEvent::Binary(Err(_)) => ReaderAction::Undecodable,
        FrameEvent::Binary(Ok(m)) => {
            if !rate_allowed {
                return ReaderAction::RateLimited;
            }
            match m {
                ClientMessage::Hello(_) => ReaderAction::Violation,
                ClientMessage::Pong { .. } => ReaderAction::Ignore,
                other => match into_action(other) {
                    Some(a) => ReaderAction::Forward(a),
                    None => ReaderAction::Ignore,
                },
            }
        },
    }
}

/// The decision after handing an action to the room's mailbox.
pub open spec fn forward_decision(r: Result<(), MailboxError>) -> ReaderAction {
    match r {
        Ok(()) => ReaderAction::Ignore,
        Err(MailboxError::Full) => ReaderAction::Busy,
        Err(MailboxError::Closed) => ReaderAction::Stop,
    }
}

/// Decides what follows a hand-over to the room: a full mailbox is answered
/// with the busy error, and a closed one ends the connection.
pub fn after_forward(r: Result<(), MailboxError>) -> (a: ReaderAction)
    ensures
        a == forward_decision(r),
{
    match r {
        Ok(()) => ReaderAction::Ignore,
        Err(MailboxError::Full) => ReaderAction::Busy,
        Err(MailboxError::Closed) => ReaderAction::Stop,
    }
}

/// The outcome of a connection's first event: its `Hello`, or why the
/// connection is refused.
pub open spec fn hello_decision(event: FrameEvent) -> Result<Hello, ByeReason> {
    match event {
        FrameEvent::Binary(Ok(ClientMessage::Hello(h))) => Ok(h),
        _ => Err(ByeReason::ProtocolViolation),
    }
}

/// Decides a connection's first event: only a binary frame that decodes to
/// `Hello` opens the session; anything else is a protocol violation.
pub fn first_frame(event: FrameEvent) -> (r: Result<Hello, ByeReason>)
    ensures
        r == hello_decision(event),
{
    match event {
        FrameEvent::Binary(Ok(ClientMessage::Hello(h))) => Ok(h),
        _ => Err(ByeReason::ProtocolViolation),
    }
}

/// The error answering a message over its budget.
pub fn rate_limit_error() -> (p: ProtocolError)
    ensures
        p.code == ErrorCode::RateLimited,
        p.message@ == "rate limit exceeded"@,
{
    let mut message = String::new();
    push_str(&mut message, "rate limit exceeded");
    ProtocolError { code: ErrorCode::RateLimited, message }
}

/// The error answering an action the room's full mailbox could not take.
pub fn busy_error() -> (p: ProtocolError)
    ensures
        p.code == ErrorCode::ServerBusy,
        p.message@ == "room command queue is full"@,
{
    let mut message = String::new();
    push_str(&mut message, "room command queue is full");
    ProtocolError { code: ErrorCode::ServerBusy, message }
}

/// A duration in milliseconds as a `u64`, saturating.
pub fn duration_milliseconds(millis: u128) -> (r: u64)
    ensures
        r == crate::time::clamp_millis(millis),
{
    if millis > u64::MAX as u128 {
        u64::MAX
    } else {
        millis as u64
    }
}

/// Whether a connection has been silent for at least `timeout_ms`, given
/// the milliseconds since it started and since its last received frame.
pub fn silent_too_long(elapsed_ms: u64, last_activity_ms: u64, timeout_ms: u64) -> (r: bool)
    ensures
        r == ((if elapsed_ms >= last_activity_ms {
            elapsed_ms - last_activity_ms
        } else {
            0
        }) >= timeout_ms),
{
    elapsed_ms.saturating_sub(last_activity_ms) >= timeout_ms
}

// ---------------------------------------------------------------------------
// Settings
// ---------------------------------------------------------------------------

/// Whether a character is an ASCII decimal digit.
pub open spec fn is_decimal_digit(c: char) -> bool {
    48 <= c as u32 <= 57
}

/// Value of a run of decimal digits.
pub open spec fn digits_value(s: Seq<char>) -> nat
    decreases s.len(),
{
    if s.len() == 0 {
        0
    } else {
        digits_value(s.drop_last()) * 10 + (s.last() as u32 - 48) as nat
    }
}

/// The characters after an optional leading `+`.
pub open spec fn unsigned_digits(s: Seq<char>) -> Seq<char> {
    if s.len() > 0 && s[0] == '+' {
        s.skip(1)
    } else {
        s
    }
}

/// What `str::parse` reads as an unsigned integer whose type's largest
/// value is `max`: an optional `+`, then one or more ASCII digits whose
/// value is at most `max`.
pub open spec fn parsed_unsigned(s: Seq<char>, max: nat) -> Option<nat> {
    let d = unsigned_digits(s);
    if d.len() > 0 && (forall|i: int| 0 <= i < d.len() ==> is_decimal_digit(#[trigger] d[i]))
        && digits_value(d) <= max {
        Some(digits_value(d))
    } else {
        None
    }
}

/// The value of `str::parse::<u64>` on a text, where it succeeds.
pub open spec fn parsed_u64(s: Seq<char>) -> Option<u64> {
    match parsed_unsigned(s, u64::MAX as nat) {
        Some(v) => Some(v as u64),
        None => None,
    }
}

/// The value of `str::parse::<usize>` on a text, where it succeeds.
pub open spec fn parsed_usize(s: Seq<char>) -> Option<usize> {
    match parsed_unsigned(s, usize::MAX as nat) {
        Some(v) => Some(v as usize),
        None => None,
    }
}

/// The value of a run of digits grows with every digit appended.
proof fn lemma_digits_prefix(d: Seq<char>, k: int)
    requires
        0 <= k <= d.len(),
        forall|i: int| 0 <= i < d.len() ==> is_decimal_digit(#[trigger] d[i]),
    ensures
        digits_value(d.take(k)) <= digits_value(d),
    decreases d.len(),
{
    if k < d.len() {
        assert(d.take(k) =~= d.drop_last().take(k));
        lemma_digits_prefix(d.drop_last(), k);
        assert(is_decimal_digit(d[d.len() - 1]));
    } else {
        assert(d.take(k) =~= d);
    }
}

/// Reads an unsigned decimal integer no greater than `max` the way
/// `str::parse` reads one: an optional `+`, then one or more ASCII digits.
fn parse_unsigned(s: &str, max: u64) -> (r: Option<u64>)
    ensures
        match parsed_unsigned(s@, max as nat) {
            Some(v) => r == Some(v as u64),
            None => r is None,
        },
{
    let chars = chars_of(s);
    let start: usize = if chars.len() > 0 && chars[0] == '+' {
        1
    } else {
        0
    };
    let ghost d = unsigned_digits(s@);
    assert(d =~= chars@.skip(start as int));
    if start >= chars.len() {
        return None;
    }
    let mut value: u64 = 0;
    let mut k: usize = start;
    while k < chars.len()
        invariant
            start <= k <= chars@.len(),
            chars@ == s@,
            d == unsigned_digits(s@),
            d == chars@.skip(start as int),
            forall|i: int| 0 <= i < k - start ==> is_decimal_digit(#[trigger] d[i]),
            value == digits_value(d.take(k - start)),
            value <= max,
        decreases chars.len() - k,
    {
        let c = chars[k];
        let code = c as u32;
        assert(d[k - start] == c);
        if code < 48 || code > 57 {
            assert(!is_decimal_digit(d[k - start]));
            assert(parsed_unsigned(s@, max as nat) is None);
            return None;
        }
        let digit = (code - 48) as u64;
        assert(d.take(k - start + 1).drop_last() =~= d.take(k - start));
        assert(d.take(k - start + 1).last() == c);
        assert(digits_value(d.take(k - start + 1)) == value * 10 + digit);
        let next = match value.checked_mul(10) {
            Some(t) => t.checked_add(digit),
            None => None,
        };
        match next {
            Some(n) if n <= max => {
                value = n;
            },
            _ => {
                proof {
                    if forall|i: int| 0 <= i < d.len() ==> is_decimal_digit(#[trigger] d[i]) {
                        lemma_digits_prefix(d, k - start + 1);
                        assert(digits_value(d) > max);
                    }
                    assert(parsed_unsigned(s@, max as nat) is None);
                }
                return None;
            },
        }
        k = k + 1;
    }
    assert(d.take(k - start) =~= d);
    Some(value)
}

/// Reads a `u64` as `str::parse::<u64>` does.
fn parse_u64(s: &str) -> (r: Option<u64>)
    ensures
        r == parsed_u64(s@),
{
    parse_unsigned(s, u64::MAX)
}

/// Reads a `usize` as `str::parse::<usize>` does.
fn parse_usize(s: &str) -> (r: Option<usize>)
    ensures
        r == parsed_usize(s@),
{
    match parse_unsigned(s, usize::MAX as u64) {
        Some(v) => Some(v as usize),
        None => None,
    }
}

/// A setting that must be a positive integer.
#[derive(Debug, Clone, PartialEq, Eq)]
pub struct InvalidInteger {
    /// Environment variable name.
    pub name: &'static str,
    /// Invalid input.
    pub value: String,
}

/// A positive integer setting: the default when unset, the parsed value
/// when it is a positive integer, and an error otherwise.
pub fn positive_u64(name: &'static str, value: Option<String>, default: u64) -> (r: Result<u64, InvalidInteger>)
    ensures
        match value {
            None => r == Ok::<u64, InvalidInteger>(default),
            Some(v) => if parsed_u64(v@) matches Some(n) && n > 0 {
                r == Ok::<u64, InvalidInteger>(parsed_u64(v@)->0)
            } else {
                r matches Err(e) && e.name == name && e.value == v
            },
        },
{
    let v = match value {
        Some(v) => v,
        None => {
            return Ok(default);
        },
    };
    match parse_u64(v.as_str()) {
        Some(n) => if n > 0 {
            Ok(n)
        } else {
            Err(InvalidInteger { name, value: v })
        },
        None => Err(InvalidInteger { name, value: v }),
    }
}

/// A positive count setting: the default when unset, the parsed value when
/// it is a positive integer, and an error otherwise.
pub fn positive_usize(name: &'static str, value: Option<String>, default: usize) -> (r: Result<usize, InvalidInteger>)
    ensures
        match value {
            None => r == Ok::<usize, InvalidInteger>(default),
            Some(v) => if parsed_usize(v@) matches Some(n) && n > 0 {
                r == Ok::<usize, InvalidInteger>(parsed_usize(v@)->0)
            } else {
                r matches Err(e) && e.name == name && e.value == v
            },
        },
{
    let v = match value {
        Some(v) => v,
        None => {
            return Ok(default);
        },
    };
    match parse_usize(v.as_str()) {
        Some(n) => if n > 0 {
            Ok(n)
        } else {
            Err(InvalidInteger { name, value: v })
        },
        None => Err(InvalidInteger { name, value: v }),
    }
}

/// The origins of a comma-separated allowlist: each entry trimmed, empty
/// entries left out.
pub open spec fn origin_list(s: Seq<char>) -> Seq<Seq<char>> {
    pieces(s, ',').map_values(|p: Seq<char>| trimmed(p)).filter(|p: Seq<char>| p.len() > 0)
}

/// Parses a comma-separated origin allowlist.
pub fn parse_origins(value: &str) -> (r: Vec<String>)
    ensures
        texts(r@) == origin_list(value@),
{
    let chars = chars_of(value);
    let parts = split_pieces(&chars, ',');
    let ghost all = pieces(value@, ',').map_values(|p: Seq<char>| trimmed(p));
    let mut r: Vec<String> = Vec::new();
    let mut i: usize = 0;
    while i < parts.len()
        invariant
            i <= parts@.len(),
            parts@.map_values(|l: Vec<char>| l@) == pieces(value@, ','),
            all == pieces(value@, ',').map_values(|p: Seq<char>| trimmed(p)),
            texts(r@) == all.take(i as int).filter(|p: Seq<char>| p.len() > 0),
        decreases parts.len() - i,
    {
        reveal(Seq::filter);
        assert(all.take(i + 1).drop_last() =~= all.take(i as int));
        let part = &parts[i];
        assert(part@ == pieces(value@, ',')[i as int]);
        let (start, end) = trim_bounds(part);
        let ghost before = texts(r@);
        if start < end {
            let mut s = String::new();
            let mut k: usize = start;
            while k < end
                invariant
                    start <= k <= end <= part@.len(),
                    s@ == part@.subrange(start as int, k as int),
                decreases end - k,
            {
                push_char(&mut s, part[k]);
                k = k + 1;
                assert(s@ =~= part@.subrange(start as int, k as int));
            }
            r.push(s);
            assert(texts(r@) =~= before.push(all[i as int]));
        } else {
            assert(texts(r@) =~= before);
        }
        i = i + 1;
    }
    assert(all.take(i as int) =~= all);
    r
}

/// A text without its trailing `'/'` characters.
pub open spec fn without_trailing_slashes(s: Seq<char>) -> Seq<char>
    decreases s.len(),
{
    if s.len() > 0 && s.last() == '/' {
        without_trailing_slashes(s.drop_last())
    } else {
        s
    }
}

/// Removes trailing `'/'` characters, as a base URL is written.
pub fn trim_trailing_slashes(value: &str) -> (r: String)
    ensures
        r@ == without_trailing_slashes(value@),
{
    let chars = chars_of(value);
    let mut end: usize = chars.len();
    assert(chars@.take(end as int) =~= chars@);
    while end > 0 && chars[end - 1] == '/'
        invariant
            end <= chars@.len(),
            without_trailing_slashes(value@) == without_trailing_slashes(chars@.take(end as int)),
            chars@ == value@,
        decreases end,
    {
        assert(chars@.take(end as int).drop_last() =~= chars@.take(end - 1));
        end = end - 1;
    }
    let mut kept: Vec<char> = Vec::new();
    let mut i: usize = 0;
    while i < end
        invariant
            i <= end <= chars@.len(),
            kept@ == chars@.take(i as int),
        decreases end - i,
    {
        kept.push(chars[i]);
        i = i + 1;
        assert(kept@ =~= chars@.take(i as int));
    }
    string_from_chars(&kept)
}

/// Heartbeat settings are consistent when a silent client is only closed
/// after the next ping would have been sent.
pub fn heartbeat_consistent(ping_interval_secs: u64, inactivity_timeout_secs: u64) -> (r: bool)
    ensures
        r == (inactivity_timeout_secs > ping_interval_secs),
{
    inactivity_timeout_secs > ping_interval_secs
}

// ---------------------------------------------------------------------------
// Rooms
// ---------------------------------------------------------------------------

/// Attempts at drawing an unused room code before giving up.
pub const ROOM_CODE_ATTEMPTS: usize = 64;

/// Room creation failure.
#[derive(Debug)]
pub enum CreateRoomError {
    /// Process has started graceful shutdown.
    Unavailable,
    /// Generated codes repeatedly collided with active rooms.
    CodeSpaceExhausted,
    /// Settings or the configured word pool could not construct a game.
    InvalidGame(GameBuildError),
    /// Internal room-code generation violated the shared alphabet.
    InvalidGeneratedCode,
}

/// `rand::Rng::random_range(0..ROOM_CODE_ALPHABET_LEN)` on the thread-local
/// generator. Only the range of the result is stated.
#[verifier::external_body]
fn random_alphabet_index() -> (i: usize)
    ensures
        i < ROOM_CODE_ALPHABET_LEN,
{
    rand::Rng::random_range(&mut rand::rng(), 0..ROOM_CODE_ALPHABET_LEN)
}

/// The room code whose characters are the alphabet entries at `indices`.
pub fn code_from_indices(indices: [usize; 6]) -> (r: Result<RoomCode, CreateRoomError>)
    ensures
        (forall|i: int| 0 <= i < 6 ==> #[trigger] indices@[i] < ROOM_CODE_ALPHABET_LEN) ==> (r matches Ok(
            code,
        ) && code.spec_bytes() == indices@.map_values(|i: usize| room_code_alphabet_at(i as int))),
        (exists|i: int| 0 <= i < 6 && #[trigger] indices@[i] >= ROOM_CODE_ALPHABET_LEN) ==> r matches Err(
            CreateRoomError::InvalidGeneratedCode,
        ),
{
    let mut bytes: [u8; 6] = [0; 6];
    let mut i: usize = 0;
    while i < 6
        invariant
            i <= 6,
            forall|j: int| 0 <= j < i ==> #[trigger] indices@[j] < ROOM_CODE_ALPHABET_LEN,
            forall|j: int| 0 <= j < i ==> #[trigger] bytes@[j] == room_code_alphabet_at(indices@[j] as int),
            forall|j: int| 0 <= j < i ==> crate::limit::in_room_code_alphabet(#[trigger] bytes@[j]),
        decreases 6 - i,
    {
        if indices[i] >= ROOM_CODE_ALPHABET_LEN {
            return Err(CreateRoomError::InvalidGeneratedCode);
        }
        bytes.set(i, room_code_alphabet_byte(indices[i]));
        i = i + 1;
    }
    match RoomCode::new(bytes) {
        Ok(code) => {
            assert(bytes@ =~= indices@.map_values(|i: usize| room_code_alphabet_at(i as int)));
            Ok(code)
        },
        Err(_) => Err(CreateRoomError::InvalidGeneratedCode),
    }
}

/// Draws a random room code: six characters of the alphabet.
pub fn random_room_code() -> (r: Result<RoomCode, CreateRoomError>)
    ensures
        r matches Ok(code) && crate::ids::valid_room_code(code.spec_bytes()),
{
    let mut indices: [usize; 6] = [0; 6];
    let mut i: usize = 0;
    while i < 6
        invariant
            i <= 6,
            forall|j: int| 0 <= j < 6 ==> #[trigger] indices@[j] < ROOM_CODE_ALPHABET_LEN,
        decreases 6 - i,
    {
        indices.set(i, random_alphabet_index());
        i = i + 1;
    }
    code_from_indices(indices)
}

/// JSON response returned after a room is registered.
#[derive(Debug, Clone, PartialEq, Eq)]
pub struct CreateRoomResponse {
    /// Six-character invite code.
    pub room_code: RoomCode,
    /// Public binary WebSocket endpoint.
    pub websocket_url: String,
    /// Unix-millisecond lobby expiration timestamp.
    pub lobby_expires_at_ms: u64,
}

/// The WebSocket endpoint of a room under a public base URL.
pub open spec fn room_url(base: Seq<char>, code: RoomCode) -> Seq<char> {
    base + "/v1/ws/"@ + code.spec_bytes().map_values(|b: u8| b as char)
}

/// Describes a newly created room to its creator.
pub fn created_room(base_url: &str, room_code: RoomCode, now_unix_ms: u64, lobby_timeout_ms: u64) -> (r:
    CreateRoomResponse)
    ensures
        r.room_code == room_code,
        r.websocket_url@ == room_url(base_url@, room_code),
        r.lobby_expires_at_ms == sat_add(now_unix_ms, lobby_timeout_ms),
{
    let mut url = String::new();
    push_str(&mut url, base_url);
    push_str(&mut url, "/v1/ws/");
    let code = room_code.to_string();
    push_str(&mut url, code.as_str());
    CreateRoomResponse {
        room_code,
        websocket_url: url,
        lobby_expires_at_ms: now_unix_ms.saturating_add(lobby_timeout_ms),
    }
}

// ---------------------------------------------------------------------------
// Voice chat
// ---------------------------------------------------------------------------

/// Lifetime of a voice-chat grant in seconds.
pub const TOKEN_TTL_SECONDS: u64 = 21_600;

/// Why a voice-chat grant request is refused.
#[derive(Debug, Clone, Copy, PartialEq, Eq, Structural)]
pub enum VoiceRejection {
    /// The room code is malformed.
    InvalidRoomCode,
    /// The display name fails profile validation.
    InvalidDisplayName,
}

/// Checks a voice-chat grant request: a well-formed room code and a valid
/// display name.
pub fn voice_request(room_code: &str, display_name: String) -> (r: Result<(RoomCode, PlayerProfile), VoiceRejection>)
    ensures
        match r {
            Ok((code, profile)) => {
                &&& code_text_ok(room_code.spec_bytes())
                &&& code.spec_bytes() == room_code.spec_bytes()
                &&& profile.display_name == display_name
                &&& forall|i: int| 0 <= i < 8 ==> profile.avatar@[i] == 0
                &&& check_profile(profile) is Ok
            },
            Err(VoiceRejection::InvalidRoomCode) => !code_text_ok(room_code.spec_bytes()),
            Err(VoiceRejection::InvalidDisplayName) => {
                &&& code_text_ok(room_code.spec_bytes())
                &&& crate::validate::check_display_name(display_name@) is Err
            },
        },
{
    let code = match RoomCode::parse_str(room_code) {
        Ok(code) => code,
        Err(_) => {
            return Err(VoiceRejection::InvalidRoomCode);
        },
    };
    let profile = PlayerProfile { display_name, avatar: [0; 8] };
    match profile.validate() {
        Ok(()) => Ok((code, profile)),
        Err(_) => Err(VoiceRejection::InvalidDisplayName),
    }
}

/// The participant identity of a voice grant.
pub open spec fn identity_text(player_id: Option<u32>, suffix: Seq<char>) -> Seq<char> {
    match player_id {
        Some(id) => "player-"@ + decimal(id as nat) + "-"@ + suffix,
        None => "guest-"@ + suffix,
    }
}

/// The participant identity of a voice grant: the player identity when
/// known, then a random suffix.
pub fn voice_identity(player_id: Option<u32>, suffix: &str) -> (r: String)
    ensures
        r@ == identity_text(player_id, suffix@),
{
    let mut s = String::new();
    match player_id {
        Some(id) => {
            push_str(&mut s, "player-");
            push_decimal(&mut s, id as u64);
            push_str(&mut s, "-");
        },
        None => {
            push_str(&mut s, "guest-");
        },
    }
    push_str(&mut s, suffix);
    assert(s@ =~= identity_text(player_id, suffix@));
    s
}

/// An ASCII letter or digit.
pub open spec fn ascii_alphanumeric(c: char) -> bool {
    (65 <= c as u32 <= 90) || (97 <= c as u32 <= 122) || (48 <= c as u32 <= 57)
}

/// One draw of `rand`'s `Alphanumeric` distribution from the thread-local
/// generator, which yields an ASCII letter or digit; which one is not stated.
#[verifier::external_body]
fn random_alphanumeric() -> (c: char)
    ensures
        ascii_alphanumeric(c),
{
    char::from(rand::Rng::sample(&mut rand::rng(), rand::distr::Alphanumeric))
}

/// Number of random characters that end a voice identity.
pub const VOICE_SUFFIX_LENGTH: usize = 8;

/// A fresh voice identity for a participant: its identity text ended by
/// eight random ASCII letters or digits.
pub fn fresh_voice_identity(player_id: Option<u32>) -> (r: String)
    ensures
        exists|suffix: Seq<char>|
            suffix.len() == VOICE_SUFFIX_LENGTH && (forall|i: int|
                0 <= i < suffix.len() ==> ascii_alphanumeric(#[trigger] suffix[i])) && r@ == identity_text(
                player_id,
                suffix,
            ),
{
    let mut suffix = String::new();
    let mut i: usize = 0;
    while i < VOICE_SUFFIX_LENGTH
        invariant
            i <= VOICE_SUFFIX_LENGTH,
            suffix@.len() == i,
            forall|j: int| 0 <= j < i ==> ascii_alphanumeric(#[trigger] suffix@[j]),
        decreases VOICE_SUFFIX_LENGTH - i,
    {
        push_char(&mut suffix, random_alphanumeric());
        i = i + 1;
    }
    voice_identity(player_id, suffix.as_str())
}

/// What a voice-chat grant says: who issued it, who may use it and when,
/// and the room it opens, with publishing of audio but not of data.
#[derive(Debug, Clone, PartialEq, Eq)]
pub struct VoiceGrant {
    pub issuer: String,
    pub identity: String,
    pub name: String,
    pub not_before: u64,
    pub expires: u64,
    pub room: String,
    pub room_join: bool,
    pub can_publish: bool,
    pub can_subscribe: bool,
    pub can_publish_data: bool,
}

/// The grant for one participant, valid from `now_secs` for six hours.
pub fn voice_grant(issuer: String, identity: String, name: String, now_secs: u64, room: RoomCode) -> (g: VoiceGrant)
    ensures
        g.issuer == issuer,
        g.identity == identity,
        g.name == name,
        g.not_before == now_secs,
        g.expires == sat_add(now_secs, TOKEN_TTL_SECONDS),
        g.room@ == room.spec_bytes().map_values(|b: u8| b as char),
        g.room_join && g.can_publish && g.can_subscribe && !g.can_publish_data,
{
    VoiceGrant {
        issuer,
        identity,
        name,
        not_before: now_secs,
        expires: now_secs.saturating_add(TOKEN_TTL_SECONDS),
        room: room.to_string(),
        room_join: true,
        can_publish: true,
        can_subscribe: true,
        can_publish_data: false,
    }
}

} // verus!
