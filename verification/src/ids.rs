//! Strongly typed identifiers shared across the wire.

use vstd::arithmetic::power::pow;
use vstd::prelude::*;
use vstd::string::StringSliceAdditionalSpecFns;
use vstd::utf8::{encode_utf8, is_ascii_chars, is_ascii_chars_encode_utf8};

use crate::error::RoomCodeParseError;
use crate::limit::{in_room_code_alphabet, is_room_code_byte, ROOM_CODE_LENGTH};
use crate::text::push_char;

verus! {

/// Stable anonymous browser identity used to reclaim a departed player slot,
/// held as the 128-bit value of its UUID.
#[derive(Debug, Clone, Copy, PartialEq, Eq, Hash, Structural)]
pub struct ClientToken(pub u128);

/// Lower-case hexadecimal digit of a value below sixteen.
pub open spec fn hex_digit(n: int) -> char {
    if n < 10 {
        (48 + n) as char
    } else {
        (87 + n) as char
    }
}

/// Hexadecimal digit `k` of a 128-bit value, counted from the most
/// significant of its 32 digits.
pub open spec fn nibble(value: u128, k: int) -> int {
    (value as int / pow(16, (31 - k) as nat)) % 16
}

/// Hyphens before position `i` of a hyphenated UUID text.
pub open spec fn hyphens_before(i: int) -> int {
    if i < 8 {
        0
    } else if i < 13 {
        1
    } else if i < 18 {
        2
    } else if i < 23 {
        3
    } else {
        4
    }
}

/// Text of a UUID as `uuid::Uuid` prints it: its 32 lower-case hexadecimal
/// digits, most significant first, grouped 8-4-4-4-12 by hyphens.
pub open spec fn uuid_text(value: u128) -> Seq<char> {
    Seq::new(
        36,
        |i: int|
            if i == 8 || i == 13 || i == 18 || i == 23 {
                '-'
            } else {
                hex_digit(nibble(value, i - hyphens_before(i)))
            },
    )
}

/// The UUID a text denotes, as `uuid::Uuid::parse_str` reads it (simple,
/// hyphenated, braced or URN form, in either case).
pub uninterp spec fn uuid_parsed(text: Seq<char>) -> Option<u128>;

/// Whether a 128-bit value is a version-4 UUID of the RFC variant: its
/// version digit is 4 and the top two bits of its variant field are `10`.
pub open spec fn is_version4(value: u128) -> bool {
    &&& (value >> 76u128) & 0xfu128 == 4
    &&& (value >> 62u128) & 0x3u128 == 2
}

/// `uuid::Uuid::new_v4`: a random UUID whose version and variant bits are
/// set to version 4 of the RFC variant; the other bits are not stated.
#[verifier::external_body]
fn random_uuid() -> (v: u128)
    ensures
        is_version4(v),
{
    uuid::Uuid::new_v4().as_u128()
}

/// `uuid::Uuid::parse_str`, keeping the 128-bit value. Among the forms it
/// reads is the hyphenated lower-case text it prints.
#[verifier::external_body]
fn parse_uuid(text: &str) -> (r: Option<u128>)
    ensures
        r == uuid_parsed(text@),
        forall|v: u128| text@ == #[trigger] uuid_text(v) ==> r == Some(v),
{
    match uuid::Uuid::parse_str(text) {
        Ok(u) => Some(u.as_u128()),
        Err(_) => None,
    }
}

/// `uuid::Uuid`'s `Display`.
#[verifier::external_body]
fn format_uuid(value: u128) -> (s: String)
    ensures
        s@ == uuid_text(value),
{
    uuid::Uuid::from_u128(value).to_string()
}

/// A text that is not a UUID.
#[derive(Debug, Clone, Copy, PartialEq, Eq, Structural)]
pub struct InvalidClientToken;

impl ClientToken {
    /// Creates a random version-4 client token.
    pub fn new() -> (t: ClientToken)
        ensures
            is_version4(t.0),
    {
        ClientToken(random_uuid())
    }

    /// Reads a client token from its UUID text; the text a token prints reads
    /// back as that token.
    pub fn parse_str(text: &str) -> (r: Result<ClientToken, InvalidClientToken>)
        ensures
            match uuid_parsed(text@) {
                Some(v) => r == Ok::<ClientToken, InvalidClientToken>(ClientToken(v)),
                None => r == Err::<ClientToken, InvalidClientToken>(InvalidClientToken),
            },
            forall|v: u128| text@ == #[trigger] uuid_text(v) ==> r == Ok::<ClientToken, InvalidClientToken>(ClientToken(v)),
    {
        match parse_uuid(text) {
            Some(v) => Ok(ClientToken(v)),
            None => Err(InvalidClientToken),
        }
    }

    /// The UUID text of the token.
    pub fn to_string(&self) -> (s: String)
        ensures
            s@ == uuid_text(self.0),
    {
        format_uuid(self.0)
    }
}

impl Default for ClientToken {
    fn default() -> (t: ClientToken)
        ensures
            is_version4(t.0),
    {
        ClientToken::new()
    }
}

impl std::str::FromStr for ClientToken {
    type Err = InvalidClientToken;

    fn from_str(value: &str) -> (r: Result<Self, Self::Err>)
        ensures
            match uuid_parsed(value@) {
                Some(v) => r == Ok::<ClientToken, InvalidClientToken>(ClientToken(v)),
                None => r == Err::<ClientToken, InvalidClientToken>(InvalidClientToken),
            },
            forall|v: u128| value@ == #[trigger] uuid_text(v) ==> r == Ok::<ClientToken, InvalidClientToken>(ClientToken(v)),
    {
        ClientToken::parse_str(value)
    }
}

/// Server-assigned player identity within one room.
#[derive(Debug, Clone, Copy, PartialEq, Eq, Hash, Structural)]
pub struct PlayerId(pub u32);

/// Monotonically increasing drawing-turn identity within one room.
#[derive(Debug, Clone, Copy, PartialEq, Eq, Hash, Structural)]
pub struct TurnId(pub u32);

/// Drawer-assigned stroke identity, scoped to one turn.
#[derive(Debug, Clone, Copy, PartialEq, Eq, Hash, Structural)]
pub struct StrokeId(pub u32);

/// Six-character, human-shareable room identifier.
#[derive(Debug, Clone, Copy, PartialEq, Eq, Hash)]
pub struct RoomCode {
    bytes: [u8; 6],
}

/// Index of the first byte outside the room-code alphabet, if any.
pub open spec fn first_invalid_code_byte(bytes: Seq<u8>) -> Option<int> {
    if exists|i: int| 0 <= i < bytes.len() && !in_room_code_alphabet(#[trigger] bytes[i]) {
        Some(
            choose|i: int|
                0 <= i < bytes.len() && !in_room_code_alphabet(#[trigger] bytes[i]) && forall|j: int|
                    0 <= j < i ==> in_room_code_alphabet(#[trigger] bytes[j]),
        )
    } else {
        None
    }
}

/// Whether the bytes of a text form a room code.
pub open spec fn code_text_ok(bytes: Seq<u8>) -> bool {
    bytes.len() == ROOM_CODE_LENGTH && first_invalid_code_byte(bytes) is None
}

/// Whether a byte sequence is a valid room code.
pub open spec fn valid_room_code(bytes: Seq<u8>) -> bool {
    bytes.len() == ROOM_CODE_LENGTH && forall|i: int|
        0 <= i < bytes.len() ==> in_room_code_alphabet(#[trigger] bytes[i])
}

impl RoomCode {
    /// The code's bytes.
    pub closed spec fn spec_bytes(&self) -> Seq<u8> {
        self.bytes@
    }

    /// Every room code holds six alphabet bytes.
    #[verifier::type_invariant]
    pub closed spec fn wf(&self) -> bool {
        valid_room_code(self.bytes@)
    }

    /// Validates and constructs a room code from its ASCII bytes.
    pub fn new(bytes: [u8; 6]) -> (r: Result<RoomCode, RoomCodeParseError>)
        ensures
            match first_invalid_code_byte(bytes@) {
                Some(i) => r == Err::<RoomCode, RoomCodeParseError>(
                    RoomCodeParseError::InvalidCharacter { index: i as usize },
                ),
                None => r matches Ok(code) && code.spec_bytes() == bytes@ && code.wf(),
            },
    {
        let mut i: usize = 0;
        while i < 6
            invariant
                i <= 6,
                forall|j: int| 0 <= j < i ==> in_room_code_alphabet(#[trigger] bytes@[j]),
            decreases 6 - i,
        {
            if !is_room_code_byte(bytes[i]) {
                proof {
                    let w = choose|k: int|
                        0 <= k < bytes@.len() && !in_room_code_alphabet(#[trigger] bytes@[k])
                            && forall|j: int| 0 <= j < k ==> in_room_code_alphabet(#[trigger] bytes@[j]);
                    assert(!in_room_code_alphabet(bytes@[i as int]));
                    if w < i {
                        assert(in_room_code_alphabet(bytes@[w]));
                    } else if w > i {
                        assert(in_room_code_alphabet(bytes@[i as int]));
                    }
                }
                return Err(RoomCodeParseError::InvalidCharacter { index: i });
            }
            i = i + 1;
        }
        Ok(RoomCode { bytes })
    }

    /// Returns the validated ASCII bytes.
    pub fn as_bytes(&self) -> (r: &[u8; 6])
        ensures
            r@ == self.spec_bytes(),
    {
        &self.bytes
    }

    /// Parses a room code from its six-character text form.
    pub fn parse_str(value: &str) -> (r: Result<RoomCode, RoomCodeParseError>)
        ensures
            value.spec_bytes().len() != ROOM_CODE_LENGTH ==> r == Err::<RoomCode, RoomCodeParseError>(
                RoomCodeParseError::InvalidLength {
                    expected: ROOM_CODE_LENGTH,
                    actual: value.spec_bytes().len() as usize,
                },
            ),
            value.spec_bytes().len() == ROOM_CODE_LENGTH ==> match first_invalid_code_byte(
                value.spec_bytes(),
            ) {
                Some(i) => r == Err::<RoomCode, RoomCodeParseError>(
                    RoomCodeParseError::InvalidCharacter { index: i as usize },
                ),
                None => r matches Ok(code) && code.spec_bytes() == value.spec_bytes(),
            },
    {
        let b = value.as_bytes();
        if b.len() != ROOM_CODE_LENGTH {
            return Err(RoomCodeParseError::InvalidLength { expected: ROOM_CODE_LENGTH, actual: value.len() });
        }
        let bytes: [u8; 6] = [b[0], b[1], b[2], b[3], b[4], b[5]];
        assert(bytes@ =~= b@);
        RoomCode::new(bytes)
    }

    /// The six-character text form of the code; its UTF-8 bytes are the
    /// code's bytes, so it reads back as the same code.
    pub fn to_string(&self) -> (s: String)
        ensures
            s@ == code_text(self.spec_bytes()),
            encode_utf8(s@) == self.spec_bytes(),
    {
        proof {
            use_type_invariant(self);
            lemma_code_text_round_trip(*self, *self);
        }
        let mut s = String::new();
        let mut i: usize = 0;
        while i < 6
            invariant
                i <= 6,
                s@ == self.bytes@.take(i as int).map_values(|b: u8| b as char),
            decreases 6 - i,
        {
            push_char(&mut s, self.bytes[i] as char);
            i = i + 1;
            assert(s@ =~= self.bytes@.take(i as int).map_values(|b: u8| b as char));
        }
        assert(self.bytes@.take(6) =~= self.bytes@);
        s
    }
}

impl std::str::FromStr for RoomCode {
    type Err = RoomCodeParseError;

    fn from_str(value: &str) -> (r: Result<Self, Self::Err>)
        ensures
            value.spec_bytes().len() != ROOM_CODE_LENGTH ==> r == Err::<RoomCode, RoomCodeParseError>(
                RoomCodeParseError::InvalidLength {
                    expected: ROOM_CODE_LENGTH,
                    actual: value.spec_bytes().len() as usize,
                },
            ),
            value.spec_bytes().len() == ROOM_CODE_LENGTH ==> match first_invalid_code_byte(
                value.spec_bytes(),
            ) {
                Some(i) => r == Err::<RoomCode, RoomCodeParseError>(
                    RoomCodeParseError::InvalidCharacter { index: i as usize },
                ),
                None => r matches Ok(code) && code.spec_bytes() == value.spec_bytes(),
            },
    {
        RoomCode::parse_str(value)
    }
}

/// The characters a room code prints: one per byte.
pub open spec fn code_text(bytes: Seq<u8>) -> Seq<char> {
    bytes.map_values(|b: u8| b as char)
}

/// Printing and reading back a room code gives the same code: the printed
/// text is ASCII, its UTF-8 bytes are the code's bytes, they form a code,
/// and codes with the same bytes are the same code.
pub proof fn lemma_code_text_round_trip(code: RoomCode, other: RoomCode)
    requires
        code.wf(),
    ensures
        encode_utf8(code_text(code.spec_bytes())) == code.spec_bytes(),
        code_text_ok(code.spec_bytes()),
        other.spec_bytes() == code.spec_bytes() ==> other == code,
{
    let b = code.spec_bytes();
    let t = code_text(b);
    assert forall|i: int| 0 <= i < t.len() implies '\0' <= #[trigger] t[i] <= '\u{7f}' by {
        assert(in_room_code_alphabet(b[i]));
    }
    assert(is_ascii_chars(t));
    is_ascii_chars_encode_utf8(t);
    assert(encode_utf8(t) =~= b);
    assert(first_invalid_code_byte(b) is None);
    if other.spec_bytes() == code.spec_bytes() {
        assert(other.bytes == code.bytes);
    }
}

} // verus!
