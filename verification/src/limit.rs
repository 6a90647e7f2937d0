//! Limits that are part of protocol version 2. Producers and consumers both
//! enforce these values.

use vstd::prelude::*;

verus! {

/// Version byte placed at the beginning of every binary frame.
pub const PROTOCOL_VERSION: u8 = 2;

/// Largest accepted binary WebSocket message, including version and opcode.
pub const MAX_FRAME_BYTES: usize = 16384;

/// Largest number of players that a room may advertise.
pub const MAX_PLAYERS_IN_ROOM: usize = 12;

/// Largest display name measured in Unicode grapheme clusters.
pub const MAX_NAME_GRAPHEMES: usize = 24;

/// Largest chat message or guess measured as UTF-8 bytes.
pub const MAX_TEXT_BYTES: usize = 200;

/// Largest word or masked-word representation measured as UTF-8 bytes.
pub const MAX_WORD_BYTES: usize = 96;

/// Largest number of points accepted in one drawing batch.
pub const MAX_POINTS_PER_BATCH: usize = 64;

/// Maximum number of ordered strokes and fills carried in a reconnect snapshot.
pub const MAX_CANVAS_ACTIONS: usize = 2048;

/// Maximum number of points carried in one complete stroke snapshot.
pub const MAX_POINTS_PER_STROKE: usize = 16384;

/// Logical canvas width. Valid horizontal coordinates are `0..=CANVAS_WIDTH`.
pub const CANVAS_WIDTH: u16 = 1024;

/// Logical canvas height. Valid vertical coordinates are `0..=CANVAS_HEIGHT`.
pub const CANVAS_HEIGHT: u16 = 960;

/// Largest chat backlog included in a room snapshot.
pub const MAX_CHAT_HISTORY: usize = 64;

/// Number of ASCII characters in a room code.
pub const ROOM_CODE_LENGTH: usize = 6;

/// Minimum supported number of rounds.
pub const MIN_ROUNDS: u8 = 1;

/// Maximum supported number of rounds.
pub const MAX_ROUNDS: u8 = 10;

/// Minimum drawing duration in seconds.
pub const MIN_DRAW_SECONDS: u16 = 15;

/// Maximum drawing duration in seconds.
pub const MAX_DRAW_SECONDS: u16 = 300;

/// Minimum number of word choices offered to a drawer.
pub const MIN_WORD_CHOICES: u8 = 1;

/// Maximum number of word choices offered to a drawer.
pub const MAX_WORD_CHOICES: u8 = 8;

/// Minimum number of players required by a room configuration.
pub const MIN_ROOM_PLAYERS: u8 = 2;

/// Largest supported brush width in logical canvas units.
pub const MAX_BRUSH_WIDTH: u8 = 64;

/// Largest RGB color value (`0x00RRGGBB`).
pub const MAX_COLOR: u32 = 0x00ff_ffff;

/// Whether a byte belongs to the room-code alphabet
/// `ABCDEFGHJKLMNPQRSTUVWXYZ23456789`. Easily confused characters
/// (`0`, `1`, `I`, and `O`) are intentionally omitted.
pub open spec fn in_room_code_alphabet(b: u8) -> bool {
    ||| (65 <= b <= 90 && b != 73 && b != 79)
    ||| (50 <= b <= 57)
}

/// Returns the `index`-th byte of the room-code alphabet.
pub open spec fn room_code_alphabet_at(index: int) -> u8 {
    if index < 8 {
        (65 + index) as u8
    } else if index < 13 {
        (66 + index) as u8
    } else if index < 24 {
        (67 + index) as u8
    } else {
        (26 + index) as u8
    }
}

/// Number of bytes in the room-code alphabet.
pub const ROOM_CODE_ALPHABET_LEN: usize = 32;

/// Executable alphabet membership test.
pub fn is_room_code_byte(b: u8) -> (r: bool)
    ensures
        r == in_room_code_alphabet(b),
{
    (65 <= b && b <= 90 && b != 73 && b != 79) || (50 <= b && b <= 57)
}

/// Byte of the room-code alphabet at a position below its length.
pub fn room_code_alphabet_byte(index: usize) -> (b: u8)
    requires
        index < ROOM_CODE_ALPHABET_LEN,
    ensures
        b == room_code_alphabet_at(index as int),
        in_room_code_alphabet(b),
{
    if index < 8 {
        (65 + index) as u8
    } else if index < 13 {
        (66 + index) as u8
    } else if index < 24 {
        (67 + index) as u8
    } else {
        (26 + index) as u8
    }
}

} // verus!
