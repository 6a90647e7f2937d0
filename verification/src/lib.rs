//! Verified core of the NDraw drawing-and-guessing game: the versioned wire
//! protocol, its validation and framing, the authoritative canvas, the game
//! state machine, and the decisions of the room and server layers.

pub mod limit;
pub mod text;
pub mod error;
pub mod ids;
pub mod model;
pub mod unicode;
pub mod validate;
pub mod codec;
pub mod failure;
pub mod canvas;
pub mod time;
pub mod scoring;
pub mod guess;
pub mod shuffle;
pub mod words;
pub mod game;
pub mod messages;
pub mod room;
pub mod metrics;
pub mod catalogue;
pub mod server;
