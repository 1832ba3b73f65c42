//! The decisions of a playout server that loops a corpus of clips as one
//! continuous stream.

pub mod config;
pub mod elements;
pub mod http;
pub mod json;
pub mod nats;
pub mod player;
pub mod playlist;
pub mod publish;
pub mod runloop;
pub mod seek;
pub mod streak;
pub mod survey;
pub mod telemetry;
pub mod text;
pub mod watchdog;
