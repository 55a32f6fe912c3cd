//! Decision logic of a Telegram relay for camera frames: configuration
//! helpers, chat-id text handling, bot command parsing, frame framing and
//! the delivery and user-collection state machines.

pub mod text;
pub mod decimal;
pub mod config;
pub mod frame;
pub mod image;
pub mod spectral;
pub mod angle;
pub mod command;
pub mod delivery;
pub mod collector;
