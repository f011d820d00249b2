//! Core of a multi-room chat server: message and room data model, the two
//! registries (rooms and connected clients), frame delimiting for the wire,
//! command parsing, and the per-connection session state machine.
//!
//! Transport, JSON encoding of frames, and the terminal client live outside
//! this crate; they hand plain values in and take plain values back.

pub mod channel;
pub mod client_manager;
pub mod codec;
pub mod command;
pub mod errors;
pub mod message;
pub mod room;
pub mod room_manager;
pub mod session;
pub mod ui;
