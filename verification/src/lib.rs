//! Core of a per-guild playback controller: an ordered track queue, a
//! player state machine, a session registry keyed by guild, and the
//! validation/adapter layer that turns command arguments into operations
//! on them. Everything here is verified; the chat gateway, the audio
//! transport and other I/O live outside and drive this library with plain
//! values.
pub mod commands;
pub mod error;
pub mod numfmt;
pub mod player;
pub mod registry;
pub mod queue;
pub mod session;
pub mod track;
pub mod validate;
