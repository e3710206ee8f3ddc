//! Incremental response-assembly engine for a streaming chat client.
//!
//! The library has two layers. The event decoder turns raw server-sent-event
//! payloads (one JSON object per event, or the `[DONE]` sentinel) into typed
//! `Response` events. The message accumulator folds those events into an
//! ordered conversation of messages, each either in progress or complete,
//! and projects the complete messages into the request payload for the next
//! round trip. The transport, the line editor and the terminal stay outside;
//! they hand this library plain strings and take plain values back.

pub mod client;
pub mod errors;
pub mod state;

pub use errors::Errors;
