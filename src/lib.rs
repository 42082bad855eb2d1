//! Streaming generation against a local inference server: request payloads,
//! a newline-delimited JSON stream decoder, and the session state machine
//! with cooperative cancellation.
pub mod client;
pub mod conversation;
pub mod decoder;
pub mod json;
pub mod session;
pub mod text;
