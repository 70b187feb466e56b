//! Core of a line-delimited chat broadcast relay.
//!
//! Clients connect over a byte stream and exchange newline-delimited JSON
//! messages; every message a client sends is fanned out to all other
//! connected clients through a shared broadcast hub with a bounded backlog.
//!
//! This crate holds the verified core: the frame accumulation buffer that
//! splits the raw byte stream into lines (`framing`), the message codec
//! (`codec`), the broadcast hub with its backlog and per-subscriber cursors
//! (`hub`), and the per-connection session state machine (`session`). The
//! transport itself — accepting connections, reading bytes, writing bytes —
//! is left to the surrounding program, which drives a `session::Session`
//! with the events it observes.

pub mod codec;
pub mod framing;
pub mod hub;
pub mod message;
pub mod session;
