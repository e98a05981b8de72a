//! Core of a protocol-translating reverse proxy between a structured
//! responses API and a legacy chat-completions API.
//!
//! The library holds the verified logic: the frame codec that reassembles
//! server-sent-event lines from arbitrary byte chunks ([`sse_codec`]), the
//! translator from inbound items to legacy chat messages ([`upstream`]), the
//! streaming transcoder from legacy delta chunks to ordered lifecycle events
//! ([`transcoder`]), the per-request pipeline that ties codec, chunk parsing
//! and transcoding together ([`session`]), the reconstruction of output
//! items for persistence ([`store`]), and the request-orchestrator decisions
//! ([`orchestrator`]).  HTTP serving, upstream I/O and the relational store
//! live outside the library and call into it with plain values.

pub mod orchestrator;
pub mod session;
pub mod sse_codec;
pub mod store;
pub mod transcoder;
pub mod types;
pub mod upstream;
