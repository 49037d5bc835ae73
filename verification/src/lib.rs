//! Core of an asynchronous client for a brokerage gateway's wire protocol.
//!
//! One TCP connection carries many concurrent logical conversations, each
//! identified by a per-request integer ID. This crate holds the verified
//! heart of such a client: the framed wire codec, the frame parser, and the
//! request/response demultiplexer with its routing tables. The surrounding
//! I/O shell (sockets, tasks, channels) lives outside the library and drives
//! these functions with plain values.

pub mod numfmt;
pub mod dec;
pub mod tstamp;
pub mod types;
pub mod frame;
pub mod codec;
pub mod encode;
pub mod sinks;
pub mod router;
pub mod client;
pub mod wire;
