//! next-socks5: the rules of a lightweight SOCKS5 server (RFC 1928 + RFC 1929).
//!
//! Everything here is a function of plain values: codecs work on byte slices,
//! and each conversation with a peer is a state machine that is told what
//! happened and answers with what to do next. Sockets, timers and the terminal
//! belong to the program built on top.

pub mod admin;
pub mod auth;
pub mod bytes;
pub mod config;
pub mod dns;
pub mod error;
pub mod metrics;
pub mod mock;
pub mod net;
pub mod protocol;
pub mod ring;
pub mod server;
pub mod text;
pub mod tui;
