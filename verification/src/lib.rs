//! A verified control-plane client library for a running network-security
//! engine.
//!
//! The library pairs a command registry and parser, which validate one line
//! of free-form input against a fixed per-command argument schema, with a
//! protocol client that frames structured requests for a persistent local
//! socket connection and enforces a strict one-request-in-flight cycle.
//! Connection I/O itself, line editing and flag handling live outside the
//! library; everything here is pure computation with proved contracts.

pub mod client;
pub mod commands;
pub mod parser;
pub mod text;
pub mod wire;
