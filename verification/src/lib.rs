//! A client-side core for the Debug Adapter Protocol.
//!
//! The crate holds the parts of a debug session that decide something:
//! how a declarative task becomes an adapter configuration ([`config`]),
//! how messages are framed on the wire ([`framing`]) and written and read
//! as JSON documents ([`wire`]), how a session numbers its requests,
//! correlates responses and moves through its lifecycle ([`session`], with
//! what holds of every session proved in [`session_lemmas`]), how adapter
//! identifiers become opaque handles that expire with each stop
//! ([`handles`]), and how the pieces meet for one request and one received
//! document ([`client`]).  [`eval`] holds the records and texts of
//! evaluation runs.  Nothing here performs I/O: every function maps plain
//! values to plain values and carries a contract.
pub mod client;
pub mod config;
pub mod eval;
pub mod framing;
pub mod handles;
pub mod session;
pub mod session_lemmas;
pub mod wire;
