//! A verified core for a Bitcoin peer-to-peer wire-protocol client.
//!
//! The crate frames and parses protocol messages, decodes blocks and
//! transactions, and drives the version/verack handshake and the steady-state
//! dispatch decisions.  Socket I/O and the terminal front end live outside
//! this library and talk to it through plain values.

pub mod connection;
pub mod decoders;
pub mod serialisers;
pub mod structures;
pub mod utils;
