//! Clipboard synchronisation between paired devices, as verified logic.
//!
//! The library holds everything that decides or computes: the wire protocol's
//! messages, pairing, session and relay state, the clipboard rules that stop a
//! change from echoing back, chunked transfers and end-to-end encryption of
//! relayed payloads. Sockets, files, subprocesses and JSON stay outside; callers
//! hand in plain values and carry out the actions that come back.

pub mod auth;
pub mod client;
pub mod clipboard;
pub mod clock;
pub mod config;
pub mod daemon;
pub mod discovery;
pub mod dispatch;
pub mod encoding;
pub mod entropy;
pub mod error;
pub mod hashing;
pub mod outbound;
pub mod pairing;
pub mod peer;
pub mod persistence;
pub mod protocol;
pub mod relay;
pub mod relay_crypto;
pub mod server;
pub mod sort;
pub mod state;
pub mod table;
pub mod text;
pub mod tls;
pub mod transfer;
pub mod transport;
pub mod tray;
