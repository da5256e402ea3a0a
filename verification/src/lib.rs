//! Peer-to-peer file transfer: the protocol logic.

pub mod api;
pub mod cli;
mod clock;
pub mod contacts;
pub mod crypto;
pub mod discovery;
pub mod error;
pub mod hash;
pub mod hexadecimal;
pub mod identity;
pub mod net;
mod random;
pub mod relay_server;
pub mod session;
pub mod text;
pub mod transfer;
pub mod traversal;
pub mod unicode;
pub mod uuids;
pub mod wire;
