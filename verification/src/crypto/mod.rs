//! Authentication and encryption.

pub mod handshake;
pub mod noise;
