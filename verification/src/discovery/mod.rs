//! Finding the peer.

pub mod announcement;
pub mod dht;
pub mod mdns;
pub mod presence;
pub mod share_code;

pub use share_code::{generate_share_code, to_infohash, to_recv_infohash};
