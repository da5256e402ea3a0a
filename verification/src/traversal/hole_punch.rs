//! UDP hole punching: both sides send small packets until one gets through.

use vstd::prelude::*;

use crate::error::{Error, Result};
use crate::net::PeerAddr;
use crate::wire;

verus! {

pub const PUNCH_INTERVAL_MS: u64 = 200;

/// Thirty seconds of punching.
pub const PUNCH_COUNT: usize = 150;

pub const PUNCH_TIMEOUT_SECS: u64 = 35;

/// What a punch packet holds: `p2pshare-punch`.
pub open spec fn punch_bytes() -> Seq<u8> {
    seq![
        0x70u8, 0x32u8, 0x70u8, 0x73u8, 0x68u8, 0x61u8, 0x72u8, 0x65u8, 0x2du8, 0x70u8, 0x75u8,
        0x6eu8, 0x63u8, 0x68u8,
    ]
}

/// The bytes of a punch packet.
pub fn punch_packet() -> (r: Vec<u8>)
    ensures
        r@ == punch_bytes(),
        r@ == vstd::utf8::encode_utf8("p2pshare-punch"@),
{
    let r = "p2pshare-punch".as_bytes_vec();
    proof {
        reveal_strlit("p2pshare-punch");
        vstd::utf8::is_ascii_chars_encode_utf8("p2pshare-punch"@);
    }
    assert(r@ =~= punch_bytes());
    r
}

/// What waiting for the peer's packet has come to.
pub enum PunchEvent {
    /// A packet came in.
    Packet { from: PeerAddr, data: Vec<u8> },
    /// The socket failed, with this text.
    SocketError(String),
    /// The time is up.
    Timeout,
}

/// Handles what happened while waiting for the peer's packet: `None` to wait on.
///
/// Only a punch from the peer itself opens the path; other packets do not count.
pub fn on_punch_event(event: PunchEvent, peer: &PeerAddr) -> (r: Option<Result<()>>)
    ensures
        match event {
            PunchEvent::Packet { from, data } => if from == *peer && data@ == punch_bytes() {
                r is Some && r->0 is Ok
            } else {
                r is None
            },
            PunchEvent::SocketError(cause) => {
                r is Some && r->0 is Err && r->0->Err_0 == Error::Io(cause)
            },
            PunchEvent::Timeout => r is Some && r->0 is Err && r->0->Err_0 is HolePunchTimeout,
        },
{
    match event {
        PunchEvent::Packet { from, data } => {
            let expected = punch_packet();
            if from == *peer && wire::same_bytes(data.as_slice(), expected.as_slice()) {
                Some(Ok(()))
            } else {
                None
            }
        },
        PunchEvent::SocketError(cause) => Some(Err(Error::Io(cause))),
        PunchEvent::Timeout => Some(Err(Error::HolePunchTimeout)),
    }
}

/// A punch packet holds the text `p2pshare-punch`.
pub proof fn punch_is_its_text()
    ensures
        punch_bytes() == vstd::utf8::encode_utf8("p2pshare-punch"@),
{
    reveal_strlit("p2pshare-punch");
    vstd::utf8::is_ascii_chars_encode_utf8("p2pshare-punch"@);
    assert(punch_bytes() =~= vstd::utf8::encode_utf8("p2pshare-punch"@));
}

/// Thirty seconds of punching end before the wait for the peer's punch does.
pub proof fn punching_ends_before_the_wait()
    ensures
        PUNCH_COUNT * PUNCH_INTERVAL_MS == 30 * 1000,
        PUNCH_COUNT * PUNCH_INTERVAL_MS < PUNCH_TIMEOUT_SECS * 1000,
        PUNCH_TIMEOUT_SECS == 35,
{
}

} // verus!
