//! Authenticated sessions with a peer.

pub mod chunk;
pub mod control;
pub mod coordinator;
pub mod peer_session;
pub mod relay_session;

use vstd::prelude::*;

pub use peer_session::PeerSession;
pub use relay_session::{RelayMsg, RelaySession};

verus! {

/// Control messages count their nonces up from zero; those of chunks start here, so that
/// the two ranges stay apart.
pub const CHUNK_NONCE_BASE: u64 = 0x1_0000_0000;

/// The nonce of piece `sub` of chunk `index`, over a direct connection and through the
/// relay alike.
pub open spec fn nonce_of(index: u32, sub: u32) -> u64 {
    (CHUNK_NONCE_BASE + index * 0x1_0000 + sub) as u64
}

/// The nonce of one piece of a chunk: 65536 slots for each chunk.
pub fn chunk_nonce(chunk_index: u32, sub_index: u32) -> (nonce: u64)
    ensures
        nonce == nonce_of(chunk_index, sub_index),
        nonce == CHUNK_NONCE_BASE + chunk_index * 0x1_0000 + sub_index,
{
    CHUNK_NONCE_BASE + chunk_index as u64 * 0x1_0000 + sub_index as u64
}

/// No two pieces of a transfer share a nonce, as long as none of its chunks has
/// more than 65536 pieces.
pub proof fn chunk_nonces_differ(i: u32, s: u32, j: u32, t: u32)
    requires
        s < 0x1_0000,
        t < 0x1_0000,
        i != j || s != t,
    ensures
        nonce_of(i, s) != nonce_of(j, t),
{
}

/// The nonces of chunks start at 2^32, each chunk has 2^16 of them, and its pieces take
/// them one after the other.
pub proof fn chunk_nonces_are_in_order(i: u32, s: u32)
    requires
        s < 0xffff,
    ensures
        nonce_of(0, 0) == 0x1_0000_0000,
        nonce_of(i, (s + 1) as u32) == nonce_of(i, s) + 1,
        i < u32::MAX ==> nonce_of((i + 1) as u32, s) == nonce_of(i, s) + 0x1_0000,
{
}

/// A sealed chunk takes the nonces of its own index, a fresh one for each of its pieces, so
/// no two pieces of a transfer are sealed under one nonce.
pub proof fn pieces_take_their_own_nonces(index: u32, i: nat, other: u32, j: nat)
    requires
        i < 0x1_0000,
        j < 0x1_0000,
    ensures
        chunk::piece_nonce(nonce_of(index, 0), i) == nonce_of(index, i as u32),
        index != other || i != j ==> chunk::piece_nonce(nonce_of(index, 0), i)
            != chunk::piece_nonce(nonce_of(other, 0), j),
{
}

/// A control message and a piece of a chunk never share a nonce, before 2^32 control
/// messages have been sent.
pub proof fn control_and_chunk_nonces_differ(control: u64, i: u32, s: u32)
    requires
        control < CHUNK_NONCE_BASE,
    ensures
        control != nonce_of(i, s),
{
}

/// A chunk of the size that files are sent in has at most 17 pieces, so the nonces of its
/// pieces differ from those of every other chunk.
pub proof fn chosen_chunks_have_few_pieces(file_size: u64, len: nat)
    requires
        len <= crate::transfer::manifest::chunk_size_of(file_size),
    ensures
        chunk::piece_count(len) <= 17,
{
}

/// A session, over a direct connection or through the relay. Sending and receiving a
/// file works over either.
pub enum Session {
    Direct(PeerSession),
    Relay(RelaySession),
}

impl Session {
    pub fn remote_fingerprint(&self) -> (r: &str)
        ensures
            r@ == (match self {
                Session::Direct(s) => s.remote_fingerprint@,
                Session::Relay(s) => s.remote_fingerprint@,
            }),
    {
        match self {
            Session::Direct(s) => s.remote_fingerprint.as_str(),
            Session::Relay(s) => s.remote_fingerprint.as_str(),
        }
    }

    pub fn remote_pubkey(&self) -> (r: &[u8; 32])
        ensures
            *r == (match self {
                Session::Direct(s) => s.remote_pubkey,
                Session::Relay(s) => s.remote_pubkey,
            }),
    {
        match self {
            Session::Direct(s) => &s.remote_pubkey,
            Session::Relay(s) => &s.remote_pubkey,
        }
    }
}

} // verus!
