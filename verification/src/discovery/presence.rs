//! Whether contacts are online.

use vstd::prelude::*;

use crate::hash;
use crate::hexadecimal;
use crate::net::PeerAddr;

verus! {

#[derive(Debug, Clone, Copy, PartialEq, Eq, Structural)]
pub enum PresenceStatus {
    Online { addr: PeerAddr },
    Offline,
}

/// The bytes of a public key in hexadecimal; none if it is no such text.
pub open spec fn key_or_empty(public_key: Seq<char>) -> Seq<u8> {
    match hexadecimal::bytes_of_hex(public_key) {
        Some(bytes) => bytes,
        None => Seq::empty(),
    }
}

/// The infohash under which the holder of a public key is found.
pub fn contact_infohash(public_key: &str) -> (r: [u8; 20])
    ensures
        r@ == hash::sha1_of(key_or_empty(public_key@)),
{
    match hexadecimal::decode(public_key) {
        Some(bytes) => hash::sha1(bytes.as_slice()),
        None => {
            let none: Vec<u8> = Vec::new();
            hash::sha1(none.as_slice())
        },
    }
}

/// The status of a contact from what its lookup found: online at the first address.
pub fn status_of(peers: &Vec<PeerAddr>) -> (r: PresenceStatus)
    ensures
        r == (if peers@.len() > 0 {
            PresenceStatus::Online { addr: peers@[0] }
        } else {
            PresenceStatus::Offline
        }),
{
    if peers.len() > 0 {
        PresenceStatus::Online { addr: peers[0] }
    } else {
        PresenceStatus::Offline
    }
}

/// A key is looked up by its bytes, however its digits are written; a text that is no key is
/// looked up as no bytes at all.
pub proof fn key_is_looked_up_by_its_bytes(key: Seq<u8>, other: Seq<char>)
    ensures
        key_or_empty(crate::text::hex_of(key)) == key,
        hexadecimal::bytes_of_hex(other) is None ==> key_or_empty(other) == Seq::<u8>::empty(),
{
    hexadecimal::hex_round_trip(key);
}

} // verus!
