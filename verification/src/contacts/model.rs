//! What is known of a contact.

use vstd::prelude::*;

use crate::clock;
use crate::uuids;

verus! {

/// A known peer. The public key is in hexadecimal and may still be unknown.
#[derive(Debug, Clone)]
pub struct Contact {
    pub id: u128,
    pub display_name: String,
    pub public_key: String,
    pub fingerprint: String,
    /// `ip:port`
    pub last_known_addr: Option<String>,
    pub added_at: u64,
    pub last_seen: Option<u64>,
}

impl Contact {
    /// A contact that was never seen, with the identifier and the time given.
    pub fn with(
        id: u128,
        display_name: String,
        public_key: String,
        fingerprint: String,
        added_at: u64,
    ) -> (c: Self)
        ensures
            c == (Contact {
                id,
                display_name,
                public_key,
                fingerprint,
                last_known_addr: None,
                added_at,
                last_seen: None,
            }),
    {
        Contact {
            id,
            display_name,
            public_key,
            fingerprint,
            last_known_addr: None,
            added_at,
            last_seen: None,
        }
    }

    /// A contact that was never seen, under a fresh identifier and added now.
    pub fn new(display_name: String, public_key: String, fingerprint: String) -> (c: Self)
        ensures
            c.display_name == display_name,
            c.public_key == public_key,
            c.fingerprint == fingerprint,
            c.last_known_addr is None,
            c.last_seen is None,
            uuids::nibble(c.id, 12) == 4,
            8 <= uuids::nibble(c.id, 16) < 12,
    {
        Contact::with(uuids::new_v4(), display_name, public_key, fingerprint, clock::unix_now())
    }
}

} // verus!
