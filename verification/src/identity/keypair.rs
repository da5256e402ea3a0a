//! X25519 key pairs.

use vstd::prelude::*;

verus! {

pub struct Keypair {
    pub public: [u8; 32],
    pub secret: [u8; 32],
}

/// The X25519 public key that belongs to a secret key.
pub uninterp spec fn x25519_public(secret: Seq<u8>) -> Seq<u8>;

/// `x25519_dalek::StaticSecret::random_from_rng` with the system's generator. Nothing is
/// known of the key.
#[verifier::external_body]
fn random_secret() -> (r: [u8; 32]) {
    x25519_dalek::StaticSecret::random_from_rng(rand::rngs::OsRng).to_bytes()
}

/// `x25519_dalek::PublicKey` from a static secret: it depends on the secret alone.
#[verifier::external_body]
fn public_key(secret: &[u8; 32]) -> (r: [u8; 32])
    ensures
        r@ == x25519_public(secret@),
{
    x25519_dalek::PublicKey::from(&x25519_dalek::StaticSecret::from(*secret)).to_bytes()
}

impl Keypair {
    /// The public key is the one that belongs to the secret key.
    pub open spec fn matched(&self) -> bool {
        self.public@ == x25519_public(self.secret@)
    }

    /// A fresh key pair.
    pub fn generate() -> (k: Self)
        ensures
            k.matched(),
    {
        Keypair::from_secret(random_secret())
    }

    /// The key pair of a secret key.
    pub fn from_secret(secret: [u8; 32]) -> (k: Self)
        ensures
            k.secret == secret,
            k.matched(),
    {
        Keypair { public: public_key(&secret), secret }
    }
}

} // verus!
