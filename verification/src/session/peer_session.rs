//! A session over a direct connection.

use vstd::prelude::*;

use crate::crypto::noise;
use crate::error;
use crate::error::{Error, Result};
use crate::identity::fingerprint;
use crate::session::chunk;
use crate::session::chunk_nonce;
use crate::session::control;
use crate::wire;

verus! {

/// A connected and authenticated session. The connection itself is kept beside it.
pub struct PeerSession {
    pub remote_pubkey: [u8; 32],
    pub remote_fingerprint: String,
    pub noise: snow::StatelessTransportState,
    /// The nonce of the next control message.
    pub send_nonce: u64,
}

/// Chunk `index`, sealed as `payload`, behind its header:
/// `[4-byte index][4-byte length][payload]`.
pub open spec fn chunk_frame(index: u32, payload: Seq<u8>) -> Seq<u8> {
    wire::be32(index) + wire::be32((payload.len() % 0x1_0000_0000) as u32) + payload
}

/// The header of a chunk's frame tells its index and the length of its payload.
pub proof fn chunk_header_of_frame(index: u32, payload: Seq<u8>)
    requires
        payload.len() <= u32::MAX,
    ensures
        ({
            let frame = chunk_frame(index, payload);
            &&& frame.len() == 8 + payload.len()
            &&& wire::from_be32(frame.subrange(0, 8)) == index
            &&& wire::from_be32(frame.subrange(4, 8)) == payload.len()
            &&& frame.subrange(8, frame.len() as int) == payload
        }),
{
    let frame = chunk_frame(index, payload);
    let len = wire::be32(payload.len() as u32);
    assert(frame.subrange(0, 8) =~= wire::be32(index) + len);
    wire::be32_round_trip(index, len);
    assert(frame.subrange(4, 8) =~= len + Seq::<u8>::empty());
    wire::be32_round_trip(payload.len() as u32, Seq::empty());
    assert(frame.subrange(8, frame.len() as int) =~= payload);
}

impl PeerSession {
    /// The session goes both ways.
    pub open spec fn valid(&self) -> bool {
        noise::two_way(self.noise)
    }

    /// The session that a handshake with the holder of `remote_pubkey` has set up.
    pub fn new(remote_pubkey: [u8; 32], noise: snow::StatelessTransportState) -> (s: Self)
        ensures
            s.remote_pubkey == remote_pubkey,
            s.remote_fingerprint@ == fingerprint::fingerprint_of(remote_pubkey@),
            s.noise == noise,
            s.send_nonce == 0,
    {
        PeerSession {
            remote_fingerprint: fingerprint::to_fingerprint(&remote_pubkey),
            remote_pubkey,
            noise,
            send_nonce: 0,
        }
    }

    /// Encrypts and frames a control message, and moves on to the next nonce.
    pub fn send_ctrl(&mut self, plain: &[u8]) -> (r: Result<Vec<u8>>)
        requires
            old(self).valid(),
        ensures
            final(self).valid(),
            final(self).remote_pubkey == old(self).remote_pubkey,
            final(self).remote_fingerprint == old(self).remote_fingerprint,
            final(self).noise == old(self).noise,
            final(self).send_nonce == (old(self).send_nonce + 1) % 0x1_0000_0000_0000_0000,
            match noise::seal_result(
                noise::sending_key(old(self).noise),
                old(self).send_nonce,
                plain@,
            ) {
                Ok(message) => {
                    &&& r is Ok
                    &&& r->Ok_0@ == control::control_frame(old(self).send_nonce, message)
                    &&& message.len() == plain@.len() + noise::TAG
                    &&& noise::open_result(
                        noise::sending_key(old(self).noise),
                        old(self).send_nonce,
                        message,
                    ) == std::result::Result::<Seq<u8>, Seq<char>>::Ok(plain@)
                },
                Err(e) => error::noise_failed_with(r, e),
            },
    {
        let nonce: u64 = self.send_nonce;
        self.send_nonce = nonce.wrapping_add(1);
        let mut frame: Vec<u8> = Vec::new();
        match control::put_control(&mut frame, &self.noise, nonce, plain) {
            Ok(()) => {
                proof {
                    let message = noise::seal_result(
                        noise::sending_key(self.noise),
                        nonce,
                        plain@,
                    )->Ok_0;
                    assert(frame@ =~= control::control_frame(nonce, message));
                }
                Ok(frame)
            },
            Err(e) => Err(e),
        }
    }

    /// Decrypts a control message that arrived with this nonce.
    pub fn recv_ctrl(&self, nonce: u64, message: &[u8]) -> (r: Result<Vec<u8>>)
        requires
            self.valid(),
        ensures
            match noise::open_result(noise::receiving_key(self.noise), nonce, message@) {
                Ok(plain) => r is Ok && r->Ok_0@ == plain,
                Err(e) => error::noise_failed_with(r, e),
            },
    {
        control::open_control(&self.noise, nonce, message)
    }

    /// Decrypts one piece of a chunk.
    pub fn decrypt_sub_message(
        &self,
        chunk_index: u32,
        sub_index: u32,
        ciphertext: &[u8],
    ) -> (r: Result<Vec<u8>>)
        requires
            self.valid(),
        ensures
            match noise::open_result(
                noise::receiving_key(self.noise),
                crate::session::nonce_of(chunk_index, sub_index),
                ciphertext@,
            ) {
                Ok(plain) => r is Ok && r->Ok_0@ == plain,
                Err(e) => error::noise_failed_with(r, e),
            },
    {
        match noise::read_message(&self.noise, chunk_nonce(chunk_index, sub_index), ciphertext) {
            Ok(plain) => Ok(plain),
            Err(e) => Err(Error::Noise(e)),
        }
    }

    /// Encrypts a chunk.
    pub fn encrypt_chunk(&self, chunk_index: u32, plain: &[u8]) -> (r: Result<Vec<u8>>)
        requires
            self.valid(),
        ensures
            r is Ok,
            chunk::seals(
                noise::sending_key(self.noise),
                crate::session::nonce_of(chunk_index, 0),
                plain@,
                r->Ok_0@,
            ),
    {
        chunk::seal_chunk(&self.noise, chunk_nonce(chunk_index, 0), plain)
    }

    /// Decrypts a chunk.
    ///
    /// A chunk that was sealed for another index was sealed under other nonces. That it does
    /// not open is the doing of the cipher, and nothing is stated of it.
    pub fn decrypt_chunk(&self, chunk_index: u32, ciphertext: &[u8]) -> (r: Result<Vec<u8>>)
        requires
            self.valid(),
        ensures
            match chunk::opened_chunk(
                noise::receiving_key(self.noise),
                crate::session::nonce_of(chunk_index, 0),
                ciphertext@,
            ) {
                Ok(plain) => r is Ok && r->Ok_0@ == plain,
                Err(e) => error::noise_failed_with(r, e),
            },
    {
        chunk::open_chunk(&self.noise, chunk_nonce(chunk_index, 0), ciphertext)
    }

    /// Encrypts a chunk and frames it for the data stream.
    pub fn encode_chunk_frame(&self, chunk_index: u32, plain: &[u8]) -> (r: Result<Vec<u8>>)
        requires
            self.valid(),
        ensures
            r is Ok,
            ({
                let key = noise::sending_key(self.noise);
                let first = crate::session::nonce_of(chunk_index, 0);
                let sealed = chunk::sealed_chunk(key, first, plain@);
                &&& r->Ok_0@ == chunk_frame(chunk_index, sealed)
                &&& chunk::seals(key, first, plain@, sealed)
            }),
    {
        match self.encrypt_chunk(chunk_index, plain) {
            Ok(encrypted) => {
                let mut frame: Vec<u8> = Vec::new();
                wire::put32(&mut frame, chunk_index);
                wire::put32(&mut frame, (encrypted.len() as u64 % 0x1_0000_0000) as u32);
                wire::put_bytes(&mut frame, encrypted.as_slice());
                assert(frame@ =~= chunk_frame(chunk_index, encrypted@));
                Ok(frame)
            },
            Err(e) => Err(e),
        }
    }
}

/// The index and the length that the header of a chunk gives.
pub fn read_chunk_header(header: &[u8]) -> (r: (u32, u32))
    requires
        header@.len() == 8,
    ensures
        r == (wire::from_be32(header@), wire::from_be32(header@.subrange(4, 8))),
{
    let index: u32 = wire::get32(header, 0);
    let len: u32 = wire::get32(header, 4);
    assert(header@.subrange(0, header@.len() as int) =~= header@);
    (index, len)
}

} // verus!
