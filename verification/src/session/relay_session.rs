//! A session through the relay.
//!
//! Everything shares one stream; the first byte of a message tells its kind.

use vstd::prelude::*;

use crate::crypto::noise;
use crate::error;
use crate::error::{Error, Result};
use crate::session::chunk;
use crate::session::chunk_nonce;
use crate::session::control;
use crate::session::peer_session;
use crate::text;
use crate::transfer::manifest::ControlMessage;
use crate::wire;

verus! {

/// A message read from the relay stream.
pub enum RelayMsg {
    Ctrl(ControlMessage),
    Chunk { index: u32, ciphertext: Vec<u8> },
}

/// The kinds of message on the relay stream.
#[derive(Debug, Clone, Copy)]
pub enum RelayKind {
    /// `[0x00][8-byte nonce][4-byte length][message]`
    Ctrl,
    /// `[0x01][4-byte index][4-byte length][payload]`
    Chunk,
}

/// The header behind the kind of a message: what it is, and how long the rest.
#[derive(Debug, Clone, Copy)]
pub enum RelayHeader {
    Ctrl { nonce: u64, len: u32 },
    Chunk { index: u32, len: u32 },
}

/// An authenticated session whose transport is a stream piped by the relay.
pub struct RelaySession {
    pub remote_pubkey: [u8; 32],
    pub remote_fingerprint: String,
    pub noise: snow::StatelessTransportState,
    /// The nonce of the next control message.
    pub send_nonce: u64,
}

/// The header that `bytes` spell for a message of this kind.
pub open spec fn relay_header(kind: RelayKind, bytes: Seq<u8>) -> RelayHeader {
    match kind {
        RelayKind::Ctrl => RelayHeader::Ctrl {
            nonce: control::header_nonce(bytes),
            len: control::header_len(bytes),
        },
        RelayKind::Chunk => RelayHeader::Chunk {
            index: wire::from_be32(bytes),
            len: wire::from_be32(bytes.subrange(4, 8)),
        },
    }
}

impl RelayKind {
    /// The length of the header of a message of this kind.
    pub open spec fn header_size(&self) -> int {
        match self {
            RelayKind::Ctrl => 12,
            RelayKind::Chunk => 8,
        }
    }

    /// The kind that the first byte of a message tells.
    pub fn from_byte(byte: u8) -> (r: Result<RelayKind>)
        ensures
            byte == 0 ==> r is Ok && r->Ok_0 is Ctrl,
            byte == 1 ==> r is Ok && r->Ok_0 is Chunk,
            byte > 1 ==> error::failed_with(
                r,
                "relay: unknown msg type "@ + text::hex_literal(byte),
            ),
    {
        if byte == 0 {
            Ok(RelayKind::Ctrl)
        } else if byte == 1 {
            Ok(RelayKind::Chunk)
        } else {
            let literal = text::hex_literal_text(byte);
            Err(Error::ConnectionFailed(error::prefixed("relay: unknown msg type ", &literal)))
        }
    }

    /// How many bytes of header follow the first byte.
    pub fn header_len(&self) -> (n: usize)
        ensures
            n == self.header_size(),
    {
        match self {
            RelayKind::Ctrl => 12,
            RelayKind::Chunk => 8,
        }
    }

    /// Reads the header.
    pub fn read_header(&self, bytes: &[u8]) -> (h: RelayHeader)
        requires
            bytes@.len() == self.header_size(),
        ensures
            h == relay_header(*self, bytes@),
    {
        match self {
            RelayKind::Ctrl => {
                let (nonce, len) = control::read_header(bytes);
                RelayHeader::Ctrl { nonce, len }
            },
            RelayKind::Chunk => {
                let (index, len) = peer_session::read_chunk_header(bytes);
                RelayHeader::Chunk { index, len }
            },
        }
    }
}

impl RelaySession {
    /// The session goes both ways.
    pub open spec fn valid(&self) -> bool {
        noise::two_way(self.noise)
    }

    pub fn new(
        remote_pubkey: [u8; 32],
        remote_fingerprint: String,
        noise: snow::StatelessTransportState,
    ) -> (s: Self)
        ensures
            s.remote_pubkey == remote_pubkey,
            s.remote_fingerprint == remote_fingerprint,
            s.noise == noise,
            s.send_nonce == 0,
    {
        RelaySession { remote_pubkey, remote_fingerprint, noise, send_nonce: 0 }
    }

    /// Encrypts and frames a control message, and moves on to the next nonce.
    pub fn send_ctrl(&mut self, plain: &[u8]) -> (r: Result<Vec<u8>>)
        requires
            old(self).valid(),
        ensures
            final(self).valid(),
            final(self).remote_pubkey == old(self).remote_pubkey,
            final(self).remote_fingerprint == old(self).remote_fingerprint,
            final(self).noise == old(self).noise,
            final(self).send_nonce == (old(self).send_nonce + 1) % 0x1_0000_0000_0000_0000,
            match noise::seal_result(
                noise::sending_key(old(self).noise),
                old(self).send_nonce,
                plain@,
            ) {
                Ok(message) => {
                    &&& r is Ok
                    &&& r->Ok_0@ == seq![0u8] + control::control_frame(
                        old(self).send_nonce,
                        message,
                    )
                    &&& message.len() == plain@.len() + noise::TAG
                    &&& noise::open_result(
                        noise::sending_key(old(self).noise),
                        old(self).send_nonce,
                        message,
                    ) == std::result::Result::<Seq<u8>, Seq<char>>::Ok(plain@)
                },
                Err(e) => error::noise_failed_with(r, e),
            },
    {
        let nonce: u64 = self.send_nonce;
        self.send_nonce = nonce.wrapping_add(1);
        let mut frame: Vec<u8> = Vec::new();
        frame.push(0);
        assert(frame@ =~= seq![0u8]);
        match control::put_control(&mut frame, &self.noise, nonce, plain) {
            Ok(()) => Ok(frame),
            Err(e) => Err(e),
        }
    }

    /// Frames a chunk that is encrypted already.
    pub fn send_chunk_raw(&self, chunk_index: u32, payload: &[u8]) -> (frame: Vec<u8>)
        ensures
            frame@ == seq![1u8] + peer_session::chunk_frame(chunk_index, payload@),
    {
        let mut frame: Vec<u8> = Vec::new();
        frame.push(1);
        wire::put32(&mut frame, chunk_index);
        wire::put32(&mut frame, (payload.len() as u64 % 0x1_0000_0000) as u32);
        wire::put_bytes(&mut frame, payload);
        assert(frame@ =~= seq![1u8] + peer_session::chunk_frame(chunk_index, payload@));
        frame
    }

    /// Decrypts a control message that arrived with this nonce.
    pub fn recv_ctrl(&self, nonce: u64, message: &[u8]) -> (r: Result<Vec<u8>>)
        requires
            self.valid(),
        ensures
            match noise::open_result(noise::receiving_key(self.noise), nonce, message@) {
                Ok(plain) => r is Ok && r->Ok_0@ == plain,
                Err(e) => error::noise_failed_with(r, e),
            },
    {
        control::open_control(&self.noise, nonce, message)
    }

    /// Encrypts a chunk.
    pub fn encrypt_chunk(&self, chunk_index: u32, plain: &[u8]) -> (r: Result<Vec<u8>>)
        requires
            self.valid(),
        ensures
            r is Ok,
            chunk::seals(
                noise::sending_key(self.noise),
                crate::session::nonce_of(chunk_index, 0),
                plain@,
                r->Ok_0@,
            ),
    {
        chunk::seal_chunk(&self.noise, chunk_nonce(chunk_index, 0), plain)
    }

    /// Decrypts a chunk.
    ///
    /// A chunk that was sealed for another index was sealed under other nonces. That it does
    /// not open is the doing of the cipher, and nothing is stated of it.
    pub fn decrypt_chunk(&self, chunk_index: u32, ciphertext: &[u8]) -> (r: Result<Vec<u8>>)
        requires
            self.valid(),
        ensures
            match chunk::opened_chunk(
                noise::receiving_key(self.noise),
                crate::session::nonce_of(chunk_index, 0),
                ciphertext@,
            ) {
                Ok(plain) => r is Ok && r->Ok_0@ == plain,
                Err(e) => error::noise_failed_with(r, e),
            },
    {
        chunk::open_chunk(&self.noise, chunk_nonce(chunk_index, 0), ciphertext)
    }
}

/// The control message that was waited for. A chunk in its place is an error.
pub fn expect_ctrl(msg: RelayMsg) -> (r: Result<ControlMessage>)
    ensures
        match msg {
            RelayMsg::Ctrl(m) => r is Ok && r->Ok_0 == m,
            RelayMsg::Chunk { .. } => error::failed_with(r, "expected ctrl msg, got chunk"@),
        },
{
    match msg {
        RelayMsg::Ctrl(m) => Ok(m),
        RelayMsg::Chunk { .. } => Err(
            Error::ConnectionFailed("expected ctrl msg, got chunk".to_string()),
        ),
    }
}

/// Reading the header of a control message gives what the sender framed.
pub proof fn relay_ctrl_header_of_frame(nonce: u64, message: Seq<u8>)
    requires
        message.len() <= u32::MAX,
    ensures
        ({
            let frame = seq![0u8] + control::control_frame(nonce, message);
            &&& relay_header(RelayKind::Ctrl, frame.subrange(1, 13)) == (RelayHeader::Ctrl {
                nonce,
                len: message.len() as u32,
            })
            &&& frame.subrange(13, frame.len() as int) == message
        }),
{
    let inner = control::control_frame(nonce, message);
    let frame = seq![0u8] + inner;
    control::header_of_frame(nonce, message);
    assert(frame.subrange(1, 13) =~= inner.subrange(0, 12));
    assert(frame.subrange(13, frame.len() as int) =~= inner.subrange(12, inner.len() as int));
}

/// Reading the header of a chunk gives what the sender framed.
pub proof fn relay_chunk_header_of_frame(index: u32, payload: Seq<u8>)
    requires
        payload.len() <= u32::MAX,
    ensures
        ({
            let frame = seq![1u8] + peer_session::chunk_frame(index, payload);
            &&& relay_header(RelayKind::Chunk, frame.subrange(1, 9)) == (RelayHeader::Chunk {
                index,
                len: payload.len() as u32,
            })
            &&& frame.subrange(9, frame.len() as int) == payload
        }),
{
    let inner = peer_session::chunk_frame(index, payload);
    let frame = seq![1u8] + inner;
    peer_session::chunk_header_of_frame(index, payload);
    assert(frame.subrange(1, 9) =~= inner.subrange(0, 8));
    assert(inner.subrange(0, 8).subrange(4, 8) =~= inner.subrange(4, 8));
    assert(frame.subrange(9, frame.len() as int) =~= inner.subrange(8, inner.len() as int));
}

/// The header that is read behind the kind of a message is all that stands in front of its
/// content.
pub proof fn header_is_all_in_front(nonce: u64, index: u32, content: Seq<u8>)
    requires
        content.len() <= u32::MAX,
    ensures
        (seq![0u8] + control::control_frame(nonce, content)).len() == 1
            + RelayKind::Ctrl.header_size() + content.len(),
        (seq![1u8] + peer_session::chunk_frame(index, content)).len() == 1
            + RelayKind::Chunk.header_size() + content.len(),
{
    control::control_frame_layout(nonce, content);
    peer_session::chunk_header_of_frame(index, content);
}

} // verus!
