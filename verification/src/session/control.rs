//! Control messages on the wire: `[8-byte nonce][4-byte length][message]`.

use vstd::prelude::*;

use crate::crypto::noise;
use crate::error;
use crate::error::{Error, Result};
use crate::wire;

verus! {

/// The length of what stands in front of the message.
pub const HEADER: usize = 12;

/// A message on the wire.
pub open spec fn control_frame(nonce: u64, message: Seq<u8>) -> Seq<u8> {
    wire::be64(nonce) + wire::be32(message.len() as u32) + message
}

/// The nonce that a header gives.
pub open spec fn header_nonce(header: Seq<u8>) -> u64 {
    wire::from_be64(header)
}

/// The length of the message that a header announces.
pub open spec fn header_len(header: Seq<u8>) -> u32 {
    wire::from_be32(header.subrange(8, header.len() as int))
}

/// The header of a frame tells the nonce and the length of its message.
pub proof fn header_of_frame(nonce: u64, message: Seq<u8>)
    requires
        message.len() <= u32::MAX,
    ensures
        ({
            let frame = control_frame(nonce, message);
            &&& frame.len() == HEADER + message.len()
            &&& header_nonce(frame.subrange(0, HEADER as int)) == nonce
            &&& header_len(frame.subrange(0, HEADER as int)) == message.len()
            &&& frame.subrange(HEADER as int, frame.len() as int) == message
        }),
{
    let frame = control_frame(nonce, message);
    let header = frame.subrange(0, HEADER as int);
    assert(header =~= wire::be64(nonce) + wire::be32(message.len() as u32));
    wire::be64_round_trip(nonce, wire::be32(message.len() as u32));
    assert(header.subrange(8, header.len() as int) =~= wire::be32(message.len() as u32)
        + Seq::<u8>::empty());
    wire::be32_round_trip(message.len() as u32, Seq::empty());
    assert(frame.subrange(HEADER as int, frame.len() as int) =~= message);
}

/// Encrypts and frames `plain` behind what `out` holds.
///
/// What is written opens, under the same key, to `plain`.
pub fn put_control(
    out: &mut Vec<u8>,
    t: &snow::StatelessTransportState,
    nonce: u64,
    plain: &[u8],
) -> (r: Result<()>)
    requires
        noise::two_way(*t),
    ensures
        match noise::seal_result(noise::sending_key(*t), nonce, plain@) {
            Ok(message) => {
                &&& r is Ok
                &&& final(out)@ == old(out)@ + control_frame(nonce, message)
                &&& message.len() == plain@.len() + noise::TAG
                &&& noise::open_result(noise::sending_key(*t), nonce, message)
                    == std::result::Result::<Seq<u8>, Seq<char>>::Ok(plain@)
            },
            Err(e) => final(out)@ == old(out)@ && error::noise_failed_with(r, e),
        },
{
    match noise::write_message(t, nonce, plain) {
        Ok(message) => {
            wire::put64(out, nonce);
            wire::put32(out, message.len() as u32);
            wire::put_bytes(out, message.as_slice());
            assert(out@ =~= old(out)@ + control_frame(nonce, message@));
            Ok(())
        },
        Err(e) => Err(Error::Noise(e)),
    }
}

/// Decrypts a control message.
pub fn open_control(t: &snow::StatelessTransportState, nonce: u64, message: &[u8]) -> (r: Result<
    Vec<u8>,
>)
    requires
        noise::two_way(*t),
    ensures
        match noise::open_result(noise::receiving_key(*t), nonce, message@) {
            Ok(plain) => r is Ok && r->Ok_0@ == plain,
            Err(e) => error::noise_failed_with(r, e),
        },
{
    match noise::read_message(t, nonce, message) {
        Ok(plain) => Ok(plain),
        Err(e) => Err(Error::Noise(e)),
    }
}

/// The nonce and the length that a header gives.
pub fn read_header(header: &[u8]) -> (r: (u64, u32))
    requires
        header@.len() == HEADER,
    ensures
        r == (header_nonce(header@), header_len(header@)),
{
    let nonce: u64 = wire::get64(header, 0);
    let len: u32 = wire::get32(header, 8);
    assert(header@.subrange(0, header@.len() as int) =~= header@);
    (nonce, len)
}

/// A control message that was framed at one end of a direction is read at the other as
/// what was sent.
pub proof fn control_message_arrives(
    from: snow::StatelessTransportState,
    to: snow::StatelessTransportState,
    nonce: u64,
    message: Seq<u8>,
    plain: Seq<u8>,
)
    requires
        noise::linked(from, to),
        message.len() <= noise::MAX_MESSAGE,
        noise::open_result(noise::sending_key(from), nonce, message)
            == std::result::Result::<Seq<u8>, Seq<char>>::Ok(plain),
    ensures
        ({
            let frame = control_frame(nonce, message);
            let header = frame.subrange(0, HEADER as int);
            &&& header_len(header) == frame.len() - HEADER
            &&& noise::open_result(
                noise::receiving_key(to),
                header_nonce(header),
                frame.subrange(HEADER as int, frame.len() as int),
            ) == std::result::Result::<Seq<u8>, Seq<char>>::Ok(plain)
        }),
{
    header_of_frame(nonce, message);
}

/// A control message travels behind its nonce in eight bytes and its length in four, the
/// most significant byte first.
pub proof fn control_frame_layout(nonce: u64, message: Seq<u8>)
    requires
        message.len() <= u32::MAX,
    ensures
        ({
            let frame = control_frame(nonce, message);
            &&& frame.len() == 12 + message.len()
            &&& wire::from_be64(frame) == nonce
            &&& wire::from_be32(frame.subrange(8, frame.len() as int)) == message.len()
            &&& frame.subrange(12, frame.len() as int) == message
        }),
{
    let frame = control_frame(nonce, message);
    let len = wire::be32(message.len() as u32);
    assert(frame =~= wire::be64(nonce) + (len + message));
    wire::be64_round_trip(nonce, len + message);
    assert(frame.subrange(8, frame.len() as int) =~= len + message);
    wire::be32_round_trip(message.len() as u32, message);
    assert(frame.subrange(12, frame.len() as int) =~= message);
}

/// A header is read the same way: eight bytes of nonce and four of length.
pub proof fn header_is_nonce_and_length(header: Seq<u8>)
    requires
        header.len() >= 12,
    ensures
        header_nonce(header) == wire::from_be64(header),
        header_len(header) == wire::from_be32(header.subrange(8, 12)),
{
}

} // verus!
