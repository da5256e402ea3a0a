//! A file chunk as it travels: cut into pieces that each fit one Noise message.
//!
//! `[2-byte count]` and then, for each piece, `[4-byte length][message]`.

use vstd::prelude::*;

use crate::crypto::noise;
use crate::error::{Error, Result};
use crate::wire;

verus! {

/// The longest payload that one Noise message carries.
pub const MAX_PLAIN: usize = 65519;

/// The number of pieces that `len` bytes are cut into.
pub open spec fn piece_count(len: nat) -> nat {
    (len + MAX_PLAIN - 1) as nat / MAX_PLAIN as nat
}

/// Piece `i` of `plain`: `MAX_PLAIN` bytes, or what is left.
pub open spec fn piece(plain: Seq<u8>, i: nat) -> Seq<u8> {
    let start = i * MAX_PLAIN;
    let end = start + MAX_PLAIN;
    plain.subrange(start as int, if end <= plain.len() { end as int } else { plain.len() as int })
}

/// The nonce of piece `i` of a chunk whose pieces start at nonce `first`.
pub open spec fn piece_nonce(first: u64, i: nat) -> u64 {
    (first + i % 0x1_0000_0000) as u64
}

/// One piece on the wire.
pub open spec fn framed_piece(key: Seq<u8>, first: u64, plain: Seq<u8>, i: nat) -> Seq<u8> {
    let message = noise::sealed(key, piece_nonce(first, i), piece(plain, i));
    wire::be32(message.len() as u32) + message
}

/// The first `n` pieces of `plain` on the wire.
pub open spec fn framed_pieces(key: Seq<u8>, first: u64, plain: Seq<u8>, n: nat) -> Seq<u8>
    decreases n,
{
    if n == 0 {
        Seq::empty()
    } else {
        framed_pieces(key, first, plain, (n - 1) as nat) + framed_piece(
            key,
            first,
            plain,
            (n - 1) as nat,
        )
    }
}

/// A chunk on the wire. The count of pieces is kept modulo 2^16.
pub open spec fn sealed_chunk(key: Seq<u8>, first: u64, plain: Seq<u8>) -> Seq<u8> {
    let n = piece_count(plain.len());
    wire::be16((n % 0x1_0000) as u16) + framed_pieces(key, first, plain, n)
}

/// The length of a chunk of `len` bytes on the wire.
pub open spec fn sealed_len(len: nat) -> nat {
    2 + len + 20 * piece_count(len)
}

/// The more a chunk holds, the longer it is on the wire: each piece takes twenty bytes more
/// than it holds, and the count two.
pub proof fn longer_chunks_are_longer_sealed(a: nat, b: nat)
    requires
        a <= b,
    ensures
        sealed_len(a) + (b - a) <= sealed_len(b),
        sealed_len(0) == 2,
        a > 0 ==> sealed_len(a) >= a + 22,
{
}

/// `head` in front of what `rest` holds, if it holds anything.
pub open spec fn prepended(
    head: Seq<u8>,
    rest: std::result::Result<Seq<u8>, Seq<char>>,
) -> std::result::Result<Seq<u8>, Seq<char>> {
    match rest {
        Ok(tail) => Ok(head + tail),
        Err(e) => Err(e),
    }
}

/// What pieces `i..count` of `chunk`, the first of them at `pos`, carry together; or
/// the text of the first error met on the way.
pub open spec fn opened_pieces(
    key: Seq<u8>,
    first: u64,
    chunk: Seq<u8>,
    pos: int,
    i: nat,
    count: nat,
) -> std::result::Result<Seq<u8>, Seq<char>>
    decreases count - i,
{
    if i >= count {
        Ok(Seq::empty())
    } else if pos + 4 > chunk.len() {
        Err("truncated sub-message length"@)
    } else {
        let len = wire::from_be32(chunk.subrange(pos, chunk.len() as int));
        if pos + 4 + len > chunk.len() {
            Err("truncated sub-message body"@)
        } else {
            match noise::open_result(
                key,
                piece_nonce(first, i),
                chunk.subrange(pos + 4, pos + 4 + len),
            ) {
                Err(e) => Err(e),
                Ok(payload) => prepended(
                    payload,
                    opened_pieces(key, first, chunk, pos + 4 + len, i + 1, count),
                ),
            }
        }
    }
}

/// What `chunk` carries, or the text of the error that stops it from being read.
/// Bytes behind the last piece are not looked at.
pub open spec fn opened_chunk(key: Seq<u8>, first: u64, chunk: Seq<u8>) -> std::result::Result<
    Seq<u8>,
    Seq<char>,
> {
    if chunk.len() < 2 {
        Err("chunk too short"@)
    } else {
        opened_pieces(key, first, chunk, 2, 0, wire::from_be16(chunk) as nat)
    }
}

/// Piece `i` is authentic: it opens to what it was made from.
pub open spec fn piece_opens(key: Seq<u8>, first: u64, plain: Seq<u8>, i: nat) -> bool {
    let message = noise::sealed(key, piece_nonce(first, i), piece(plain, i));
    &&& message.len() == piece(plain, i).len() + noise::TAG
    &&& noise::unsealed(key, piece_nonce(first, i), message) == Some(piece(plain, i))
}

/// All pieces of `plain` are authentic.
pub open spec fn pieces_open(key: Seq<u8>, first: u64, plain: Seq<u8>) -> bool {
    forall|i: nat| i < piece_count(plain.len()) ==> #[trigger] piece_opens(key, first, plain, i)
}

proof fn piece_bounds(len: nat, i: nat)
    requires
        i < piece_count(len),
    ensures
        i * MAX_PLAIN < len,
        i + 1 < piece_count(len) ==> (i + 1) * MAX_PLAIN < len,
        i + 1 == piece_count(len) ==> (i + 1) * MAX_PLAIN >= len,
        piece_count(len) <= len,
{
}

/// The offset of piece `i` in the frame, behind the count.
spec fn piece_offset(key: Seq<u8>, first: u64, plain: Seq<u8>, i: nat) -> int {
    2int + framed_pieces(key, first, plain, i).len()
}

proof fn framed_pieces_prefix(key: Seq<u8>, first: u64, plain: Seq<u8>, i: nat, n: nat)
    requires
        i <= n,
    ensures
        framed_pieces(key, first, plain, i).is_prefix_of(framed_pieces(key, first, plain, n)),
    decreases n - i,
{
    if i < n {
        framed_pieces_prefix(key, first, plain, i, (n - 1) as nat);
        let a = framed_pieces(key, first, plain, i);
        let b = framed_pieces(key, first, plain, (n - 1) as nat);
        let c = framed_pieces(key, first, plain, n);
        assert(c =~= b + framed_piece(key, first, plain, (n - 1) as nat));
        assert(c.subrange(0, a.len() as int) =~= b.subrange(0, a.len() as int));
    } else {
        let a = framed_pieces(key, first, plain, i);
        assert(a =~= a.subrange(0, a.len() as int));
    }
}

/// Where piece `i` of a sealed chunk lies, and what stands there.
proof fn sealed_layout(key: Seq<u8>, first: u64, plain: Seq<u8>, i: nat)
    requires
        i < piece_count(plain.len()),
        piece_opens(key, first, plain, i),
    ensures
        ({
            let chunk = sealed_chunk(key, first, plain);
            let pos = piece_offset(key, first, plain, i);
            let message = noise::sealed(key, piece_nonce(first, i), piece(plain, i));
            &&& 2 <= pos
            &&& pos + 4 + message.len() <= chunk.len()
            &&& pos + 4 + message.len() == piece_offset(key, first, plain, i + 1)
            &&& chunk.subrange(pos, pos + 4) == wire::be32(message.len() as u32)
            &&& chunk.subrange(pos + 4, pos + 4 + message.len()) == message
        }),
{
    let n = piece_count(plain.len());
    let chunk = sealed_chunk(key, first, plain);
    let pos = piece_offset(key, first, plain, i);
    let message = noise::sealed(key, piece_nonce(first, i), piece(plain, i));
    let before = framed_pieces(key, first, plain, i);
    let upto = framed_pieces(key, first, plain, i + 1);
    let all = framed_pieces(key, first, plain, n);
    framed_pieces_prefix(key, first, plain, i + 1, n);
    assert(upto =~= before + (wire::be32(message.len() as u32) + message));
    assert forall|k: int| 0 <= k < upto.len() implies chunk[2 + k] == upto[k] by {
        assert(all[k] == all.subrange(0, upto.len() as int)[k]);
    }
    assert(chunk.subrange(pos, pos + 4) =~= wire::be32(message.len() as u32)) by {
        assert forall|k: int| 0 <= k < 4 implies chunk[pos + k] == #[trigger] wire::be32(
            message.len() as u32,
        )[k] by {
            assert(chunk[2 + (before.len() + k)] == upto[before.len() + k]);
        }
    }
    assert(chunk.subrange(pos + 4, pos + 4 + message.len()) =~= message) by {
        assert forall|k: int| 0 <= k < message.len() implies chunk[pos + 4 + k] == message[k] by {
            assert(chunk[2 + (before.len() + 4 + k)] == upto[before.len() + 4 + k]);
        }
    }
}

/// Reading from piece `i` on gives the bytes from piece `i` on.
proof fn opened_pieces_of_sealed(key: Seq<u8>, first: u64, plain: Seq<u8>, i: nat)
    requires
        first < 0x2_0000_0000_0000,
        piece_count(plain.len()) < 0x1_0000,
        i <= piece_count(plain.len()),
        pieces_open(key, first, plain),
    ensures
        ({
            let start = if i * MAX_PLAIN <= plain.len() {
                i * MAX_PLAIN
            } else {
                plain.len() as int
            };
            opened_pieces(
                key,
                first,
                sealed_chunk(key, first, plain),
                piece_offset(key, first, plain, i),
                i,
                piece_count(plain.len()),
            ) == std::result::Result::<Seq<u8>, Seq<char>>::Ok(
                plain.subrange(start as int, plain.len() as int),
            )
        }),
    decreases piece_count(plain.len()) - i,
{
    let n = piece_count(plain.len());
    let chunk = sealed_chunk(key, first, plain);
    let pos = piece_offset(key, first, plain, i);
    let start: int = if i * MAX_PLAIN <= plain.len() {
        i * MAX_PLAIN
    } else {
        plain.len() as int
    };
    let rest = plain.subrange(start, plain.len() as int);
    if i == n {
        assert(start == plain.len());
        assert(rest =~= Seq::empty());
    } else {
        assert(piece_opens(key, first, plain, i));
        piece_bounds(plain.len(), i);
        let message = noise::sealed(key, piece_nonce(first, i), piece(plain, i));
        let len = message.len();
        sealed_layout(key, first, plain, i);
        let after = chunk.subrange(pos + 4, chunk.len() as int);
        assert(chunk.subrange(pos, chunk.len() as int) =~= chunk.subrange(pos, pos + 4) + after);
        wire::be32_round_trip(len as u32, after);
        opened_pieces_of_sealed(key, first, plain, i + 1);
        let start2: int = if (i + 1) * MAX_PLAIN <= plain.len() {
            (i + 1) * MAX_PLAIN
        } else {
            plain.len() as int
        };
        assert(rest =~= piece(plain, i) + plain.subrange(start2, plain.len() as int));
    }
}

/// A chunk whose pieces are authentic opens to what it was made from.
pub proof fn sealed_chunk_opens(key: Seq<u8>, first: u64, plain: Seq<u8>)
    requires
        first < 0x2_0000_0000_0000,
        piece_count(plain.len()) < 0x1_0000,
        pieces_open(key, first, plain),
    ensures
        opened_chunk(key, first, sealed_chunk(key, first, plain)) == std::result::Result::<
            Seq<u8>,
            Seq<char>,
        >::Ok(plain),
{
    let n = piece_count(plain.len());
    opened_pieces_of_sealed(key, first, plain, 0);
    wire::be16_round_trip(n as u16, framed_pieces(key, first, plain, n));
    assert(plain.subrange(0, plain.len() as int) =~= plain);
    assert(framed_pieces(key, first, plain, 0) =~= Seq::<u8>::empty());
}

/// From piece `i` on, a sealed chunk that ends too early cannot be read.
proof fn cut_pieces_are_refused(key: Seq<u8>, first: u64, plain: Seq<u8>, cut: int, i: nat)
    requires
        piece_count(plain.len()) < 0x1_0000,
        i <= piece_count(plain.len()),
        pieces_open(key, first, plain),
        piece_offset(key, first, plain, i) <= cut < sealed_chunk(key, first, plain).len(),
    ensures
        opened_pieces(
            key,
            first,
            sealed_chunk(key, first, plain).subrange(0, cut),
            piece_offset(key, first, plain, i),
            i,
            piece_count(plain.len()),
        ) is Err,
    decreases piece_count(plain.len()) - i,
{
    let n = piece_count(plain.len());
    let whole = sealed_chunk(key, first, plain);
    let chunk = whole.subrange(0, cut);
    let pos = piece_offset(key, first, plain, i);
    if i < n && pos + 4 <= cut {
        assert(piece_opens(key, first, plain, i));
        sealed_layout(key, first, plain, i);
        let message = noise::sealed(key, piece_nonce(first, i), piece(plain, i));
        let len = message.len();
        let rest = chunk.subrange(pos + 4, cut);
        assert(chunk.subrange(pos, cut) =~= whole.subrange(pos, pos + 4) + rest);
        wire::be32_round_trip(len as u32, rest);
        if pos + 4 + len <= cut {
            assert(chunk.subrange(pos + 4, pos + 4 + len) =~= message);
            cut_pieces_are_refused(key, first, plain, cut, i + 1);
        }
    }
}

/// A sealed chunk that was cut short is refused, wherever it was cut.
pub proof fn cut_chunk_is_refused(key: Seq<u8>, first: u64, plain: Seq<u8>, cut: int)
    requires
        piece_count(plain.len()) < 0x1_0000,
        pieces_open(key, first, plain),
        0 <= cut < sealed_chunk(key, first, plain).len(),
    ensures
        opened_chunk(key, first, sealed_chunk(key, first, plain).subrange(0, cut)) is Err,
{
    let n = piece_count(plain.len());
    let whole = sealed_chunk(key, first, plain);
    let chunk = whole.subrange(0, cut);
    if cut >= 2 {
        let rest = chunk.subrange(2, cut);
        assert(chunk =~= wire::be16(n as u16) + rest);
        wire::be16_round_trip(n as u16, rest);
        assert(framed_pieces(key, first, plain, 0) =~= Seq::<u8>::empty());
        cut_pieces_are_refused(key, first, plain, cut, 0);
    }
}

/// `sealed` is `plain` as a chunk on the wire. As long as the count of pieces fits its two
/// bytes, it opens to `plain` under the same key and nonces, and is refused if it was cut
/// short.
pub open spec fn seals(key: Seq<u8>, first: u64, plain: Seq<u8>, sealed: Seq<u8>) -> bool {
    &&& sealed == sealed_chunk(key, first, plain)
    &&& sealed.len() == sealed_len(plain.len())
    &&& piece_count(plain.len()) < 0x1_0000 ==> {
        &&& opened_chunk(key, first, sealed) == std::result::Result::<Seq<u8>, Seq<char>>::Ok(
            plain,
        )
        &&& forall|cut: int|
            0 <= cut < sealed.len() ==> opened_chunk(
                key,
                first,
                #[trigger] sealed.subrange(0, cut),
            ) is Err
    }
}

/// Cuts `plain` into pieces, encrypts each and frames them.
///
/// The pieces of a chunk have the nonces from `first` on.
pub fn seal_chunk(t: &snow::StatelessTransportState, first: u64, plain: &[u8]) -> (r: Result<
    Vec<u8>,
>)
    requires
        noise::two_way(*t),
        first < 0x2_0000_0000_0000,
    ensures
        r is Ok,
        seals(noise::sending_key(*t), first, plain@, r->Ok_0@),
{
    let ghost key = noise::sending_key(*t);
    let ghost n = piece_count(plain@.len());
    let len: usize = plain.len();
    let count: usize = if len == 0 {
        0
    } else {
        (len - 1) / MAX_PLAIN + 1
    };
    assert(count == n);
    let mut out: Vec<u8> = Vec::new();
    wire::put16(&mut out, (count % 0x1_0000) as u16);
    let mut i: usize = 0;
    while i < count
        invariant
            noise::two_way(*t),
            key == noise::sending_key(*t),
            n == piece_count(plain@.len()),
            count == n,
            len == plain@.len(),
            first < 0x2_0000_0000_0000,
            i <= count,
            out@ == wire::be16((n % 0x1_0000) as u16) + framed_pieces(key, first, plain@, i as nat),
            forall|j: nat| j < i ==> #[trigger] piece_opens(key, first, plain@, j),
            out@.len() == 2 + 20 * i + if i == count {
                len as int
            } else {
                i * MAX_PLAIN
            },
        decreases count - i,
    {
        proof {
            piece_bounds(plain@.len(), i as nat);
        }
        let start: usize = i * MAX_PLAIN;
        let end: usize = if len - start > MAX_PLAIN {
            start + MAX_PLAIN
        } else {
            len
        };
        let sub: &[u8] = vstd::slice::slice_subrange(plain, start, end);
        assert(sub@ =~= piece(plain@, i as nat));
        let nonce: u64 = first + (i as u64) % 0x1_0000_0000;
        assert(nonce == piece_nonce(first, i as nat));
        let message = match noise::write_message(t, nonce, sub) {
            Ok(m) => m,
            Err(e) => {
                return Err(Error::Noise(e));
            },
        };
        wire::put32(&mut out, message.len() as u32);
        wire::put_bytes(&mut out, message.as_slice());
        assert(piece_opens(key, first, plain@, i as nat));
        assert(out@ =~= wire::be16((n % 0x1_0000) as u16) + framed_pieces(
            key,
            first,
            plain@,
            (i + 1) as nat,
        ));
        i = i + 1;
    }
    proof {
        if n < 0x1_0000 {
            sealed_chunk_opens(key, first, plain@);
            assert forall|cut: int| 0 <= cut < out@.len() implies opened_chunk(
                key,
                first,
                #[trigger] out@.subrange(0, cut),
            ) is Err by {
                cut_chunk_is_refused(key, first, plain@, cut);
            }
        }
    }
    Ok(out)
}

/// Reads back what `seal_chunk` wrote, under the key of the other direction.
pub fn open_chunk(t: &snow::StatelessTransportState, first: u64, chunk: &[u8]) -> (r: Result<
    Vec<u8>,
>)
    requires
        noise::two_way(*t),
        first < 0x2_0000_0000_0000,
    ensures
        match opened_chunk(noise::receiving_key(*t), first, chunk@) {
            Ok(plain) => r is Ok && r->Ok_0@ == plain,
            Err(e) => r is Err && r->Err_0 is Noise && r->Err_0->Noise_0@ == e,
        },
{
    let ghost key = noise::receiving_key(*t);
    let len: usize = chunk.len();
    if len < 2 {
        return Err(Error::Noise("chunk too short".to_string()));
    }
    let count: usize = wire::get16(chunk, 0) as usize;
    assert(chunk@.subrange(0, chunk@.len() as int) =~= chunk@);
    let mut out: Vec<u8> = Vec::new();
    let mut pos: usize = 2;
    let mut i: usize = 0;
    while i < count
        invariant
            noise::two_way(*t),
            key == noise::receiving_key(*t),
            len == chunk@.len(),
            len >= 2,
            count == wire::from_be16(chunk@),
            first < 0x2_0000_0000_0000,
            i <= count < 0x1_0000,
            pos <= len,
            opened_chunk(key, first, chunk@) == prepended(
                out@,
                opened_pieces(key, first, chunk@, pos as int, i as nat, count as nat),
            ),
        decreases count - i,
    {
        if len - pos < 4 {
            return Err(Error::Noise("truncated sub-message length".to_string()));
        }
        let sub_len: usize = wire::get32(chunk, pos) as usize;
        pos = pos + 4;
        if sub_len > len - pos {
            return Err(Error::Noise("truncated sub-message body".to_string()));
        }
        let message: &[u8] = vstd::slice::slice_subrange(chunk, pos, pos + sub_len);
        let nonce: u64 = first + i as u64;
        assert(nonce == piece_nonce(first, i as nat));
        let payload = match noise::read_message(t, nonce, message) {
            Ok(p) => p,
            Err(e) => {
                return Err(Error::Noise(e));
            },
        };
        let ghost before = out@;
        wire::put_bytes(&mut out, payload.as_slice());
        pos = pos + sub_len;
        i = i + 1;
        proof {
            let rest = opened_pieces(key, first, chunk@, pos as int, i as nat, count as nat);
            if rest is Ok {
                assert(before + (payload@ + rest->Ok_0) =~= out@ + rest->Ok_0);
            }
        }
    }
    assert(out@ + Seq::<u8>::empty() =~= out@);
    Ok(out)
}

// ── Laws ───────────────────────────────────────────────────────────────────────

/// The pieces in order are what was cut: all but the last are as long as one message of
/// 65535 bytes can carry, the last is not empty, and no byte is left out or doubled.
pub proof fn pieces_make_up_the_whole(plain: Seq<u8>, i: nat)
    requires
        i < piece_count(plain.len()),
    ensures
        1 <= piece(plain, i).len() <= 65535 - 16,
        i + 1 < piece_count(plain.len()) ==> piece(plain, i).len() == 65535 - 16,
        i + 1 == piece_count(plain.len()) ==> i * (65535 - 16) + piece(plain, i).len()
            == plain.len(),
        forall|k: int|
            0 <= k < piece(plain, i).len() ==> #[trigger] piece(plain, i)[k] == plain[i * (65535
                - 16) + k],
{
    piece_bounds(plain.len(), i);
}

/// Nothing is cut into no pieces, and anything else into as few as can carry it.
pub proof fn pieces_are_few(len: nat)
    ensures
        piece_count(len) == 0 <==> len == 0,
        piece_count(len) * (65535 - 16) >= len,
        len > 0 ==> (piece_count(len) - 1) * (65535 - 16) < len,
{
}

/// Where piece `i` of a chunk on the wire starts: behind the count and the pieces before
/// it, each behind its own length.
pub open spec fn piece_start(chunk: Seq<u8>, i: nat) -> int
    decreases i,
{
    if i == 0 {
        2
    } else {
        let before = piece_start(chunk, (i - 1) as nat);
        before + 4 + wire::from_be32(chunk.subrange(before, chunk.len() as int))
    }
}

/// Piece `i` of a chunk on the wire: what stands behind its length.
pub open spec fn piece_message(chunk: Seq<u8>, i: nat) -> Seq<u8> {
    chunk.subrange(piece_start(chunk, i) + 4, piece_start(chunk, i + 1))
}

proof fn opened_pieces_are_authentic(
    key: Seq<u8>,
    first: u64,
    chunk: Seq<u8>,
    i: nat,
    count: nat,
    j: nat,
)
    requires
        2 <= piece_start(chunk, i),
        opened_pieces(key, first, chunk, piece_start(chunk, i), i, count) is Ok,
        i <= j < count,
    ensures
        2 <= piece_start(chunk, j),
        piece_start(chunk, j) + 4 <= piece_start(chunk, j + 1) <= chunk.len(),
        noise::open_result(key, piece_nonce(first, j), piece_message(chunk, j)) is Ok,
    decreases count - i,
{
    let pos = piece_start(chunk, i);
    let len = wire::from_be32(chunk.subrange(pos, chunk.len() as int));
    assert(piece_start(chunk, i + 1) == pos + 4 + len);
    assert(piece_message(chunk, i) == chunk.subrange(pos + 4, pos + 4 + len));
    if j > i {
        opened_pieces_are_authentic(key, first, chunk, i + 1, count, j);
    }
}

/// A chunk is taken only if every one of its pieces is there and authentic, each under its
/// own nonce; one bad piece and the chunk is refused.
pub proof fn taken_chunk_is_authentic(key: Seq<u8>, first: u64, chunk: Seq<u8>, i: nat)
    requires
        opened_chunk(key, first, chunk) is Ok,
        i < wire::from_be16(chunk),
    ensures
        2 <= piece_start(chunk, i),
        piece_start(chunk, i) + 4 <= piece_start(chunk, i + 1) <= chunk.len(),
        noise::open_result(key, piece_nonce(first, i), piece_message(chunk, i)) is Ok,
{
    opened_pieces_are_authentic(key, first, chunk, 0, wire::from_be16(chunk) as nat, i);
}

proof fn opened_pieces_step(
    key: Seq<u8>,
    first: u64,
    chunk: Seq<u8>,
    i: nat,
    count: nat,
)
    requires
        2 <= piece_start(chunk, i),
        forall|j: nat|
            i <= j < count ==> 2 <= #[trigger] piece_start(chunk, j) && piece_start(chunk, j) + 4
                <= chunk.len() && piece_start(chunk, j + 1) <= chunk.len() && noise::open_result(
                key,
                piece_nonce(first, j),
                piece_message(chunk, j),
            ) is Ok,
    ensures
        opened_pieces(key, first, chunk, piece_start(chunk, i), i, count) is Ok,
    decreases count - i,
{
    if i < count {
        let pos = piece_start(chunk, i);
        let len = wire::from_be32(chunk.subrange(pos, chunk.len() as int));
        assert(piece_start(chunk, i + 1) == pos + 4 + len);
        assert(piece_message(chunk, i) == chunk.subrange(pos + 4, pos + 4 + len));
        opened_pieces_step(key, first, chunk, i + 1, count);
    }
}

/// And a chunk all of whose pieces are there and authentic is taken.
pub proof fn authentic_chunk_is_taken(key: Seq<u8>, first: u64, chunk: Seq<u8>)
    requires
        chunk.len() >= 2,
        forall|j: nat|
            j < wire::from_be16(chunk) ==> 2 <= #[trigger] piece_start(chunk, j) && piece_start(
                chunk,
                j,
            ) + 4 <= chunk.len() && piece_start(chunk, j + 1) <= chunk.len() && noise::open_result(
                key,
                piece_nonce(first, j),
                piece_message(chunk, j),
            ) is Ok,
    ensures
        opened_chunk(key, first, chunk) is Ok,
{
    opened_pieces_step(key, first, chunk, 0, wire::from_be16(chunk) as nat);
}

proof fn first_piece_leads(key: Seq<u8>, first: u64, chunk: Seq<u8>, i: nat, count: nat)
    requires
        i < count,
        opened_pieces(key, first, chunk, piece_start(chunk, i), i, count) is Ok,
    ensures
        ({
            let all = opened_pieces(key, first, chunk, piece_start(chunk, i), i, count)->Ok_0;
            let head = noise::open_result(
                key,
                piece_nonce(first, i),
                piece_message(chunk, i),
            )->Ok_0;
            let rest = opened_pieces(
                key,
                first,
                chunk,
                piece_start(chunk, i + 1),
                i + 1,
                count,
            );
            &&& rest is Ok
            &&& all == head + rest->Ok_0
        }),
{
    let pos = piece_start(chunk, i);
    let len = wire::from_be32(chunk.subrange(pos, chunk.len() as int));
    assert(piece_start(chunk, i + 1) == pos + 4 + len);
    assert(piece_message(chunk, i) == chunk.subrange(pos + 4, pos + 4 + len));
}

/// What the first `n` pieces of a chunk carry, one after the other.
pub open spec fn carried(key: Seq<u8>, first: u64, chunk: Seq<u8>, n: nat) -> Seq<u8>
    decreases n,
{
    if n == 0 {
        Seq::empty()
    } else {
        carried(key, first, chunk, (n - 1) as nat) + noise::open_result(
            key,
            piece_nonce(first, (n - 1) as nat),
            piece_message(chunk, (n - 1) as nat),
        )->Ok_0
    }
}

proof fn carried_then_rest(key: Seq<u8>, first: u64, chunk: Seq<u8>, n: nat, count: nat)
    requires
        n <= count,
        opened_pieces(key, first, chunk, 2, 0, count) is Ok,
    ensures
        ({
            let rest = opened_pieces(key, first, chunk, piece_start(chunk, n), n, count);
            &&& rest is Ok
            &&& opened_pieces(key, first, chunk, 2, 0, count)->Ok_0 == carried(
                key,
                first,
                chunk,
                n,
            ) + rest->Ok_0
        }),
    decreases n,
{
    let all = opened_pieces(key, first, chunk, 2, 0, count)->Ok_0;
    if n == 0 {
        assert(Seq::<u8>::empty() + all =~= all);
    } else {
        let m = (n - 1) as nat;
        carried_then_rest(key, first, chunk, m, count);
        first_piece_leads(key, first, chunk, m, count);
        let head = noise::open_result(key, piece_nonce(first, m), piece_message(chunk, m))->Ok_0;
        let rest = opened_pieces(key, first, chunk, piece_start(chunk, n), n, count)->Ok_0;
        assert(carried(key, first, chunk, m) + (head + rest) =~= carried(key, first, chunk, n)
            + rest);
    }
}

/// What a chunk is read as is what its pieces carry, in their order.
pub proof fn taken_chunk_is_what_its_pieces_carry(key: Seq<u8>, first: u64, chunk: Seq<u8>)
    requires
        opened_chunk(key, first, chunk) is Ok,
    ensures
        opened_chunk(key, first, chunk)->Ok_0 == carried(
            key,
            first,
            chunk,
            wire::from_be16(chunk) as nat,
        ),
{
    let count = wire::from_be16(chunk) as nat;
    carried_then_rest(key, first, chunk, count, count);
    let all = carried(key, first, chunk, count);
    assert(all + Seq::<u8>::empty() =~= all);
}

/// A sealed chunk starts with the count of its pieces in two bytes, and each piece is
/// behind its length in four.
pub proof fn sealed_chunk_layout(key: Seq<u8>, first: u64, plain: Seq<u8>, i: nat)
    requires
        piece_count(plain.len()) < 0x1_0000,
        pieces_open(key, first, plain),
        i < piece_count(plain.len()),
    ensures
        ({
            let chunk = sealed_chunk(key, first, plain);
            &&& wire::from_be16(chunk) == piece_count(plain.len())
            &&& piece_message(chunk, i) == noise::sealed(
                key,
                piece_nonce(first, i),
                piece(plain, i),
            )
        }),
{
    let n = piece_count(plain.len());
    let chunk = sealed_chunk(key, first, plain);
    let pos = piece_offset(key, first, plain, i);
    let message = noise::sealed(key, piece_nonce(first, i), piece(plain, i));
    assert(wire::from_be16(chunk) == n) by {
        wire::be16_round_trip(n as u16, framed_pieces(key, first, plain, n));
    }
    assert(pos + 4 + message.len() == piece_offset(key, first, plain, i + 1) && chunk.subrange(
        pos + 4,
        pos + 4 + message.len(),
    ) == message) by {
        assert(piece_opens(key, first, plain, i));
        sealed_layout(key, first, plain, i);
    }
    assert(piece_start(chunk, i) == pos) by {
        sealed_starts(key, first, plain, i);
    }
    assert(piece_start(chunk, i + 1) == pos + 4 + message.len()) by {
        sealed_starts(key, first, plain, i + 1);
    }
}

proof fn sealed_starts(key: Seq<u8>, first: u64, plain: Seq<u8>, i: nat)
    requires
        piece_count(plain.len()) < 0x1_0000,
        pieces_open(key, first, plain),
        i <= piece_count(plain.len()),
    ensures
        piece_start(sealed_chunk(key, first, plain), i) == piece_offset(key, first, plain, i),
    decreases i,
{
    let chunk = sealed_chunk(key, first, plain);
    if i == 0 {
        assert(framed_pieces(key, first, plain, 0) =~= Seq::<u8>::empty());
    } else {
        let m = (i - 1) as nat;
        sealed_starts(key, first, plain, m);
        assert(piece_opens(key, first, plain, m));
        piece_bounds(plain.len(), m);
        sealed_layout(key, first, plain, m);
        let pos = piece_offset(key, first, plain, m);
        let message = noise::sealed(key, piece_nonce(first, m), piece(plain, m));
        let after = chunk.subrange(pos + 4, chunk.len() as int);
        assert(chunk.subrange(pos, chunk.len() as int) =~= chunk.subrange(pos, pos + 4) + after);
        wire::be32_round_trip(message.len() as u32, after);
    }
}

/// Pieces up to `i` are there and authentic.
pub open spec fn sound_up_to(key: Seq<u8>, first: u64, chunk: Seq<u8>, i: nat) -> bool {
    forall|j: nat|
        j < i ==> 2 <= #[trigger] piece_start(chunk, j) && piece_start(chunk, j) + 4 <= chunk.len()
            && piece_start(chunk, j + 1) <= chunk.len() && noise::open_result(
            key,
            piece_nonce(first, j),
            piece_message(chunk, j),
        ) is Ok
}

proof fn error_comes_through(
    key: Seq<u8>,
    first: u64,
    chunk: Seq<u8>,
    k: nat,
    i: nat,
    count: nat,
)
    requires
        k <= i < count,
        2 <= piece_start(chunk, k),
        sound_up_to(key, first, chunk, i),
        opened_pieces(key, first, chunk, piece_start(chunk, i), i, count) is Err,
    ensures
        opened_pieces(key, first, chunk, piece_start(chunk, k), k, count) == opened_pieces(
            key,
            first,
            chunk,
            piece_start(chunk, i),
            i,
            count,
        ),
    decreases i - k,
{
    if k < i {
        let pos = piece_start(chunk, k);
        let len = wire::from_be32(chunk.subrange(pos, chunk.len() as int));
        assert(piece_start(chunk, k + 1) == pos + 4 + len);
        assert(piece_message(chunk, k) == chunk.subrange(pos + 4, pos + 4 + len));
        error_comes_through(key, first, chunk, k + 1, i, count);
    }
}

/// A chunk is refused for its first fault: that it has no count, that the length of a piece
/// or the piece itself is cut short, or what the cipher says of a piece.
pub proof fn chunk_is_refused_for_its_first_fault(
    key: Seq<u8>,
    first: u64,
    chunk: Seq<u8>,
    i: nat,
)
    ensures
        chunk.len() < 2 ==> opened_chunk(key, first, chunk) == std::result::Result::<
            Seq<u8>,
            Seq<char>,
        >::Err("chunk too short"@),
        chunk.len() >= 2 && i < wire::from_be16(chunk) && sound_up_to(key, first, chunk, i) ==> {
            let r = opened_chunk(key, first, chunk);
            let message = piece_message(chunk, i);
            if piece_start(chunk, i) + 4 > chunk.len() {
                r == std::result::Result::<Seq<u8>, Seq<char>>::Err(
                    "truncated sub-message length"@,
                )
            } else if piece_start(chunk, i + 1) > chunk.len() {
                r == std::result::Result::<Seq<u8>, Seq<char>>::Err("truncated sub-message body"@)
            } else {
                noise::open_result(key, piece_nonce(first, i), message) is Err ==> r
                    == std::result::Result::<Seq<u8>, Seq<char>>::Err(
                    noise::open_result(key, piece_nonce(first, i), message)->Err_0,
                )
            }
        },
{
    if chunk.len() >= 2 && i < wire::from_be16(chunk) && sound_up_to(key, first, chunk, i) {
        let count = wire::from_be16(chunk) as nat;
        let pos = piece_start(chunk, i);
        if i > 0 {
            let m = (i - 1) as nat;
            assert(2 <= piece_start(chunk, m));
        }
        let len = wire::from_be32(chunk.subrange(pos, chunk.len() as int));
        assert(piece_start(chunk, i + 1) == pos + 4 + len);
        assert(piece_message(chunk, i) == chunk.subrange(pos + 4, pos + 4 + len));
        if opened_pieces(key, first, chunk, pos, i, count) is Err {
            error_comes_through(key, first, chunk, 0, i, count);
        }
    }
}

} // verus!
