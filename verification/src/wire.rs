//! Big-endian integers and fixed-size byte strings, as they travel on the wire.

use vstd::prelude::*;

verus! {

/// The two bytes of `x`, most significant first.
pub open spec fn be16(x: u16) -> Seq<u8> {
    seq![(x / 256) as u8, (x % 256) as u8]
}

/// The four bytes of `x`, most significant first.
pub open spec fn be32(x: u32) -> Seq<u8> {
    seq![
        (x / 0x100_0000) as u8,
        (x / 0x1_0000 % 256) as u8,
        (x / 256 % 256) as u8,
        (x % 256) as u8,
    ]
}

/// The eight bytes of `x`, most significant first.
pub open spec fn be64(x: u64) -> Seq<u8> {
    be32((x / 0x1_0000_0000) as u32) + be32((x % 0x1_0000_0000) as u32)
}

/// The number that the first two bytes of `s` spell, most significant first.
pub open spec fn from_be16(s: Seq<u8>) -> u16 {
    (s[0] * 256 + s[1]) as u16
}

/// The number that the first four bytes of `s` spell, most significant first.
pub open spec fn from_be32(s: Seq<u8>) -> u32 {
    (s[0] * 0x100_0000 + s[1] * 0x1_0000 + s[2] * 256 + s[3]) as u32
}

/// The number that the first eight bytes of `s` spell, most significant first.
pub open spec fn from_be64(s: Seq<u8>) -> u64 {
    (from_be32(s) * 0x1_0000_0000 + from_be32(s.subrange(4, s.len() as int))) as u64
}

/// Reading two bytes gives back the number that was written.
pub proof fn be16_round_trip(x: u16, rest: Seq<u8>)
    ensures
        from_be16(be16(x) + rest) == x,
{
}

/// Reading four bytes gives back the number that was written.
pub proof fn be32_round_trip(x: u32, rest: Seq<u8>)
    ensures
        from_be32(be32(x) + rest) == x,
{
}

/// Reading eight bytes gives back the number that was written.
pub proof fn be64_round_trip(x: u64, rest: Seq<u8>)
    ensures
        from_be64(be64(x) + rest) == x,
{
    let hi = (x / 0x1_0000_0000) as u32;
    let lo = (x % 0x1_0000_0000) as u32;
    let s = be64(x) + rest;
    assert(s =~= be32(hi) + (be32(lo) + rest));
    assert(s.subrange(4, s.len() as int) =~= be32(lo) + rest);
    be32_round_trip(hi, be32(lo) + rest);
    be32_round_trip(lo, rest);
}

/// Appends the two bytes of `x`.
pub fn put16(out: &mut Vec<u8>, x: u16)
    ensures
        final(out)@ == old(out)@ + be16(x),
{
    out.push((x / 256) as u8);
    out.push((x % 256) as u8);
    assert(out@ =~= old(out)@ + be16(x));
}

/// Appends the four bytes of `x`.
pub fn put32(out: &mut Vec<u8>, x: u32)
    ensures
        final(out)@ == old(out)@ + be32(x),
{
    out.push((x / 0x100_0000) as u8);
    out.push((x / 0x1_0000 % 256) as u8);
    out.push((x / 256 % 256) as u8);
    out.push((x % 256) as u8);
    assert(out@ =~= old(out)@ + be32(x));
}

/// Appends the eight bytes of `x`.
pub fn put64(out: &mut Vec<u8>, x: u64)
    ensures
        final(out)@ == old(out)@ + be64(x),
{
    put32(out, (x / 0x1_0000_0000) as u32);
    put32(out, (x % 0x1_0000_0000) as u32);
    assert(out@ =~= old(out)@ + be64(x));
}

/// Appends all of `bytes`.
pub fn put_bytes(out: &mut Vec<u8>, bytes: &[u8])
    ensures
        final(out)@ == old(out)@ + bytes@,
{
    out.extend_from_slice(bytes);
    assert(out@ =~= old(out)@ + bytes@);
}

/// Reads two bytes at `at`.
pub fn get16(s: &[u8], at: usize) -> (x: u16)
    requires
        at + 2 <= s@.len(),
    ensures
        x == from_be16(s@.subrange(at as int, s@.len() as int)),
{
    s[at] as u16 * 256 + s[at + 1] as u16
}

/// Reads four bytes at `at`.
pub fn get32(s: &[u8], at: usize) -> (x: u32)
    requires
        at + 4 <= s@.len(),
    ensures
        x == from_be32(s@.subrange(at as int, s@.len() as int)),
{
    s[at] as u32 * 0x100_0000 + s[at + 1] as u32 * 0x1_0000 + s[at + 2] as u32 * 256
        + s[at + 3] as u32
}

/// Reads eight bytes at `at`.
pub fn get64(s: &[u8], at: usize) -> (x: u64)
    requires
        at + 8 <= s@.len(),
    ensures
        x == from_be64(s@.subrange(at as int, s@.len() as int)),
{
    assert(at + 8 <= s.len());
    let hi: u32 = get32(s, at);
    let lo: u32 = get32(s, at + 4);
    assert(s@.subrange(at as int, s@.len() as int).subrange(
        4,
        s@.len() - at,
    ) =~= s@.subrange(at + 4, s@.len() as int));
    hi as u64 * 0x1_0000_0000 + lo as u64
}

/// `bytes` as an array of 32, if they are so many.
pub fn array32(bytes: &[u8]) -> (r: Option<[u8; 32]>)
    ensures
        r is Some <==> bytes@.len() == 32,
        r is Some ==> r->0@ == bytes@,
{
    if bytes.len() != 32 {
        return None;
    }
    let mut array: [u8; 32] = [0u8; 32];
    let mut i: usize = 0;
    while i < 32
        invariant
            i <= 32,
            bytes@.len() == 32,
            forall|j: int| 0 <= j < i ==> array@[j] == bytes@[j],
        decreases 32 - i,
    {
        array[i] = bytes[i];
        i = i + 1;
    }
    assert(array@ =~= bytes@);
    Some(array)
}

/// Whether `a` and `b` hold the same bytes.
pub fn same_bytes(a: &[u8], b: &[u8]) -> (r: bool)
    ensures
        r == (a@ == b@),
{
    if a.len() != b.len() {
        return false;
    }
    let mut i: usize = 0;
    while i < a.len()
        invariant
            i <= a@.len(),
            a@.len() == b@.len(),
            a@.subrange(0, i as int) == b@.subrange(0, i as int),
        decreases a@.len() - i,
    {
        if a[i] != b[i] {
            return false;
        }
        i = i + 1;
        assert(a@.subrange(0, i as int) =~= a@.subrange(0, i - 1).push(a@[i - 1]));
        assert(b@.subrange(0, i as int) =~= b@.subrange(0, i - 1).push(b@[i - 1]));
    }
    assert(a@.subrange(0, i as int) =~= a@);
    assert(b@.subrange(0, i as int) =~= b@);
    true
}

// ── Laws ───────────────────────────────────────────────────────────────────────

/// Two bytes, the most significant first.
pub proof fn be16_is_big_endian(x: u16)
    ensures
        be16(x).len() == 2,
        be16(x)[0] * 0x100 + be16(x)[1] == x,
{
}

/// Four bytes, the most significant first.
pub proof fn be32_is_big_endian(x: u32)
    ensures
        be32(x).len() == 4,
        be32(x)[0] * 0x100_0000 + be32(x)[1] * 0x1_0000 + be32(x)[2] * 0x100 + be32(x)[3] == x,
{
}

/// Eight bytes, the most significant half first.
pub proof fn be64_is_big_endian(x: u64)
    ensures
        be64(x).len() == 8,
        be64(x).subrange(0, 4) == be32((x / 0x1_0000_0000) as u32),
        be64(x).subrange(4, 8) == be32((x % 0x1_0000_0000) as u32),
{
    assert(be64(x).subrange(0, 4) =~= be32((x / 0x1_0000_0000) as u32));
    assert(be64(x).subrange(4, 8) =~= be32((x % 0x1_0000_0000) as u32));
}

/// A number is read from bytes of which the first weighs most.
pub proof fn reading_is_big_endian(s: Seq<u8>)
    ensures
        s.len() >= 2 ==> from_be16(s) == s[0] * 0x100 + s[1],
        s.len() >= 4 ==> from_be32(s) == s[0] * 0x100_0000 + s[1] * 0x1_0000 + s[2] * 0x100 + s[3],
        s.len() >= 8 ==> from_be64(s) == s[0] * 0x100_0000_0000_0000 + s[1] * 0x1_0000_0000_0000
            + s[2] * 0x100_0000_0000 + s[3] * 0x1_0000_0000 + s[4] * 0x100_0000 + s[5] * 0x1_0000
            + s[6] * 0x100 + s[7],
{
}

} // verus!
