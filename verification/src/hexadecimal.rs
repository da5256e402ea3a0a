//! Byte strings as hexadecimal text.

use vstd::prelude::*;

use crate::text;

verus! {

/// `c` is a hexadecimal digit, in either case.
pub open spec fn is_hex(c: char) -> bool {
    '0' <= c <= '9' || 'a' <= c <= 'f' || 'A' <= c <= 'F'
}

/// The value of a hexadecimal digit.
pub open spec fn hex_value(c: char) -> int {
    if '0' <= c <= '9' {
        c as int - 48
    } else if 'a' <= c <= 'f' {
        c as int - 87
    } else {
        c as int - 55
    }
}

/// The bytes that `s` spells, two digits each; `None` if it is no such text.
pub open spec fn bytes_of_hex(s: Seq<char>) -> Option<Seq<u8>> {
    if s.len() % 2 == 0 && (forall|i: int| 0 <= i < s.len() ==> is_hex(#[trigger] s[i])) {
        Some(
            Seq::new(
                s.len() / 2,
                |i: int| (hex_value(s[2 * i]) * 16 + hex_value(s[2 * i + 1])) as u8,
            ),
        )
    } else {
        None
    }
}

/// `hex::encode`: two digits for each byte, in lower case.
#[verifier::external_body]
pub(crate) fn encode(bytes: &[u8]) -> (r: String)
    ensures
        r@ == text::hex_of(bytes@),
{
    hex::encode(bytes)
}

/// `hex::decode`: the bytes that an even count of digits spells, in either case; any
/// other text is an error.
#[verifier::external_body]
pub(crate) fn decode(s: &str) -> (r: Option<Vec<u8>>)
    ensures
        r is Some <==> bytes_of_hex(s@) is Some,
        r is Some ==> r->0@ == bytes_of_hex(s@)->0,
{
    hex::decode(s).ok()
}

/// Decoding gives back what was encoded.
pub proof fn hex_round_trip(bytes: Seq<u8>)
    ensures
        bytes_of_hex(text::hex_of(bytes)) == Some(bytes),
{
    let s = text::hex_of(bytes);
    assert forall|i: int| 0 <= i < s.len() implies is_hex(#[trigger] s[i]) by {
        let b = bytes[i / 2];
        assert(b / 16 < 16);
    }
    let back = bytes_of_hex(s)->0;
    assert(s.len() / 2 == bytes.len());
    assert forall|i: int| 0 <= i < bytes.len() implies back[i] == bytes[i] by {
        let b = bytes[i];
        assert((2 * i) / 2 == i && (2 * i + 1) / 2 == i);
        assert(s[2 * i] == text::hex_digit((b / 16) as nat));
        assert(s[2 * i + 1] == text::hex_digit((b % 16) as nat));
        assert(hex_value(s[2 * i]) == b / 16);
        assert(hex_value(s[2 * i + 1]) == b % 16);
    }
    assert(back =~= bytes);
}

} // verus!
