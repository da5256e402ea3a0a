//! What a sender calls out on the local network: `XEND1:CODE: PORT`.
//!
//! The same text goes out by multicast and by broadcast.

use vstd::prelude::*;

use crate::net::{HostIp, PeerAddr};
use crate::discovery::share_code;
use crate::text;
use crate::unicode;

verus! {

/// The port of broadcast announcements.
pub const BROADCAST_PORT: u16 = 47474;

/// The port of multicast announcements.
pub const MULTICAST_PORT: u16 = 52525;

/// The pause between two announcements, in milliseconds.
pub const ANNOUNCE_INTERVAL_MS: u64 = 500;

/// The multicast group 239.255.52.52.
pub const MULTICAST_ADDR: u32 = 0xEFFF3434;

/// The announcement of `code` with a port, as text.
pub open spec fn announced(code: Seq<char>, port: u16) -> Seq<char> {
    "XEND1:"@ + unicode::upper(code) + ": "@ + text::digits(port as nat)
}

/// The position of the first colon with a space behind it, from `from` on; the length of
/// `s` if there is none.
pub open spec fn colon_space(s: Seq<char>, from: int) -> int
    decreases s.len() - from,
{
    if from + 1 >= s.len() {
        s.len() as int
    } else if s[from] == ':' && s[from + 1] == ' ' {
        from
    } else {
        colon_space(s, from + 1)
    }
}

/// A colon with a space behind it occurs nowhere in `s`.
pub open spec fn has_no_colon_space(s: Seq<char>) -> bool {
    forall|i: int| 0 <= i < s.len() - 1 ==> !(#[trigger] s[i] == ':' && s[i + 1] == ' ')
}

/// The port that `payload`, `CODE: PORT`, gives for `code`; `None` if it is of another
/// code or gives no port.
pub open spec fn payload_port(payload: Seq<char>, code: Seq<char>) -> Option<u16> {
    let at = colon_space(payload, 0);
    if unicode::upper(unicode::trimmed(payload.subrange(0, at))) != code || at == payload.len() {
        None
    } else {
        match text::number16(unicode::trimmed(payload.subrange(at + 2, payload.len() as int))) {
            Some(port) => if port > 0 {
                Some(port)
            } else {
                None
            },
            None => None,
        }
    }
}

/// The port that the text of a datagram gives for `code`.
pub open spec fn text_port(s: Seq<char>, code: Seq<char>) -> Option<u16> {
    if s.len() >= 6 && s.subrange(0, 6) == "XEND1:"@ {
        payload_port(s.subrange(6, s.len() as int), code)
    } else {
        None
    }
}

/// The port that a datagram gives for `code`.
pub open spec fn datagram_port(bytes: Seq<u8>, code: Seq<char>) -> Option<u16> {
    if vstd::utf8::valid_utf8(bytes) {
        text_port(vstd::utf8::decode_utf8(bytes), code)
    } else {
        None
    }
}

/// The datagram that announces `code` with a port.
pub fn announcement(code: &str, port: u16) -> (r: Vec<u8>)
    ensures
        r@ == vstd::utf8::encode_utf8(announced(code@, port)),
{
    let mut s = "XEND1:".to_string();
    s.append(&unicode::to_uppercase(code));
    s.append(": ");
    s.append(&text::decimal(port as u64));
    s.as_str().as_bytes_vec()
}

proof fn colon_space_bounds(s: Seq<char>, from: int)
    requires
        0 <= from,
    ensures
        from <= colon_space(s, from) <= s.len() || colon_space(s, from) == s.len(),
        colon_space(s, from) < s.len() ==> colon_space(s, from) + 2 <= s.len(),
    decreases s.len() - from,
{
    if from + 1 < s.len() {
        colon_space_bounds(s, from + 1);
    }
}

fn find_colon_space(s: &[char]) -> (at: usize)
    ensures
        at == colon_space(s@, 0),
        at <= s@.len(),
        at < s@.len() ==> at + 2 <= s@.len(),
{
    proof {
        colon_space_bounds(s@, 0);
    }
    let mut i: usize = 0;
    while i < s.len() && i + 1 < s.len()
        invariant
            i <= s@.len(),
            colon_space(s@, 0) == colon_space(s@, i as int),
        decreases s@.len() - i,
    {
        if s[i] == ':' && s[i + 1] == ' ' {
            return i;
        }
        i = i + 1;
    }
    s.len()
}

/// Reads a datagram: the sender's port, if the datagram announces `code_upper`.
pub fn parse_announcement(bytes: &[u8], code_upper: &str) -> (r: Option<u16>)
    ensures
        r == datagram_port(bytes@, code_upper@),
{
    let msg = match unicode::from_utf8(bytes) {
        Some(msg) => msg,
        None => {
            return None;
        },
    };
    proof {
        vstd::utf8::encode_utf8_decode_utf8(msg@);
        reveal_strlit("XEND1:");
    }
    let chars = text::chars_of(msg);
    if chars.len() < 6 {
        return None;
    }
    let head = text::text_of(vstd::slice::slice_subrange(chars.as_slice(), 0, 6));
    if !text::equal(&head, "XEND1:") {
        return None;
    }
    let payload = vstd::slice::slice_subrange(chars.as_slice(), 6, chars.len());
    let at: usize = find_colon_space(payload);
    let name = unicode::trim(vstd::slice::slice_subrange(payload, 0, at));
    let found = unicode::to_uppercase(&text::text_of(name));
    if !text::equal(&found, code_upper) || at == payload.len() {
        return None;
    }
    let number = unicode::trim(vstd::slice::slice_subrange(payload, at + 2, payload.len()));
    match text::parse16(number) {
        Some(port) if port > 0 => Some(port),
        _ => None,
    }
}

/// The address at which the sender of a datagram listens, if the datagram announces
/// `code_upper`.
pub fn announced_addr(bytes: &[u8], from: &PeerAddr, code_upper: &str) -> (r: Option<PeerAddr>)
    ensures
        r == (match datagram_port(bytes@, code_upper@) {
            Some(port) => Some(from.host().at_port(port)),
            None => None,
        }),
{
    match parse_announcement(bytes, code_upper) {
        Some(port) => Some(from.ip().with_port(port)),
        None => None,
    }
}

// ── Where broadcasts go ────────────────────────────────────────────────────────

/// The broadcast address of the /24 network that `local` is in.
pub fn subnet_broadcast(local: Option<HostIp>) -> (r: Option<u32>)
    ensures
        r == (match local {
            Some(HostIp::V4(ip)) => Some((ip / 256 * 256 + 255) as u32),
            _ => None,
        }),
{
    match local {
        Some(HostIp::V4(ip)) => Some(ip / 256 * 256 + 255),
        _ => None,
    }
}

/// Where to send broadcasts: to everyone, and to the subnet if it is known.
pub fn broadcast_targets(subnet: Option<u32>) -> (r: Vec<PeerAddr>)
    ensures
        r@ == (match subnet {
            None => seq![PeerAddr::V4 { ip: 0xFFFF_FFFF, port: BROADCAST_PORT }],
            Some(ip) => seq![
                PeerAddr::V4 { ip: 0xFFFF_FFFF, port: BROADCAST_PORT },
                PeerAddr::V4 { ip, port: BROADCAST_PORT },
            ],
        }),
{
    let mut r: Vec<PeerAddr> = Vec::new();
    r.push(PeerAddr::V4 { ip: 0xFFFF_FFFF, port: BROADCAST_PORT });
    if let Some(ip) = subnet {
        r.push(PeerAddr::V4 { ip, port: BROADCAST_PORT });
    }
    r
}

// ── Laws ───────────────────────────────────────────────────────────────────────

proof fn first_colon_space(s: Seq<char>, at: int, from: int)
    requires
        0 <= from <= at,
        at + 2 <= s.len(),
        s[at] == ':',
        s[at + 1] == ' ',
        forall|i: int| 0 <= i < at ==> !(#[trigger] s[i] == ':' && s[i + 1] == ' '),
    ensures
        colon_space(s, from) == at,
    decreases at - from,
{
    if from < at {
        first_colon_space(s, at, from + 1);
    }
}

/// Digits have no white space at their ends.
proof fn trimmed_digits(s: Seq<char>)
    requires
        s.len() > 0,
        forall|i: int| 0 <= i < s.len() ==> text::is_digit(#[trigger] s[i]),
    ensures
        unicode::trimmed(s) == s,
{
    assert(text::is_digit(s[0]));
    assert(!unicode::white(s[0]));
    assert(unicode::skip_white(s, 0) == 0);
    assert(s.subrange(0, s.len() as int) =~= s);
    assert(text::is_digit(s[s.len() - 1]));
    assert(!unicode::white(s.last()));
}

/// What a sender announces, a receiver of the same code finds, with the sender's port.
///
/// The code, in upper case, must stay what it is in upper case, have no white space at its
/// ends and hold no colon in front of a space.
pub proof fn announcement_is_found(code: Seq<char>, port: u16)
    requires
        port > 0,
        unicode::upper(unicode::upper(code)) == unicode::upper(code),
        unicode::trimmed(unicode::upper(code)) == unicode::upper(code),
        has_no_colon_space(unicode::upper(code)),
    ensures
        datagram_port(vstd::utf8::encode_utf8(announced(code, port)), unicode::upper(code)) == Some(
            port,
        ),
{
    let u = unicode::upper(code);
    let d = text::digits(port as nat);
    let s = announced(code, port);
    reveal_strlit("XEND1:");
    reveal_strlit(": ");
    vstd::utf8::encode_utf8_valid_utf8(s);
    vstd::utf8::encode_utf8_decode_utf8(s);
    assert(s.subrange(0, 6) =~= "XEND1:"@);
    let payload = s.subrange(6, s.len() as int);
    assert(payload =~= u + ": "@ + d);
    let at = u.len() as int;
    assert forall|i: int| 0 <= i < at implies !(#[trigger] payload[i] == ':' && payload[i + 1]
        == ' ') by {
        assert(payload[i] == u[i]);
        if i + 1 < at {
            assert(payload[i + 1] == u[i + 1]);
        } else {
            assert(payload[i + 1] == ':');
        }
    }
    assert(payload[at] == ':' && payload[at + 1] == ' ');
    first_colon_space(payload, at, 0);
    assert(payload.subrange(0, at) =~= u);
    assert(payload.subrange(at + 2, payload.len() as int) =~= d);
    text::digits_round_trip(port as nat);
    trimmed_digits(d);
    assert(text::is_digit(d[0]));
}

/// The announcement of a share code is found by whoever types it, in whatever case.
pub proof fn share_code_is_found(code: Seq<char>, typed: Seq<char>, port: u16)
    requires
        share_code::is_share_code(code),
        vstd::utf8::is_ascii_chars(typed),
        unicode::ascii_lower_text(typed) == unicode::ascii_lower_text(code),
        port > 0,
    ensures
        datagram_port(vstd::utf8::encode_utf8(announced(code, port)), unicode::upper(typed)) == Some(
            port,
        ),
{
    share_code::share_code_is_upper(code);
    share_code::case_does_not_matter(code, typed);
    share_code::share_code_has_no_blanks(code);
    assert(!unicode::white(code[0]) && !unicode::white(code.last()));
    assert(unicode::skip_white(code, 0) == 0);
    assert(code.subrange(0, code.len() as int) =~= code);
    assert(unicode::trimmed(code) == code);
    assert(has_no_colon_space(code)) by {
        assert forall|i: int| 0 <= i < code.len() - 1 implies !(#[trigger] code[i] == ':' && code[i
            + 1] == ' ') by {
            assert(!unicode::white(code[i + 1]));
        }
    }
    announcement_is_found(code, port);
}

proof fn colon_space_found(s: Seq<char>, from: int)
    requires
        0 <= from,
        colon_space(s, from) < s.len(),
    ensures
        from <= colon_space(s, from),
        colon_space(s, from) + 2 <= s.len(),
        s[colon_space(s, from)] == ':',
        s[colon_space(s, from) + 1] == ' ',
        forall|i: int|
            from <= i < colon_space(s, from) ==> !(#[trigger] s[i] == ':' && s[i + 1] == ' '),
    decreases s.len() - from,
{
    if !(s[from] == ':' && s[from + 1] == ' ') {
        colon_space_found(s, from + 1);
    }
}

/// Whatever a datagram holds, it is found under one code at most.
pub proof fn datagram_is_of_one_code(bytes: Seq<u8>, a: Seq<char>, b: Seq<char>)
    requires
        datagram_port(bytes, a) is Some,
        datagram_port(bytes, b) is Some,
    ensures
        a == b,
        datagram_port(bytes, a) == datagram_port(bytes, b),
{
}

/// A datagram that is found reads `XEND1:`, the code, a colon and a space, and the port,
/// which is not zero; but for white space around the code and the port, and the case of
/// the code.
pub proof fn found_datagram_reads(bytes: Seq<u8>, code: Seq<char>)
    requires
        datagram_port(bytes, code) is Some,
    ensures
        datagram_port(bytes, code)->0 > 0,
        exists|name: Seq<char>, number: Seq<char>|
            #![trigger "XEND1:"@ + name + ": "@ + number]
            {
                &&& bytes == vstd::utf8::encode_utf8("XEND1:"@ + name + ": "@ + number)
                &&& has_no_colon_space(name)
                &&& unicode::upper(unicode::trimmed(name)) == code
                &&& text::number16(unicode::trimmed(number)) == datagram_port(bytes, code)
            },
{
    let s = vstd::utf8::decode_utf8(bytes);
    vstd::utf8::decode_utf8_encode_utf8(bytes);
    reveal_strlit("XEND1:");
    reveal_strlit(": ");
    let payload = s.subrange(6, s.len() as int);
    let at = colon_space(payload, 0);
    colon_space_bounds(payload, 0);
    colon_space_found(payload, 0);
    let name = payload.subrange(0, at);
    let number = payload.subrange(at + 2, payload.len() as int);
    assert(has_no_colon_space(name)) by {
        assert forall|i: int| 0 <= i < name.len() - 1 implies !(#[trigger] name[i] == ':' && name[i
            + 1] == ' ') by {
            assert(name[i] == payload[i] && name[i + 1] == payload[i + 1]);
        }
    }
    assert(s =~= s.subrange(0, 6) + payload);
    assert(s =~= "XEND1:"@ + name + ": "@ + number);
}

/// Every datagram that reads so is found under its code, with its port.
pub proof fn datagram_that_reads_so_is_found(name: Seq<char>, number: Seq<char>, port: u16)
    requires
        has_no_colon_space(name),
        text::number16(unicode::trimmed(number)) == Some(port),
        port > 0,
    ensures
        datagram_port(
            vstd::utf8::encode_utf8("XEND1:"@ + name + ": "@ + number),
            unicode::upper(unicode::trimmed(name)),
        ) == Some(port),
{
    let s = "XEND1:"@ + name + ": "@ + number;
    reveal_strlit("XEND1:");
    reveal_strlit(": ");
    vstd::utf8::encode_utf8_valid_utf8(s);
    vstd::utf8::encode_utf8_decode_utf8(s);
    assert(s.subrange(0, 6) =~= "XEND1:"@);
    let payload = s.subrange(6, s.len() as int);
    assert(payload =~= name + ": "@ + number);
    let at = name.len() as int;
    assert forall|i: int| 0 <= i < at implies !(#[trigger] payload[i] == ':' && payload[i + 1]
        == ' ') by {
        assert(payload[i] == name[i]);
        if i + 1 < at {
            assert(payload[i + 1] == name[i + 1]);
        } else {
            assert(payload[i + 1] == ':');
        }
    }
    assert(payload[at] == ':' && payload[at + 1] == ' ');
    first_colon_space(payload, at, 0);
    assert(payload.subrange(0, at) =~= name);
    assert(payload.subrange(at + 2, payload.len() as int) =~= number);
}

/// The announcement of one share code is not found by those who look for another.
pub proof fn share_code_is_found_under_itself_only(a: Seq<char>, b: Seq<char>, port: u16)
    requires
        share_code::is_share_code(a),
        share_code::is_share_code(b),
        a != b,
        port > 0,
    ensures
        datagram_port(vstd::utf8::encode_utf8(announced(a, port)), b) is None,
{
    share_code::share_code_is_upper(a);
    assert(unicode::ascii_lower_text(a) == unicode::ascii_lower_text(a));
    share_code_is_found(a, a, port);
    if datagram_port(vstd::utf8::encode_utf8(announced(a, port)), b) is Some {
        datagram_is_of_one_code(vstd::utf8::encode_utf8(announced(a, port)), a, b);
    }
}

/// An announcement reads `XEND1:`, the code in upper case, a colon and a space, and the
/// port in decimal.
pub proof fn announcement_reads(code: Seq<char>, port: u16)
    ensures
        ({
            let s = announced(code, port);
            let n = unicode::upper(code).len() as int;
            &&& s.len() > n + 8
            &&& s.subrange(0, 6) == "XEND1:"@
            &&& s.subrange(6, 6 + n) == unicode::upper(code)
            &&& s.subrange(6 + n, 8 + n) == ": "@
            &&& text::digits_value(s.subrange(8 + n, s.len() as int)) == port
        }),
{
    let s = announced(code, port);
    let u = unicode::upper(code);
    let n = u.len() as int;
    reveal_strlit("XEND1:");
    reveal_strlit(": ");
    text::digits_round_trip(port as nat);
    assert(s.subrange(0, 6) =~= "XEND1:"@);
    assert(s.subrange(6, 6 + n) =~= u);
    assert(s.subrange(6 + n, 8 + n) =~= ": "@);
    assert(s.subrange(8 + n, s.len() as int) =~= text::digits(port as nat));
}

/// The multicast group is 239.255.52.52, and multicasts and broadcasts go to ports of their
/// own, twice a second.
pub proof fn where_announcements_go()
    ensures
        MULTICAST_ADDR == ((239 * 256 + 255) * 256 + 52) * 256 + 52,
        MULTICAST_PORT == 52525,
        BROADCAST_PORT == 47474,
        ANNOUNCE_INTERVAL_MS * 2 == 1000,
{
}

} // verus!
