//! STUN: asking a server under which address one is seen from outside.

use vstd::prelude::*;

use crate::net::PeerAddr;
use crate::random;
use crate::wire;

verus! {

pub const MAGIC_COOKIE: u32 = 0x2112A442;

/// How often all servers are asked.
pub const STUN_ATTEMPTS: u32 = 2;

pub const STUN_WAIT_SECS: u64 = 3;

/// The servers that are asked.
pub fn stun_servers() -> (r: Vec<&'static str>)
    ensures
        r@ == seq![
            "stun.l.google.com:19302",
            "stun1.l.google.com:19302",
            "stun2.l.google.com:19302",
            "stun.cloudflare.com:3478",
        ],
{
    let mut r: Vec<&'static str> = Vec::new();
    r.push("stun.l.google.com:19302");
    r.push("stun1.l.google.com:19302");
    r.push("stun2.l.google.com:19302");
    r.push("stun.cloudflare.com:3478");
    r
}

/// A binding request: type, no attributes, cookie, transaction.
pub open spec fn request_bytes(txn_id: Seq<u8>) -> Seq<u8> {
    seq![0u8, 1u8, 0u8, 0u8, 0x21u8, 0x12u8, 0xA4u8, 0x42u8] + txn_id
}

/// A binding request with this transaction identifier.
pub fn build_request(txn_id: &[u8; 12]) -> (r: [u8; 20])
    ensures
        r@ == request_bytes(txn_id@),
{
    let mut r: [u8; 20] = [0u8; 20];
    r[1] = 1;
    r[4] = 0x21;
    r[5] = 0x12;
    r[6] = 0xA4;
    r[7] = 0x42;
    let mut i: usize = 0;
    while i < 12
        invariant
            i <= 12,
            forall|j: int| 0 <= j < 8 ==> r@[j] == request_bytes(txn_id@)[j],
            forall|j: int| 0 <= j < i ==> r@[8 + j] == txn_id@[j],
        decreases 12 - i,
    {
        r[8 + i] = txn_id[i];
        i = i + 1;
    }
    proof {
        assert forall|j: int| 0 <= j < 20 implies r@[j] == request_bytes(txn_id@)[j] by {
            if j >= 8 {
                assert(r@[8 + (j - 8)] == txn_id@[j - 8]);
            }
        }
    }
    assert(r@ =~= request_bytes(txn_id@));
    r
}

/// A fresh transaction identifier and the request that carries it.
pub fn new_request() -> (r: ([u8; 12], [u8; 20]))
    ensures
        r.1@ == request_bytes(r.0@),
{
    let txn_id = random::random_12();
    let request = build_request(&txn_id);
    (txn_id, request)
}

// ── Responses ──────────────────────────────────────────────────────────────────

/// The two bytes at `at` as a number.
pub open spec fn number_at(s: Seq<u8>, at: int) -> u16 {
    wire::from_be16(s.subrange(at, s.len() as int))
}

/// The four bytes at `at` as a number.
pub open spec fn long_at(s: Seq<u8>, at: int) -> u32 {
    wire::from_be32(s.subrange(at, s.len() as int))
}

/// `n` rounded up to a multiple of four.
pub open spec fn padded(n: int) -> int {
    (n + 3) / 4 * 4
}

/// The attribute that tells the address masked with the cookie.
pub const XOR_MAPPED_ADDRESS: u16 = 0x0020;

/// The attribute that tells the address as it is.
pub const MAPPED_ADDRESS: u16 = 0x0001;

/// The address that an attribute of this kind tells in its IPv4 form.
pub open spec fn attribute_addr(kind: u16, value: Seq<u8>) -> Option<PeerAddr> {
    if value.len() >= 8 && value[1] == 1 {
        if kind == XOR_MAPPED_ADDRESS {
            Some(
                PeerAddr::V4 {
                    ip: long_at(value, 4) ^ MAGIC_COOKIE,
                    port: number_at(value, 2) ^ 0x2112,
                },
            )
        } else if kind == MAPPED_ADDRESS {
            Some(PeerAddr::V4 { ip: long_at(value, 4), port: number_at(value, 2) })
        } else {
            None
        }
    } else {
        None
    }
}

/// The first address told by an attribute of this kind, from `at` on. An attribute that
/// runs over the end ends the search.
pub open spec fn first_of_kind(attrs: Seq<u8>, kind: u16, at: int) -> Option<PeerAddr>
    decreases attrs.len() + 4 - at,
{
    if at < 0 || at + 4 > attrs.len() {
        None
    } else {
        let len = number_at(attrs, at + 2);
        if at + 4 + len > attrs.len() {
            None
        } else if number_at(attrs, at) == kind && attribute_addr(
            kind,
            attrs.subrange(at + 4, at + 4 + len),
        ) is Some {
            attribute_addr(kind, attrs.subrange(at + 4, at + 4 + len))
        } else {
            first_of_kind(attrs, kind, at + 4 + padded(len as int))
        }
    }
}

/// The address that the attributes tell: masked if there is such an attribute, else as
/// it is.
pub open spec fn attributes_addr(attrs: Seq<u8>) -> Option<PeerAddr> {
    match first_of_kind(attrs, XOR_MAPPED_ADDRESS, 0) {
        Some(addr) => Some(addr),
        None => first_of_kind(attrs, MAPPED_ADDRESS, 0),
    }
}

/// The address that a response tells: a success response to this very transaction, as
/// long as it says it is.
pub open spec fn response_addr(s: Seq<u8>, txn_id: Seq<u8>) -> Option<PeerAddr> {
    if s.len() < 20 || number_at(s, 0) != 0x0101 || s.subrange(8, 20) != txn_id || s.len() < 20
        + number_at(s, 2) {
        None
    } else {
        attributes_addr(s.subrange(20, 20 + number_at(s, 2)))
    }
}

/// Reads the address from one attribute.
fn read_attribute(kind: u16, value: &[u8]) -> (r: Option<PeerAddr>)
    ensures
        r == attribute_addr(kind, value@),
{
    if value.len() >= 8 && value[1] == 1 {
        let port: u16 = wire::get16(value, 2);
        let ip: u32 = wire::get32(value, 4);
        if kind == XOR_MAPPED_ADDRESS {
            Some(PeerAddr::V4 { ip: ip ^ MAGIC_COOKIE, port: port ^ 0x2112 })
        } else if kind == MAPPED_ADDRESS {
            Some(PeerAddr::V4 { ip, port })
        } else {
            None
        }
    } else {
        None
    }
}

/// Reads the outside address from a response to the transaction `txn_id`.
pub fn parse_response(buf: &[u8], txn_id: &[u8; 12]) -> (r: Option<PeerAddr>)
    ensures
        r == response_addr(buf@, txn_id@),
{
    if buf.len() < 20 {
        return None;
    }
    if wire::get16(buf, 0) != 0x0101 {
        return None;
    }
    if !wire::same_bytes(vstd::slice::slice_subrange(buf, 8, 20), txn_id.as_slice()) {
        return None;
    }
    let msg_len: usize = wire::get16(buf, 2) as usize;
    if buf.len() - 20 < msg_len {
        return None;
    }
    let attrs: &[u8] = vstd::slice::slice_subrange(buf, 20, 20 + msg_len);
    let mut plain: Option<PeerAddr> = None;
    let mut i: usize = 0;
    while i + 4 <= attrs.len()
        invariant
            attrs@.len() <= 0xffff,
            i <= attrs@.len() + 3,
            response_addr(buf@, txn_id@) == attributes_addr(attrs@),
            first_of_kind(attrs@, XOR_MAPPED_ADDRESS, 0) == first_of_kind(
                attrs@,
                XOR_MAPPED_ADDRESS,
                i as int,
            ),
            first_of_kind(attrs@, MAPPED_ADDRESS, 0) == (match plain {
                Some(addr) => Some(addr),
                None => first_of_kind(attrs@, MAPPED_ADDRESS, i as int),
            }),
        decreases attrs@.len() + 4 - i,
    {
        let kind: u16 = wire::get16(attrs, i);
        let len: usize = wire::get16(attrs, i + 2) as usize;
        if len > attrs.len() - i - 4 {
            return plain;
        }
        let value: &[u8] = vstd::slice::slice_subrange(attrs, i + 4, i + 4 + len);
        if let Some(addr) = read_attribute(kind, value) {
            if kind == XOR_MAPPED_ADDRESS {
                return Some(addr);
            }
            if plain.is_none() {
                plain = Some(addr);
            }
        }
        i = i + 4 + (len + 3) / 4 * 4;
    }
    plain
}

/// The address told by the first of the pending requests that this packet answers.
pub open spec fn matched_addr(
    pending: Seq<([u8; 12], PeerAddr)>,
    from: PeerAddr,
    s: Seq<u8>,
    at: int,
) -> Option<PeerAddr>
    decreases pending.len() - at,
{
    if at < 0 || at >= pending.len() {
        None
    } else if pending[at].1 == from && response_addr(s, pending[at].0@) is Some {
        response_addr(s, pending[at].0@)
    } else {
        matched_addr(pending, from, s, at + 1)
    }
}

/// Reads the outside address from a packet, if it is the answer of a server that was
/// asked. Other packets do not count.
pub fn match_response(pending: &Vec<([u8; 12], PeerAddr)>, from: &PeerAddr, packet: &[u8]) -> (r:
    Option<PeerAddr>)
    ensures
        r == matched_addr(pending@, *from, packet@, 0),
{
    let mut i: usize = 0;
    while i < pending.len()
        invariant
            i <= pending@.len(),
            matched_addr(pending@, *from, packet@, 0) == matched_addr(
                pending@,
                *from,
                packet@,
                i as int,
            ),
        decreases pending@.len() - i,
    {
        if pending[i].1 == *from {
            if let Some(addr) = parse_response(packet, &pending[i].0) {
                return Some(addr);
            }
        }
        i = i + 1;
    }
    None
}

/// A packet counts only if it comes from a server that was asked and answers what that
/// server was asked.
pub proof fn only_answers_count(
    pending: Seq<([u8; 12], PeerAddr)>,
    from: PeerAddr,
    s: Seq<u8>,
    at: int,
)
    requires
        0 <= at,
        matched_addr(pending, from, s, at) is Some,
    ensures
        exists|k: int|
            at <= k < pending.len() && (#[trigger] pending[k]).1 == from && s.subrange(8, 20)
                == pending[k].0@,
    decreases pending.len() - at,
{
    if at < pending.len() {
        if pending[at].1 == from && response_addr(s, pending[at].0@) is Some {
            assert(s.subrange(8, 20) == pending[at].0@);
        } else {
            only_answers_count(pending, from, s, at + 1);
        }
    }
}

/// The position of the first IPv4 address from `from` on, or the end.
pub open spec fn first_v4(addrs: Seq<PeerAddr>, from: int) -> int
    decreases addrs.len() - from,
{
    if from >= addrs.len() || addrs[from] is V4 {
        from
    } else {
        first_v4(addrs, from + 1)
    }
}

/// Which of a server's addresses to ask: its first IPv4 address.
pub fn pick_server(addrs: &Vec<PeerAddr>) -> (r: Option<PeerAddr>)
    ensures
        r == (if first_v4(addrs@, 0) < addrs@.len() {
            Some(addrs@[first_v4(addrs@, 0)])
        } else {
            None
        }),
{
    let mut i: usize = 0;
    while i < addrs.len()
        invariant
            i <= addrs@.len(),
            first_v4(addrs@, 0) == first_v4(addrs@, i as int),
        decreases addrs@.len() - i,
    {
        if let PeerAddr::V4 { .. } = addrs[i] {
            return Some(addrs[i]);
        }
        i = i + 1;
    }
    None
}

/// The masked form is preferred: wherever it stands among the attributes, it is what they
/// tell.
pub proof fn masked_form_is_preferred(attrs: Seq<u8>)
    requires
        first_of_kind(attrs, XOR_MAPPED_ADDRESS, 0) is Some,
    ensures
        attributes_addr(attrs) == first_of_kind(attrs, XOR_MAPPED_ADDRESS, 0),
{
}

/// A success response that tells an IPv4 address masked with the cookie.
pub open spec fn masked_response(txn_id: Seq<u8>, ip: u32, port: u16) -> Seq<u8> {
    seq![1u8, 1u8, 0u8, 12u8, 0x21u8, 0x12u8, 0xA4u8, 0x42u8] + txn_id + seq![
        0u8, 0x20u8, 0u8, 8u8, 0u8, 1u8,
    ] + wire::be16(port ^ 0x2112) + wire::be32(ip ^ MAGIC_COOKIE)
}

/// The address that a server masks is the address that is read.
pub proof fn masked_address_is_recovered(txn_id: Seq<u8>, ip: u32, port: u16)
    requires
        txn_id.len() == 12,
    ensures
        response_addr(masked_response(txn_id, ip, port), txn_id) == Some(PeerAddr::V4 { ip, port }),
{
    let s = masked_response(txn_id, ip, port);
    let p = wire::be16(port ^ 0x2112);
    let a = wire::be32(ip ^ MAGIC_COOKIE);
    assert(s.len() == 32);
    assert(s.subrange(8, 20) =~= txn_id);
    let attrs = s.subrange(20, 32);
    assert(number_at(s, 0) == 0x0101);
    assert(number_at(s, 2) == 12);
    assert(attrs[0] == 0 && attrs[1] == 0x20 && attrs[2] == 0 && attrs[3] == 8 && attrs[5] == 1);
    assert(number_at(attrs, 0) == 0x20);
    assert(number_at(attrs, 2) == 8);
    let value = attrs.subrange(4, 12);
    assert(value.subrange(2, 8) =~= p + a);
    assert(value.subrange(4, 8) =~= a + Seq::<u8>::empty());
    wire::be16_round_trip(port ^ 0x2112, a);
    wire::be32_round_trip(ip ^ MAGIC_COOKIE, Seq::empty());
    assert((port ^ 0x2112) ^ 0x2112 == port) by (bit_vector);
    assert((ip ^ MAGIC_COOKIE) ^ MAGIC_COOKIE == ip) by (bit_vector);
    assert(attribute_addr(XOR_MAPPED_ADDRESS, value) == Some(PeerAddr::V4 { ip, port }));
}

/// A request is a header alone: the type of a binding request, a length of zero, the magic
/// cookie and the transaction.
pub proof fn request_is_a_binding_request(txn_id: Seq<u8>)
    requires
        txn_id.len() == 12,
    ensures
        ({
            let s = request_bytes(txn_id);
            &&& s.len() == 20
            &&& number_at(s, 0) == 0x0001
            &&& number_at(s, 2) == 0
            &&& long_at(s, 4) == 0x2112A442
            &&& s.subrange(8, 20) == txn_id
        }),
{
    let s = request_bytes(txn_id);
    assert(s.subrange(8, 20) =~= txn_id);
}

/// Only a success response to the very transaction counts, and only if all that it announces
/// is there.
pub proof fn only_a_full_response_counts(s: Seq<u8>, txn_id: Seq<u8>)
    requires
        response_addr(s, txn_id) is Some,
    ensures
        s.len() >= 20,
        s[0] == 1,
        s[1] == 1,
        s.subrange(8, 20) == txn_id,
        s.len() >= 20 + s[2] * 256 + s[3],
{
}

/// What stands behind the announced length of a response is not looked at.
pub proof fn rest_of_the_packet_does_not_count(s: Seq<u8>, txn_id: Seq<u8>, rest: Seq<u8>)
    requires
        response_addr(s, txn_id) is Some,
    ensures
        response_addr(s + rest, txn_id) == response_addr(s, txn_id),
{
    let t = s + rest;
    assert(t.subrange(8, 20) =~= s.subrange(8, 20));
    assert(number_at(t, 0) == number_at(s, 0));
    assert(number_at(t, 2) == number_at(s, 2));
    assert(t.subrange(20, 20 + number_at(s, 2)) =~= s.subrange(20, 20 + number_at(s, 2)));
}

/// An attribute on the wire: kind, length, value, and zeros up to a multiple of four.
pub open spec fn attribute_bytes(kind: u16, value: Seq<u8>) -> Seq<u8> {
    wire::be16(kind) + wire::be16(value.len() as u16) + value + Seq::new(
        ((4 - value.len() % 4) % 4) as nat,
        |i: int| 0u8,
    )
}

proof fn attribute_layout(kind: u16, value: Seq<u8>, rest: Seq<u8>)
    requires
        value.len() <= 0xffff,
    ensures
        ({
            let head = attribute_bytes(kind, value);
            let attrs = head + rest;
            &&& head.len() == 4 + padded(value.len() as int)
            &&& value.len() <= padded(value.len() as int)
            &&& number_at(attrs, 0) == kind
            &&& number_at(attrs, 2) == value.len()
            &&& attrs.subrange(4, 4 + value.len() as int) == value
        }),
{
    let head = attribute_bytes(kind, value);
    let attrs = head + rest;
    let n = value.len() as int;
    assert(attrs.subrange(0, attrs.len() as int) =~= wire::be16(kind) + attrs.subrange(
        2,
        attrs.len() as int,
    ));
    wire::be16_round_trip(kind, attrs.subrange(2, attrs.len() as int));
    assert(attrs.subrange(2, attrs.len() as int) =~= wire::be16(n as u16) + attrs.subrange(
        4,
        attrs.len() as int,
    ));
    wire::be16_round_trip(n as u16, attrs.subrange(4, attrs.len() as int));
    assert(attrs.subrange(4, 4 + n) =~= value);
}

/// Behind `head` the search goes on as in what follows it.
proof fn search_goes_on(head: Seq<u8>, rest: Seq<u8>, kind: u16, at: int)
    requires
        0 <= at,
    ensures
        first_of_kind(head + rest, kind, head.len() + at) == first_of_kind(rest, kind, at),
    decreases rest.len() + 4 - at,
{
    let all = head + rest;
    let p = head.len() + at;
    if at + 4 <= rest.len() {
        assert(all.subrange(p, all.len() as int) =~= rest.subrange(at, rest.len() as int));
        assert(all.subrange(p + 2, all.len() as int) =~= rest.subrange(at + 2, rest.len() as int));
        let len = number_at(rest, at + 2) as int;
        if at + 4 + len <= rest.len() {
            assert(all.subrange(p + 4, p + 4 + len) =~= rest.subrange(at + 4, at + 4 + len));
            search_goes_on(head, rest, kind, at + 4 + padded(len));
        }
    }
}

/// An attribute that lies in front and tells nothing of what is wanted is stepped over.
proof fn head_is_stepped_over(head: Seq<u8>, value: Seq<u8>, rest: Seq<u8>, wanted: u16)
    requires
        head.len() == 4 + padded(value.len() as int),
        value.len() <= padded(value.len() as int),
        number_at(head + rest, 2) == value.len(),
        (head + rest).subrange(4, 4 + value.len() as int) == value,
        number_at(head + rest, 0) != wanted || attribute_addr(wanted, value) is None,
    ensures
        first_of_kind(head + rest, wanted, 0) == first_of_kind(rest, wanted, 0),
{
    let all = head + rest;
    search_goes_on(head, rest, wanted, 0);
    assert(first_of_kind(all, wanted, 0) == first_of_kind(
        all,
        wanted,
        4 + padded(value.len() as int),
    ));
}

/// An attribute that tells nothing of its kind is stepped over.
proof fn attribute_is_stepped_over(kind: u16, value: Seq<u8>, rest: Seq<u8>, wanted: u16)
    requires
        value.len() <= 0xffff,
        kind != wanted || attribute_addr(kind, value) is None,
    ensures
        first_of_kind(attribute_bytes(kind, value) + rest, wanted, 0) == first_of_kind(
            rest,
            wanted,
            0,
        ),
{
    attribute_layout(kind, value, rest);
    head_is_stepped_over(attribute_bytes(kind, value), value, rest, wanted);
}

/// Attributes that tell no address, of any kind and length, are stepped over.
pub proof fn other_attributes_are_stepped_over(kind: u16, value: Seq<u8>, rest: Seq<u8>)
    requires
        value.len() <= 0xffff,
        attribute_addr(kind, value) is None,
    ensures
        attributes_addr(attribute_bytes(kind, value) + rest) == attributes_addr(rest),
{
    attribute_is_stepped_over(kind, value, rest, XOR_MAPPED_ADDRESS);
    attribute_is_stepped_over(kind, value, rest, MAPPED_ADDRESS);
}

/// An address is told in its IPv4 form only, by the masked kind or the plain one: the port
/// behind two bytes and the address behind four.
pub proof fn what_an_attribute_tells(kind: u16, value: Seq<u8>)
    ensures
        attribute_addr(kind, value) is Some <==> value.len() >= 8 && value[1] == 1 && (kind
            == 0x0020 || kind == 0x0001),
        value.len() >= 8 && value[1] == 1 ==> attribute_addr(0x0001, value) == Some(
            PeerAddr::V4 { ip: long_at(value, 4), port: number_at(value, 2) },
        ),
        value.len() >= 8 && value[1] == 1 ==> attribute_addr(0x0020, value) == Some(
            PeerAddr::V4 { ip: long_at(value, 4) ^ 0x2112A442, port: number_at(value, 2) ^ 0x2112 },
        ),
{
}

/// The first attribute of the masked kind is what counts, whatever stands in front of it or
/// behind it.
pub proof fn masked_attribute_counts(value: Seq<u8>, plain: Seq<u8>, rest: Seq<u8>)
    requires
        8 <= value.len() <= 0xffff,
        value[1] == 1,
        plain.len() <= 0xffff,
    ensures
        attributes_addr(attribute_bytes(0x0020, value) + rest) == attribute_addr(0x0020, value),
        attributes_addr(
            attribute_bytes(0x0001, plain) + (attribute_bytes(0x0020, value) + rest),
        ) == attribute_addr(0x0020, value),
{
    let masked = attribute_bytes(0x0020, value) + rest;
    attribute_layout(0x0020, value, rest);
    assert(first_of_kind(masked, XOR_MAPPED_ADDRESS, 0) == attribute_addr(0x0020, value));
    attribute_is_stepped_over(0x0001, plain, masked, XOR_MAPPED_ADDRESS);
}

/// Where no masked attribute follows, the first plain one counts.
pub proof fn plain_attribute_counts_else(value: Seq<u8>, rest: Seq<u8>)
    requires
        8 <= value.len() <= 0xffff,
        value[1] == 1,
        first_of_kind(rest, 0x0020, 0) is None,
    ensures
        attributes_addr(attribute_bytes(0x0001, value) + rest) == attribute_addr(0x0001, value),
        first_of_kind(Seq::<u8>::empty(), 0x0020, 0) is None,
{
    attribute_layout(0x0001, value, rest);
    attribute_is_stepped_over(0x0001, value, rest, XOR_MAPPED_ADDRESS);
}

/// A full success response tells what its attributes tell.
pub proof fn full_response_counts(cookie: Seq<u8>, txn_id: Seq<u8>, attrs: Seq<u8>, rest: Seq<u8>)
    requires
        cookie.len() == 4,
        txn_id.len() == 12,
        attrs.len() <= 0xffff,
    ensures
        response_addr(
            seq![1u8, 1u8] + wire::be16(attrs.len() as u16) + cookie + txn_id + attrs + rest,
            txn_id,
        ) == attributes_addr(attrs),
{
    let n = attrs.len() as int;
    let s = seq![1u8, 1u8] + wire::be16(attrs.len() as u16) + cookie + txn_id + attrs + rest;
    assert(s.subrange(2, s.len() as int) =~= wire::be16(attrs.len() as u16) + s.subrange(
        4,
        s.len() as int,
    ));
    wire::be16_round_trip(attrs.len() as u16, s.subrange(4, s.len() as int));
    assert(number_at(s, 2) == n);
    assert(s.subrange(0, s.len() as int)[0] == 1 && s.subrange(0, s.len() as int)[1] == 1);
    assert(number_at(s, 0) == 0x0101);
    assert(s.subrange(8, 20) =~= txn_id);
    assert(s.subrange(20, 20 + n) =~= attrs);
}

/// Attributes that end too early tell nothing.
pub proof fn cut_attribute_tells_nothing(kind: u16, value: Seq<u8>, cut: int)
    requires
        value.len() <= 0xffff,
        0 <= cut < 4 + value.len(),
    ensures
        attributes_addr(attribute_bytes(kind, value).subrange(0, cut)) is None,
{
    let whole = attribute_bytes(kind, value);
    let attrs = whole.subrange(0, cut);
    let none = Seq::<u8>::empty();
    attribute_layout(kind, value, none);
    assert(whole + none =~= whole);
    if cut >= 4 {
        assert(number_at(attrs, 2) == number_at(whole, 2));
    }
}

/// A packet that answers one of the requests is taken for the answer to the first that it
/// answers.
pub proof fn answers_count(
    pending: Seq<([u8; 12], PeerAddr)>,
    from: PeerAddr,
    s: Seq<u8>,
    at: int,
    k: int,
)
    requires
        0 <= at <= k < pending.len(),
        pending[k].1 == from,
        response_addr(s, pending[k].0@) is Some,
    ensures
        matched_addr(pending, from, s, at) == response_addr(s, pending[k].0@),
    decreases k - at,
{
    if at < k {
        if pending[at].1 == from && response_addr(s, pending[at].0@) is Some {
            assert(pending[at].0@ == s.subrange(8, 20));
            assert(pending[k].0@ == s.subrange(8, 20));
        } else {
            answers_count(pending, from, s, at + 1, k);
        }
    }
}

/// The address of a server that is asked is an IPv4 address with none before it; there is
/// none only if the server has none.
pub proof fn first_v4_is_the_first(addrs: Seq<PeerAddr>, from: int)
    requires
        0 <= from <= addrs.len(),
    ensures
        from <= first_v4(addrs, from) <= addrs.len(),
        first_v4(addrs, from) < addrs.len() ==> addrs[first_v4(addrs, from)] is V4,
        forall|i: int| from <= i < first_v4(addrs, from) ==> !(#[trigger] addrs[i] is V4),
    decreases addrs.len() - from,
{
    if from < addrs.len() && !(addrs[from] is V4) {
        first_v4_is_the_first(addrs, from + 1);
    }
}

} // verus!
