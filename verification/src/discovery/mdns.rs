//! Discovery through the mDNS service.

use vstd::prelude::*;

use crate::error;
use crate::error::{Error, Result};
use crate::net::{HostIp, PeerAddr};
use crate::text;
use crate::unicode;

verus! {

/// `s` without the characters that a host name may not hold.
pub open spec fn host_chars(s: Seq<char>) -> Seq<char>
    decreases s.len(),
{
    if s.len() == 0 {
        Seq::empty()
    } else if unicode::alnum(s.last()) || s.last() == '-' {
        host_chars(s.drop_last()).push(s.last())
    } else {
        host_chars(s.drop_last())
    }
}

/// The host name under which a code is advertised: its letters, digits and hyphens in
/// lower case, below `local.`.
pub fn mdns_hostname(code: &str) -> (r: String)
    ensures
        r@ == host_chars(unicode::lower(code@)) + ".local."@,
{
    let lower = unicode::to_lowercase(code);
    let chars = text::chars_of(&lower);
    let mut r = String::new();
    let mut i: usize = 0;
    while i < chars.len()
        invariant
            i <= chars@.len(),
            r@ == host_chars(chars@.subrange(0, i as int)),
        decreases chars@.len() - i,
    {
        let c: char = chars[i];
        assert(chars@.subrange(0, i + 1).drop_last() =~= chars@.subrange(0, i as int));
        if unicode::is_alphanumeric(c) || c == '-' {
            r.push(c);
        }
        i = i + 1;
    }
    assert(chars@.subrange(0, i as int) =~= chars@);
    r.append(".local.");
    r
}

/// The instance name under which a code is advertised.
pub fn mdns_instance(code: &str) -> (r: String)
    ensures
        r@ == unicode::upper(code@),
{
    unicode::to_uppercase(code)
}

/// The position of the first outward IPv4 address from `from` on, or the end.
pub open spec fn first_outward(ips: Seq<HostIp>, from: int) -> int
    decreases ips.len() - from,
{
    if from >= ips.len() || ips[from].is_outward_v4() {
        from
    } else {
        first_outward(ips, from + 1)
    }
}

/// The address to connect to: the first outward IPv4 address, else the first of all.
pub open spec fn chosen(ips: Seq<HostIp>) -> Option<HostIp> {
    if first_outward(ips, 0) < ips.len() {
        Some(ips[first_outward(ips, 0)])
    } else if ips.len() > 0 {
        Some(ips[0])
    } else {
        None
    }
}

/// Picks the address to connect to.
fn choose_address(ips: &[HostIp]) -> (r: Option<HostIp>)
    ensures
        r == chosen(ips@),
{
    let mut i: usize = 0;
    while i < ips.len()
        invariant
            i <= ips@.len(),
            first_outward(ips@, 0) == first_outward(ips@, i as int),
        decreases ips@.len() - i,
    {
        if ips[i].outward_v4() {
            return Some(ips[i]);
        }
        i = i + 1;
    }
    if ips.len() > 0 {
        Some(ips[0])
    } else {
        None
    }
}

/// Handles a resolved service: the sender's address if the service is of the code looked
/// for, `None` if it is of another, an error if it is the right one without an address.
pub fn on_resolved(property: Option<&str>, code_upper: &str, ips: &[HostIp], port: u16) -> (r:
    Result<Option<PeerAddr>>)
    ensures
        ({
            let found = match property {
                Some(text) => unicode::upper(text@),
                None => Seq::empty(),
            };
            if found != code_upper@ {
                r is Ok && r->Ok_0 is None
            } else {
                match chosen(ips@) {
                    Some(ip) => r is Ok && r->Ok_0 == Some(ip.at_port(port)),
                    None => error::failed_with(r, "mDNS: resolved service has no addresses"@),
                }
            }
        }),
{
    let found = match property {
        Some(text) => unicode::to_uppercase(text),
        None => String::new(),
    };
    if !text::equal(&found, code_upper) {
        return Ok(None);
    }
    match choose_address(ips) {
        Some(ip) => Ok(Some(ip.with_port(port))),
        None => Err(
            Error::ConnectionFailed("mDNS: resolved service has no addresses".to_string()),
        ),
    }
}

/// An outward IPv4 address is preferred whenever there is one.
pub proof fn outward_address_preferred(ips: Seq<HostIp>, k: int)
    requires
        0 <= k < ips.len(),
        ips[k].is_outward_v4(),
    ensures
        chosen(ips) is Some,
        chosen(ips)->0.is_outward_v4(),
{
    first_outward_found(ips, 0, k);
}

proof fn first_outward_found(ips: Seq<HostIp>, from: int, k: int)
    requires
        0 <= from <= k < ips.len(),
        ips[k].is_outward_v4(),
    ensures
        from <= first_outward(ips, from) <= k,
        ips[first_outward(ips, from)].is_outward_v4(),
    decreases k - from,
{
    if !ips[from].is_outward_v4() {
        first_outward_found(ips, from + 1, k);
    }
}

/// A host name is what is left of a code without the characters that it may not hold, part
/// by part, in their order.
pub proof fn host_chars_go_by_part(a: Seq<char>, b: Seq<char>)
    ensures
        host_chars(a + b) == host_chars(a) + host_chars(b),
    decreases b.len(),
{
    if b.len() == 0 {
        assert(a + b =~= a);
        assert(host_chars(a) + host_chars(b) =~= host_chars(a));
    } else {
        host_chars_go_by_part(a, b.drop_last());
        assert((a + b).drop_last() =~= a + b.drop_last());
        assert(host_chars(a + b) =~= host_chars(a) + host_chars(b));
    }
}

/// Letters, digits and hyphens stay, and everything else is left out.
pub proof fn host_chars_stay(c: char)
    ensures
        unicode::alnum(c) || c == '-' ==> host_chars(seq![c]) == seq![c],
        !unicode::alnum(c) && c != '-' ==> host_chars(seq![c]) == Seq::<char>::empty(),
{
    assert(seq![c].drop_last() =~= Seq::<char>::empty());
    assert(host_chars(Seq::empty()) =~= Seq::<char>::empty());
    if unicode::alnum(c) || c == '-' {
        assert(host_chars(seq![c]) =~= seq![c]);
    }
}

/// A service with addresses always has one to connect to, one of its own: the first that
/// leads outward, and the first of all if none does.
pub proof fn address_is_chosen_in_order(ips: Seq<HostIp>, k: int)
    requires
        0 <= k < ips.len(),
    ensures
        chosen(Seq::<HostIp>::empty()) is None,
        chosen(ips) is Some,
        (forall|i: int| 0 <= i < k ==> !(#[trigger] ips[i]).is_outward_v4())
            && ips[k].is_outward_v4() ==> chosen(ips) == Some(ips[k]),
        (forall|i: int| 0 <= i < ips.len() ==> !(#[trigger] ips[i]).is_outward_v4()) ==> chosen(ips)
            == Some(ips[0]),
{
    outward_stops(ips, 0);
    if (forall|i: int| 0 <= i < k ==> !(#[trigger] ips[i]).is_outward_v4())
        && ips[k].is_outward_v4() {
        first_outward_found(ips, 0, k);
    }
}

proof fn outward_stops(ips: Seq<HostIp>, from: int)
    requires
        0 <= from <= ips.len(),
    ensures
        from <= first_outward(ips, from) <= ips.len(),
        first_outward(ips, from) < ips.len() ==> ips[first_outward(ips, from)].is_outward_v4(),
    decreases ips.len() - from,
{
    if from < ips.len() && !ips[from].is_outward_v4() {
        outward_stops(ips, from + 1);
    }
}

} // verus!
