//! Network addresses.

use vstd::prelude::*;

verus! {

/// An IP address, as the number that its octets spell, most significant first.
#[derive(Debug, Clone, Copy, PartialEq, Eq, Structural)]
pub enum HostIp {
    V4(u32),
    V6(u128),
}

/// The address of a UDP or TCP endpoint.
#[derive(Debug, Clone, Copy, PartialEq, Eq, Structural)]
pub enum PeerAddr {
    V4 { ip: u32, port: u16 },
    V6 { ip6: u128, port: u16, flowinfo: u32, scope_id: u32 },
}

impl HostIp {
    /// An IPv4 address that is not of the loopback network 127.0.0.0/8.
    pub open spec fn is_outward_v4(&self) -> bool {
        match self {
            HostIp::V4(ip) => ip / 0x100_0000 != 127,
            HostIp::V6(_) => false,
        }
    }

    /// Whether this is an IPv4 address, and not of the loopback network.
    pub fn outward_v4(&self) -> (r: bool)
        ensures
            r == self.is_outward_v4(),
    {
        match self {
            HostIp::V4(ip) => *ip / 0x100_0000 != 127,
            HostIp::V6(_) => false,
        }
    }

    /// This address with a port.
    pub open spec fn at_port(&self, port: u16) -> PeerAddr {
        match self {
            HostIp::V4(ip) => PeerAddr::V4 { ip: *ip, port },
            HostIp::V6(ip) => PeerAddr::V6 { ip6: *ip, port, flowinfo: 0, scope_id: 0 },
        }
    }

    /// This address with a port.
    pub fn with_port(&self, port: u16) -> (r: PeerAddr)
        ensures
            r == self.at_port(port),
    {
        match self {
            HostIp::V4(ip) => PeerAddr::V4 { ip: *ip, port },
            HostIp::V6(ip) => PeerAddr::V6 { ip6: *ip, port, flowinfo: 0, scope_id: 0 },
        }
    }
}

impl PeerAddr {
    /// The address without its port.
    pub open spec fn host(&self) -> HostIp {
        match self {
            PeerAddr::V4 { ip, .. } => HostIp::V4(*ip),
            PeerAddr::V6 { ip6, .. } => HostIp::V6(*ip6),
        }
    }

    pub open spec fn port_number(&self) -> u16 {
        match self {
            PeerAddr::V4 { port, .. } => *port,
            PeerAddr::V6 { port, .. } => *port,
        }
    }

    /// The address without its port.
    pub fn ip(&self) -> (r: HostIp)
        ensures
            r == self.host(),
    {
        match self {
            PeerAddr::V4 { ip, .. } => HostIp::V4(*ip),
            PeerAddr::V6 { ip6, .. } => HostIp::V6(*ip6),
        }
    }

    pub fn port(&self) -> (r: u16)
        ensures
            r == self.port_number(),
    {
        match self {
            PeerAddr::V4 { port, .. } => *port,
            PeerAddr::V6 { port, .. } => *port,
        }
    }
}

/// An address with a port is that address and that port.
pub proof fn address_at_a_port(host: HostIp, port: u16)
    ensures
        host.at_port(port).host() == host,
        host.at_port(port).port_number() == port,
{
}

/// Every IPv4 address leads outward but those from 127.0.0.0 to 127.255.255.255, and no IPv6
/// address does.
pub proof fn loopback_is_not_outward(ip: u32, ip6: u128)
    ensures
        HostIp::V4(ip).is_outward_v4() <==> ip < 0x7f00_0000 || ip > 0x7fff_ffff,
        !HostIp::V6(ip6).is_outward_v4(),
{
}

/// The host of an address is its IP address, whatever the rest.
pub proof fn host_is_the_ip(ip: u32, ip6: u128, port: u16, flowinfo: u32, scope_id: u32)
    ensures
        (PeerAddr::V4 { ip, port }).host() == HostIp::V4(ip),
        (PeerAddr::V6 { ip6, port, flowinfo, scope_id }).host() == HostIp::V6(ip6),
        (PeerAddr::V6 { ip6, port, flowinfo, scope_id }).port_number() == port,
{
}

} // verus!
