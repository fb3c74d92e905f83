//! Network addresses, held as plain numbers.
//!
//! An address is the big-endian number that its octets spell, so that two
//! addresses are equal exactly when their numbers are.

use vstd::prelude::*;

verus! {

/// An IPv4 address; `bits` is the number its four octets spell, most significant first.
#[derive(Debug, Clone, Copy, PartialEq, Eq, Structural)]
pub struct Ipv4Addr {
    pub bits: u32,
}

/// An IPv6 address; `bits` is the number its sixteen octets spell, most significant first.
#[derive(Debug, Clone, Copy, PartialEq, Eq, Structural)]
pub struct Ipv6Addr {
    pub bits: u128,
}

/// An IP address of either family.
#[derive(Debug, Clone, Copy, PartialEq, Eq, Structural)]
pub enum IpAddr {
    V4(Ipv4Addr),
    V6(Ipv6Addr),
}

/// An IPv4 address with a port.
#[derive(Debug, Clone, Copy, PartialEq, Eq, Structural)]
pub struct SocketAddrV4 {
    pub ip: Ipv4Addr,
    pub port: u16,
}

/// An IPv6 address with a port, a flow label and the index of the interface that scopes it.
#[derive(Debug, Clone, Copy, PartialEq, Eq, Structural)]
pub struct SocketAddrV6 {
    pub ip: Ipv6Addr,
    pub port: u16,
    pub flowinfo: u32,
    pub scope_id: u32,
}

/// A socket address of either family.
#[derive(Debug, Clone, Copy, PartialEq, Eq, Structural)]
pub enum SocketAddr {
    V4(SocketAddrV4),
    V6(SocketAddrV6),
}

impl Ipv4Addr {
    /// The first octet of the address.
    pub open spec fn first_octet(self) -> int {
        self.bits as int / 0x100_0000
    }

    /// `127.0.0.0/8`.
    pub open spec fn loopback(self) -> bool {
        self.first_octet() == 127
    }

    /// `224.0.0.0/4`: the first octet runs from 224 to 239.
    pub open spec fn multicast(self) -> bool {
        224 <= self.first_octet() <= 239
    }
}

impl Ipv6Addr {
    /// The first sixteen bits of the address, as they are written before its first colon.
    pub open spec fn first_segment(self) -> int {
        self.bits as int / 0x1_0000_0000_0000_0000_0000_0000_0000
    }

    /// `fe80::/10`: the first segment runs from `fe80` to `febf`.
    pub open spec fn unicast_link_local(self) -> bool {
        0xfe80 <= self.first_segment() <= 0xfebf
    }

    /// `::1`.
    pub open spec fn loopback(self) -> bool {
        self.bits == 1
    }

    /// `ff00::/8`: the first segment is at least `ff00`.
    pub open spec fn multicast(self) -> bool {
        0xff00 <= self.first_segment()
    }

    /// Whether the address is unicast and link-local.
    pub fn is_unicast_link_local(&self) -> (r: bool)
        ensures
            r == self.unicast_link_local(),
    {
        let segment: u128 = self.bits / 0x1_0000_0000_0000_0000_0000_0000_0000;
        0xfe80 <= segment && segment <= 0xfebf
    }
}

impl IpAddr {
    /// The loopback addresses of both families.
    pub open spec fn loopback(self) -> bool {
        match self {
            IpAddr::V4(ip) => ip.loopback(),
            IpAddr::V6(ip) => ip.loopback(),
        }
    }

    /// The multicast addresses of both families.
    pub open spec fn multicast(self) -> bool {
        match self {
            IpAddr::V4(ip) => ip.multicast(),
            IpAddr::V6(ip) => ip.multicast(),
        }
    }

    /// Whether the address belongs to IPv6.
    pub fn is_ipv6(&self) -> (r: bool)
        ensures
            r == (self is V6),
    {
        match self {
            IpAddr::V4(_) => false,
            IpAddr::V6(_) => true,
        }
    }

    /// Whether the address is a loopback address.
    pub fn is_loopback(&self) -> (r: bool)
        ensures
            r == self.loopback(),
    {
        match self {
            IpAddr::V4(ip) => ip.bits / 0x100_0000 == 127,
            IpAddr::V6(ip) => ip.bits == 1,
        }
    }

    /// Whether the address is a multicast address.
    pub fn is_multicast(&self) -> (r: bool)
        ensures
            r == self.multicast(),
    {
        match self {
            IpAddr::V4(ip) => {
                let octet: u32 = ip.bits / 0x100_0000;
                224 <= octet && octet <= 239
            },
            IpAddr::V6(ip) => {
                let segment: u128 = ip.bits / 0x1_0000_0000_0000_0000_0000_0000_0000;
                0xff00 <= segment
            },
        }
    }
}

/// The unicast link-local addresses are those from `fe80::` to the last one that
/// starts with `febf`, whatever their other bits are.
pub proof fn law_unicast_link_local(ip: Ipv6Addr)
    ensures
        ip.unicast_link_local() <==> 0xfe80_0000_0000_0000_0000_0000_0000_0000 <= ip.bits
            <= 0xfebf_ffff_ffff_ffff_ffff_ffff_ffff_ffff,
{
}

/// The loopback addresses are those from `127.0.0.0` to `127.255.255.255`, and `::1`.
pub proof fn law_loopback(ip: IpAddr)
    ensures
        ip.loopback() <==> match ip {
            IpAddr::V4(v4) => 0x7f00_0000 <= v4.bits <= 0x7fff_ffff,
            IpAddr::V6(v6) => v6.bits == 1,
        },
{
}

/// The multicast addresses are those from `224.0.0.0` to `239.255.255.255`, and those
/// from `ff00::` on.
pub proof fn law_multicast(ip: IpAddr)
    ensures
        ip.multicast() <==> match ip {
            IpAddr::V4(v4) => 0xe000_0000 <= v4.bits <= 0xefff_ffff,
            IpAddr::V6(v6) => v6.bits >= 0xff00_0000_0000_0000_0000_0000_0000_0000,
        },
{
}

} // verus!
