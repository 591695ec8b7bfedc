//! Internet addresses.
use vstd::prelude::*;

verus! {

/// An IPv4 address.
#[derive(Debug, Clone, Copy, PartialEq, Eq, Structural, Hash, PartialOrd, Ord)]
pub struct Ipv4Addr {
    /// The address as a number, the first octet being the most significant.
    pub bits: u32,
}

impl Ipv4Addr {
    /// Creates an address from its four octets.
    pub fn new(a: u8, b: u8, c: u8, d: u8) -> (ip: Ipv4Addr)
        ensures
            ip.bits == a * 0x100_0000 + b * 0x1_0000 + c * 0x100 + d,
    {
        Ipv4Addr {
            bits: (a as u32) * 0x100_0000 + (b as u32) * 0x1_0000 + (c as u32) * 0x100 + (d as u32),
        }
    }

    /// Address of no host: `0.0.0.0`.
    pub open spec fn unspecified(self) -> bool {
        self.bits == 0
    }

    /// An address in `127.0.0.0/8`.
    pub open spec fn loopback(self) -> bool {
        self.bits / 0x100_0000 == 127
    }

    /// An address in `10.0.0.0/8`, `172.16.0.0/12` or `192.168.0.0/16`.
    pub open spec fn private(self) -> bool {
        ||| self.bits / 0x100_0000 == 10
        ||| self.bits / 0x10_0000 == 0xAC1
        ||| self.bits / 0x1_0000 == 0xC0A8
    }

    /// An address in `169.254.0.0/16`.
    pub open spec fn link_local(self) -> bool {
        self.bits / 0x1_0000 == 0xA9FE
    }

    /// The address `255.255.255.255`.
    pub open spec fn broadcast(self) -> bool {
        self.bits == 0xFFFF_FFFF
    }

    /// An address in `224.0.0.0/4`.
    pub open spec fn multicast(self) -> bool {
        self.bits / 0x1000_0000 == 14
    }

    /// Returns whether this is `0.0.0.0`.
    pub fn is_unspecified(&self) -> (r: bool)
        ensures
            r == self.unspecified(),
    {
        self.bits == 0
    }

    /// Returns whether this is a loopback address.
    pub fn is_loopback(&self) -> (r: bool)
        ensures
            r == self.loopback(),
    {
        self.bits / 0x100_0000 == 127
    }

    /// Returns whether this address is reserved for private networks.
    pub fn is_private(&self) -> (r: bool)
        ensures
            r == self.private(),
    {
        self.bits / 0x100_0000 == 10 || self.bits / 0x10_0000 == 0xAC1 || self.bits / 0x1_0000
            == 0xC0A8
    }

    /// Returns whether this is a link-local address.
    pub fn is_link_local(&self) -> (r: bool)
        ensures
            r == self.link_local(),
    {
        self.bits / 0x1_0000 == 0xA9FE
    }

    /// Returns whether this is a multicast address.
    pub fn is_multicast(&self) -> (r: bool)
        ensures
            r == self.multicast(),
    {
        self.bits / 0x1000_0000 == 14
    }

    /// Returns whether this is `255.255.255.255`.
    pub fn is_broadcast(&self) -> (r: bool)
        ensures
            r == self.broadcast(),
    {
        self.bits == 0xFFFF_FFFF
    }
}

/// An IPv6 address.
#[derive(Debug, Clone, Copy, PartialEq, Eq, Structural, Hash, PartialOrd, Ord)]
pub struct Ipv6Addr {
    /// The address as a number, the first segment being the most significant.
    pub bits: u128,
}

impl Ipv6Addr {
    /// Creates an address from its eight 16-bit segments.
    pub fn new(a: u16, b: u16, c: u16, d: u16, e: u16, f: u16, g: u16, h: u16) -> (ip: Ipv6Addr)
        ensures
            ip.bits == a * 0x1_0000_0000_0000_0000_0000_0000_0000 + b
                * 0x1_0000_0000_0000_0000_0000_0000 + c * 0x1_0000_0000_0000_0000_0000 + d
                * 0x1_0000_0000_0000_0000 + e * 0x1_0000_0000_0000 + f * 0x1_0000_0000 + g
                * 0x1_0000 + h,
    {
        Ipv6Addr {
            bits: (a as u128) * 0x1_0000_0000_0000_0000_0000_0000_0000 + (b as u128)
                * 0x1_0000_0000_0000_0000_0000_0000 + (c as u128) * 0x1_0000_0000_0000_0000_0000 + (
            d as u128) * 0x1_0000_0000_0000_0000 + (e as u128) * 0x1_0000_0000_0000 + (f as u128)
                * 0x1_0000_0000 + (g as u128) * 0x1_0000 + (h as u128),
        }
    }

    /// Address of no host: `::`.
    pub open spec fn unspecified(self) -> bool {
        self.bits == 0
    }

    /// The loopback address `::1`.
    pub open spec fn loopback(self) -> bool {
        self.bits == 1
    }

    /// The most significant of the eight segments.
    pub open spec fn first_segment(self) -> nat {
        self.bits as nat / 0x1_0000_0000_0000_0000_0000_0000_0000
    }

    /// An address in `fe80::/10`.
    pub open spec fn unicast_link_local(self) -> bool {
        self.first_segment() / 0x40 == 0x3FA
    }

    /// An address in `fc00::/7`.
    pub open spec fn unique_local(self) -> bool {
        self.first_segment() / 0x200 == 0x7E
    }

    /// An address in `ff00::/8`.
    pub open spec fn multicast(self) -> bool {
        self.first_segment() / 0x100 == 0xFF
    }

    /// The IPv4 address that an address in `::ffff:0:0/96` stands for.
    pub open spec fn ipv4_mapped(self) -> Option<Ipv4Addr> {
        if self.bits / 0x1_0000_0000 == 0xFFFF {
            Some(Ipv4Addr { bits: (self.bits % 0x1_0000_0000) as u32 })
        } else {
            None
        }
    }

    /// Returns the most significant of the eight segments.
    pub fn leading_segment(&self) -> (r: u16)
        ensures
            r == self.first_segment(),
    {
        (self.bits / 0x1_0000_0000_0000_0000_0000_0000_0000) as u16
    }

    /// Returns whether this is `::`.
    pub fn is_unspecified(&self) -> (r: bool)
        ensures
            r == self.unspecified(),
    {
        self.bits == 0
    }

    /// Returns whether this is `::1`.
    pub fn is_loopback(&self) -> (r: bool)
        ensures
            r == self.loopback(),
    {
        self.bits == 1
    }

    /// Returns whether this is a unicast link-local address.
    pub fn is_unicast_link_local(&self) -> (r: bool)
        ensures
            r == self.unicast_link_local(),
    {
        self.leading_segment() / 0x40 == 0x3FA
    }

    /// Returns whether this is a unique local address.
    pub fn is_unique_local(&self) -> (r: bool)
        ensures
            r == self.unique_local(),
    {
        self.leading_segment() / 0x200 == 0x7E
    }

    /// Returns whether this is a multicast address.
    pub fn is_multicast(&self) -> (r: bool)
        ensures
            r == self.multicast(),
    {
        self.leading_segment() / 0x100 == 0xFF
    }

    /// Returns the IPv4 address that this address stands for, if any.
    pub fn to_ipv4_mapped(&self) -> (r: Option<Ipv4Addr>)
        ensures
            r == self.ipv4_mapped(),
    {
        if self.bits / 0x1_0000_0000 == 0xFFFF {
            Some(Ipv4Addr { bits: (self.bits % 0x1_0000_0000) as u32 })
        } else {
            None
        }
    }
}

/// An IP address.
#[derive(Debug, Clone, Copy, PartialEq, Eq, Structural, Hash, PartialOrd, Ord)]
pub enum IpAddr {
    /// An IPv4 address.
    V4(Ipv4Addr),
    /// An IPv6 address.
    V6(Ipv6Addr),
}

impl IpAddr {
    /// Address of no host.
    pub open spec fn unspecified(self) -> bool {
        match self {
            IpAddr::V4(ip) => ip.unspecified(),
            IpAddr::V6(ip) => ip.unspecified(),
        }
    }

    /// Address of the host itself.
    pub open spec fn loopback(self) -> bool {
        match self {
            IpAddr::V4(ip) => ip.loopback(),
            IpAddr::V6(ip) => ip.loopback(),
        }
    }

    /// Address of a group of hosts.
    pub open spec fn multicast(self) -> bool {
        match self {
            IpAddr::V4(ip) => ip.multicast(),
            IpAddr::V6(ip) => ip.multicast(),
        }
    }

    /// Returns whether this is the address of no host.
    pub fn is_unspecified(&self) -> (r: bool)
        ensures
            r == self.unspecified(),
    {
        match self {
            IpAddr::V4(ip) => ip.is_unspecified(),
            IpAddr::V6(ip) => ip.is_unspecified(),
        }
    }

    /// Returns whether this is a loopback address.
    pub fn is_loopback(&self) -> (r: bool)
        ensures
            r == self.loopback(),
    {
        match self {
            IpAddr::V4(ip) => ip.is_loopback(),
            IpAddr::V6(ip) => ip.is_loopback(),
        }
    }

    /// Returns whether this is a multicast address.
    pub fn is_multicast(&self) -> (r: bool)
        ensures
            r == self.multicast(),
    {
        match self {
            IpAddr::V4(ip) => ip.is_multicast(),
            IpAddr::V6(ip) => ip.is_multicast(),
        }
    }

    /// Returns whether this is an IPv4 address.
    pub fn is_ipv4(&self) -> (r: bool)
        ensures
            r == (*self is V4),
    {
        matches!(self, IpAddr::V4(_))
    }

    /// Returns whether this is an IPv6 address.
    pub fn is_ipv6(&self) -> (r: bool)
        ensures
            r == (*self is V6),
    {
        matches!(self, IpAddr::V6(_))
    }
}

/// An IPv4 address with a port.
#[derive(Debug, Clone, Copy, PartialEq, Eq, Structural, Hash, PartialOrd, Ord)]
pub struct SocketAddrV4 {
    /// The address.
    pub ip: Ipv4Addr,
    /// The port.
    pub port: u16,
}

/// An IPv6 address with a port.
#[derive(Debug, Clone, Copy, PartialEq, Eq, Structural, Hash, PartialOrd, Ord)]
pub struct SocketAddrV6 {
    /// The address.
    pub ip: Ipv6Addr,
    /// The port.
    pub port: u16,
    /// Flow information.
    pub flowinfo: u32,
    /// Scope identifier.
    pub scope_id: u32,
}

/// An IP address with a port.
#[derive(Debug, Clone, Copy, PartialEq, Eq, Structural, Hash, PartialOrd, Ord)]
pub enum SocketAddr {
    /// An IPv4 address with a port.
    V4(SocketAddrV4),
    /// An IPv6 address with a port.
    V6(SocketAddrV6),
}

impl SocketAddr {
    /// The socket address made of `ip` and `port` alone.
    pub open spec fn of(ip: IpAddr, port: u16) -> SocketAddr {
        match ip {
            IpAddr::V4(ip) => SocketAddr::V4(SocketAddrV4 { ip, port }),
            IpAddr::V6(ip) => SocketAddr::V6(SocketAddrV6 { ip, port, flowinfo: 0, scope_id: 0 }),
        }
    }

    /// The address without the port.
    pub open spec fn host(self) -> IpAddr {
        match self {
            SocketAddr::V4(a) => IpAddr::V4(a.ip),
            SocketAddr::V6(a) => IpAddr::V6(a.ip),
        }
    }

    /// The port number.
    pub open spec fn port_number(self) -> u16 {
        match self {
            SocketAddr::V4(a) => a.port,
            SocketAddr::V6(a) => a.port,
        }
    }

    /// Creates a socket address from an address and a port.
    pub fn new(ip: IpAddr, port: u16) -> (addr: SocketAddr)
        ensures
            addr == SocketAddr::of(ip, port),
    {
        match ip {
            IpAddr::V4(ip) => SocketAddr::V4(SocketAddrV4 { ip, port }),
            IpAddr::V6(ip) => SocketAddr::V6(SocketAddrV6 { ip, port, flowinfo: 0, scope_id: 0 }),
        }
    }

    /// Returns the address without the port.
    pub fn ip(&self) -> (ip: IpAddr)
        ensures
            ip == self.host(),
    {
        match self {
            SocketAddr::V4(a) => IpAddr::V4(a.ip),
            SocketAddr::V6(a) => IpAddr::V6(a.ip),
        }
    }

    /// Returns the port.
    pub fn port(&self) -> (port: u16)
        ensures
            port == self.port_number(),
    {
        match self {
            SocketAddr::V4(a) => a.port,
            SocketAddr::V6(a) => a.port,
        }
    }

    /// Returns whether this is an IPv4 socket address.
    pub fn is_ipv4(&self) -> (r: bool)
        ensures
            r == (*self is V4),
    {
        matches!(self, SocketAddr::V4(_))
    }
}

} // verus!
