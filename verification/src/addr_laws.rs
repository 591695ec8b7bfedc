//! What callers can rely on of internet addresses, octet by octet.
use crate::addr::{IpAddr, Ipv4Addr, Ipv6Addr, SocketAddr};
use vstd::prelude::*;

verus! {

/// The classes of an IPv4 address follow from its octets.
pub proof fn ipv4_classes(
    a: u8,
    b: u8,
    c: u8,
    d: u8,
    ip: Ipv4Addr,
    unspecified: bool,
    loopback: bool,
    private: bool,
    link_local: bool,
    multicast: bool,
    broadcast: bool,
)
    requires
        call_ensures(Ipv4Addr::new, (a, b, c, d), ip),
        call_ensures(Ipv4Addr::is_unspecified, (&ip,), unspecified),
        call_ensures(Ipv4Addr::is_loopback, (&ip,), loopback),
        call_ensures(Ipv4Addr::is_private, (&ip,), private),
        call_ensures(Ipv4Addr::is_link_local, (&ip,), link_local),
        call_ensures(Ipv4Addr::is_multicast, (&ip,), multicast),
        call_ensures(Ipv4Addr::is_broadcast, (&ip,), broadcast),
    ensures
        unspecified <==> a == 0 && b == 0 && c == 0 && d == 0,
        loopback <==> a == 127,
        private <==> a == 10 || a == 172 && 16 <= b <= 31 || a == 192 && b == 168,
        link_local <==> a == 169 && b == 254,
        multicast <==> 224 <= a <= 239,
        broadcast <==> a == 255 && b == 255 && c == 255 && d == 255,
{
    let bits = ip.bits;
    assert(bits / 0x100_0000 == a);
    assert(bits / 0x1_0000 == a * 0x100 + b);
    assert(bits / 0x10_0000 == a * 0x10 + b / 0x10);
    assert(bits / 0x1000_0000 == a / 0x10);
}

/// The classes of an IPv6 address follow from its segments, and the addresses that stand for
/// IPv4 addresses give these.
pub proof fn ipv6_classes(
    a: u16,
    b: u16,
    c: u16,
    d: u16,
    e: u16,
    f: u16,
    g: u16,
    h: u16,
    ip: Ipv6Addr,
    unspecified: bool,
    loopback: bool,
    link_local: bool,
    unique_local: bool,
    multicast: bool,
    mapped: Option<Ipv4Addr>,
)
    requires
        call_ensures(Ipv6Addr::new, (a, b, c, d, e, f, g, h), ip),
        call_ensures(Ipv6Addr::is_unspecified, (&ip,), unspecified),
        call_ensures(Ipv6Addr::is_loopback, (&ip,), loopback),
        call_ensures(Ipv6Addr::is_unicast_link_local, (&ip,), link_local),
        call_ensures(Ipv6Addr::is_unique_local, (&ip,), unique_local),
        call_ensures(Ipv6Addr::is_multicast, (&ip,), multicast),
        call_ensures(Ipv6Addr::to_ipv4_mapped, (&ip,), mapped),
    ensures
        ({
            let middle = b == 0 && c == 0 && d == 0 && e == 0 && f == 0 && g == 0;
            &&& unspecified <==> a == 0 && middle && h == 0
            &&& loopback <==> a == 0 && middle && h == 1
        }),
        link_local <==> 0xFE80 <= a <= 0xFEBF,
        unique_local <==> 0xFC00 <= a <= 0xFDFF,
        multicast <==> 0xFF00 <= a,
        mapped == (if a == 0 && b == 0 && c == 0 && d == 0 && e == 0 && f == 0xFFFF {
            Some(Ipv4Addr { bits: (g * 0x1_0000 + h) as u32 })
        } else {
            None
        }),
{
    let bits = ip.bits as nat;
    assert(bits / 0x1_0000_0000_0000_0000_0000_0000_0000 == a);
    assert(bits / 0x1_0000_0000 == a * 0x1_0000_0000_0000_0000_0000 + b * 0x1_0000_0000_0000_0000
        + c * 0x1_0000_0000_0000 + d * 0x1_0000_0000 + e * 0x1_0000 + f);
    assert(bits % 0x1_0000_0000 == g * 0x1_0000 + h);
}

/// An address and a port, put together, are given back.
pub proof fn socket_address_parts(
    ip: IpAddr,
    port: u16,
    addr: SocketAddr,
    got_ip: IpAddr,
    got_port: u16,
    v4: bool,
    ip_v4: bool,
    ip_v6: bool,
)
    requires
        call_ensures(SocketAddr::new, (ip, port), addr),
        call_ensures(SocketAddr::ip, (&addr,), got_ip),
        call_ensures(SocketAddr::port, (&addr,), got_port),
        call_ensures(SocketAddr::is_ipv4, (&addr,), v4),
        call_ensures(IpAddr::is_ipv4, (&ip,), ip_v4),
        call_ensures(IpAddr::is_ipv6, (&ip,), ip_v6),
    ensures
        got_ip == ip,
        got_port == port,
        v4 == ip is V4,
        ip_v4 == ip is V4,
        ip_v6 == ip is V6,
{
}

/// An address of either version belongs to the classes to which it belongs in its own
/// version.
pub proof fn classes_of_either_version(
    ip: IpAddr,
    unspecified: bool,
    loopback: bool,
    multicast: bool,
    own_unspecified: bool,
    own_loopback: bool,
    own_multicast: bool,
)
    requires
        call_ensures(IpAddr::is_unspecified, (&ip,), unspecified),
        call_ensures(IpAddr::is_loopback, (&ip,), loopback),
        call_ensures(IpAddr::is_multicast, (&ip,), multicast),
        match ip {
            IpAddr::V4(v4) => {
                &&& call_ensures(Ipv4Addr::is_unspecified, (&v4,), own_unspecified)
                &&& call_ensures(Ipv4Addr::is_loopback, (&v4,), own_loopback)
                &&& call_ensures(Ipv4Addr::is_multicast, (&v4,), own_multicast)
            },
            IpAddr::V6(v6) => {
                &&& call_ensures(Ipv6Addr::is_unspecified, (&v6,), own_unspecified)
                &&& call_ensures(Ipv6Addr::is_loopback, (&v6,), own_loopback)
                &&& call_ensures(Ipv6Addr::is_multicast, (&v6,), own_multicast)
            },
        },
    ensures
        unspecified == own_unspecified,
        loopback == own_loopback,
        multicast == own_multicast,
{
}

/// The octets of an IPv4 address and the segments of an IPv6 address are its digits, the
/// first one counting most.
pub proof fn addresses_are_numbers(
    a: u8,
    b: u8,
    c: u8,
    d: u8,
    v4: Ipv4Addr,
    s: u16,
    t: u16,
    u: u16,
    v: u16,
    w: u16,
    x: u16,
    y: u16,
    z: u16,
    v6: Ipv6Addr,
    leading: u16,
)
    requires
        call_ensures(Ipv4Addr::new, (a, b, c, d), v4),
        call_ensures(Ipv6Addr::new, (s, t, u, v, w, x, y, z), v6),
        call_ensures(Ipv6Addr::leading_segment, (&v6,), leading),
    ensures
        v4.bits == ((a * 256 + b) * 256 + c) * 256 + d,
        v6.bits == ((((((s * 0x1_0000 + t) * 0x1_0000 + u) * 0x1_0000 + v) * 0x1_0000 + w)
            * 0x1_0000 + x) * 0x1_0000 + y) * 0x1_0000 + z,
        leading == s,
{
    assert(v6.bits as nat / 0x1_0000_0000_0000_0000_0000_0000_0000 == s);
}

/// A socket address made of an address and a port says nothing else.
pub proof fn nothing_is_added(ip: IpAddr, port: u16, addr: SocketAddr)
    requires
        call_ensures(SocketAddr::new, (ip, port), addr),
    ensures
        addr matches SocketAddr::V6(a) ==> a.flowinfo == 0 && a.scope_id == 0,
{
}

} // verus!
