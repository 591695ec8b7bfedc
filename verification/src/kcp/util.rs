//! Choice of local addresses and links.
use crate::addr::{IpAddr, Ipv4Addr, Ipv6Addr, SocketAddr};
use crate::kcp::filter::KcpLinkFilter;
use crate::text;
use crate::vec_map;
use crate::vec_map::VecMap;
use vstd::prelude::*;
use vstd::utf8;

verus! {

/// IP version preference.
#[derive(Debug, Clone, Copy, PartialEq, Eq, Structural)]
pub enum IpVersion {
    /// IP version 4.
    IPv4,
    /// IP version 6.
    IPv6,
    /// Both IP versions.
    Both,
}

/// Settings that cannot be used.
#[derive(Debug, Clone, Copy, PartialEq, Eq, Structural)]
pub enum InvalidInput {
    /// Only one of the IP version options can be given.
    MutuallyExclusive,
    /// There is nothing to listen on.
    NoListener,
}

impl InvalidInput {
    /// Returns the text shown for this error.
    pub fn message(&self) -> (text: &'static str)
        ensures
            text@ == (match *self {
                InvalidInput::MutuallyExclusive => "IPv4 and IPv6 options are mutually exclusive"@,
                InvalidInput::NoListener => "at least one listener is required"@,
            }),
    {
        match self {
            InvalidInput::MutuallyExclusive => "IPv4 and IPv6 options are mutually exclusive",
            InvalidInput::NoListener => "at least one listener is required",
        }
    }
}

impl Default for IpVersion {
    fn default() -> (v: Self)
        ensures
            v == IpVersion::Both,
    {
        IpVersion::Both
    }
}

impl IpVersion {
    /// Creates a preference from "only" arguments.
    pub fn from_only(only_ipv4: bool, only_ipv6: bool) -> (r: Result<IpVersion, InvalidInput>)
        ensures
            r == (if only_ipv4 && only_ipv6 {
                Err(InvalidInput::MutuallyExclusive)
            } else if only_ipv4 {
                Ok(IpVersion::IPv4)
            } else if only_ipv6 {
                Ok(IpVersion::IPv6)
            } else {
                Ok(IpVersion::Both)
            }),
    {
        match (only_ipv4, only_ipv6) {
            (false, false) => Ok(IpVersion::Both),
            (true, false) => Ok(IpVersion::IPv4),
            (false, true) => Ok(IpVersion::IPv6),
            (true, true) => Err(InvalidInput::MutuallyExclusive),
        }
    }

    /// Returns whether this only supports IPv4.
    pub fn is_only_ipv4(&self) -> (r: bool)
        ensures
            r == (*self == IpVersion::IPv4),
    {
        matches!(self, IpVersion::IPv4)
    }

    /// Returns whether this only supports IPv6.
    pub fn is_only_ipv6(&self) -> (r: bool)
        ensures
            r == (*self == IpVersion::IPv6),
    {
        matches!(self, IpVersion::IPv6)
    }
}

/// A network interface of this machine.
#[derive(Debug, Clone, PartialEq, Eq)]
pub struct NetworkInterface {
    /// Its name.
    pub name: String,
    /// Its addresses.
    pub addr: Vec<IpAddr>,
}

/// An interface that may be of use: its name does not begin with `ifb`.
pub open spec fn useful(interface: NetworkInterface) -> bool {
    !text::has_prefix(interface.name@, "ifb"@)
}

/// Drops the interfaces that are most likely useless.
pub fn local_interfaces(all: Vec<NetworkInterface>) -> (interfaces: Vec<NetworkInterface>)
    ensures
        interfaces@ == all@.filter(|i: NetworkInterface| useful(i)),
{
    let mut all = all;
    let ghost whole = all@;
    let ghost keep = |i: NetworkInterface| useful(i);
    let mut interfaces: Vec<NetworkInterface> = Vec::new();
    assert(Seq::<NetworkInterface>::empty() + whole.filter(keep) =~= whole.filter(keep));
    while all.len() > 0
        invariant
            keep == (|i: NetworkInterface| useful(i)),
            interfaces@ + all@.filter(keep) == whole.filter(keep),
        decreases all@.len(),
    {
        let ghost before = all@;
        let ghost kept = interfaces@;
        let first = all.remove(0);
        proof {
            let rest = all@;
            assert(before =~= seq![first] + rest);
            Seq::filter_distributes_over_add(seq![first], rest, keep);
            reveal_with_fuel(Seq::filter, 2);
            assert(seq![first].drop_last() =~= Seq::<NetworkInterface>::empty());
            if useful(first) {
                assert(seq![first].filter(keep) =~= seq![first]);
                assert(kept.push(first) + rest.filter(keep) =~= kept + (seq![first] + rest.filter(
                    keep,
                )));
            } else {
                assert(seq![first].filter(keep) =~= Seq::<NetworkInterface>::empty());
                assert(Seq::<NetworkInterface>::empty() + rest.filter(keep) =~= rest.filter(keep));
            }
        }
        if !text::starts_with(first.name.as_str(), "ifb") {
            interfaces.push(first);
        }
    }
    proof {
        reveal(Seq::filter);
        assert(all@.filter(keep) =~= Seq::<NetworkInterface>::empty());
        assert(interfaces@ + Seq::<NetworkInterface>::empty() =~= interfaces@);
    }
    interfaces
}

/// The socket address with a mapped IPv4 address replaced by the IPv4 address
/// itself.
pub open spec fn proper_ipv4(sa: SocketAddr) -> SocketAddr {
    match sa {
        SocketAddr::V6(a) => match a.ip.ipv4_mapped() {
            Some(ip) => SocketAddr::of(IpAddr::V4(ip), a.port),
            None => sa,
        },
        SocketAddr::V4(_) => sa,
    }
}

/// Turns an IPv4 address mapped to IPv6 into a proper IPv4 address.
pub fn use_proper_ipv4(sa: &mut SocketAddr)
    ensures
        *final(sa) == proper_ipv4(*old(sa)),
{
    if let IpAddr::V6(ip) = sa.ip() {
        if let Some(ip) = ip.to_ipv4_mapped() {
            *sa = SocketAddr::new(IpAddr::V4(ip), sa.port());
        }
    }
}

/// Doing it twice changes nothing more.
pub proof fn proper_ipv4_idempotent(sa: SocketAddr)
    ensures
        proper_ipv4(proper_ipv4(sa)) == proper_ipv4(sa),
{
}

/// Returns the name of the first interface that has the given address.
pub fn local_interface_for_ip(interfaces: &[NetworkInterface], ip: IpAddr) -> (name: Option<
    Vec<u8>,
>)
    ensures
        match name {
            Some(name) => exists|i: int|
                0 <= i < interfaces@.len() && (#[trigger] interfaces@[i]).addr@.contains(ip)
                    && name@ == utf8::encode_utf8(interfaces@[i].name@) && forall|j: int|
                    0 <= j < i ==> !(#[trigger] interfaces@[j]).addr@.contains(ip),
            None => forall|j: int|
                0 <= j < interfaces@.len() ==> !(#[trigger] interfaces@[j]).addr@.contains(ip),
        },
{
    let mut i: usize = 0;
    while i < interfaces.len()
        invariant
            i <= interfaces@.len(),
            forall|j: int| 0 <= j < i ==> !(#[trigger] interfaces@[j]).addr@.contains(ip),
        decreases interfaces@.len() - i,
    {
        if has_ip(&interfaces[i].addr, ip) {
            let name = vstd::slice::slice_to_vec(interfaces[i].name.as_str().as_bytes());
            assert(interfaces@[i as int].addr@.contains(ip));
            return Some(name);
        }
        i = i + 1;
    }
    None
}

fn has_ip(addrs: &Vec<IpAddr>, ip: IpAddr) -> (r: bool)
    ensures
        r == addrs@.contains(ip),
{
    let mut i: usize = 0;
    while i < addrs.len()
        invariant
            i <= addrs@.len(),
            forall|j: int| 0 <= j < i ==> addrs@[j] != ip,
        decreases addrs@.len() - i,
    {
        if addrs[i] == ip {
            assert(addrs@[i as int] == ip);
            return true;
        }
        i = i + 1;
    }
    false
}

/// An address that is link-local: `fe80::/16` or `169.254.0.0/16`.
pub open spec fn link_local(ip: IpAddr) -> bool {
    match ip {
        IpAddr::V6(v6) => v6.first_segment() == 0xfe80,
        IpAddr::V4(v4) => v4.link_local(),
    }
}

/// Returns whether an IP address is link-local.
pub fn is_link_local(ip: IpAddr) -> (r: bool)
    ensures
        r == link_local(ip),
{
    match ip {
        IpAddr::V6(v6) => v6.leading_segment() == 0xfe80,
        IpAddr::V4(v4) => v4.is_link_local(),
    }
}

/// Both addresses have the same IP version.
pub open spec fn compatible(local: IpAddr, remote: IpAddr) -> bool {
    (local is V4) == (remote is V4)
}

/// Returns whether a connection between two addresses is possible.
pub fn is_compatible_ip_version(local: IpAddr, remote: IpAddr) -> (r: bool)
    ensures
        r == compatible(local, remote),
{
    match (local, remote) {
        (IpAddr::V4(_), IpAddr::V4(_)) => true,
        (IpAddr::V6(_), IpAddr::V6(_)) => true,
        _ => false,
    }
}

/// The unspecified address of the same IP version, with port zero.
pub open spec fn unspecified_like(ip: IpAddr) -> SocketAddr {
    match ip {
        IpAddr::V4(_) => SocketAddr::of(IpAddr::V4(Ipv4Addr { bits: 0 }), 0),
        IpAddr::V6(_) => SocketAddr::of(IpAddr::V6(Ipv6Addr { bits: 0 }), 0),
    }
}

/// Returns the unspecified address of the same IP version, with port zero.
pub fn unspecified_for(ip: IpAddr) -> (addr: SocketAddr)
    ensures
        addr == unspecified_like(ip),
{
    match ip {
        IpAddr::V4(_) => SocketAddr::new(IpAddr::V4(Ipv4Addr { bits: 0 }), 0),
        IpAddr::V6(_) => SocketAddr::new(IpAddr::V6(Ipv6Addr { bits: 0 }), 0),
    }
}

/// `s` with `a` at the end, unless it is there already.
pub open spec fn joined<A>(s: Seq<A>, a: A) -> Seq<A> {
    if s.contains(a) {
        s
    } else {
        s.push(a)
    }
}

/// Adds an address unless it is there already.
pub(crate) fn join_addr(addrs: &mut Vec<SocketAddr>, addr: SocketAddr)
    ensures
        final(addrs)@ == joined(old(addrs)@, addr),
{
    let mut i: usize = 0;
    while i < addrs.len()
        invariant
            i <= addrs@.len(),
            addrs@ == old(addrs)@,
            forall|j: int| 0 <= j < i ==> addrs@[j] != addr,
        decreases addrs@.len() - i,
    {
        if addrs[i] == addr {
            assert(addrs@[i as int] == addr);
            return;
        }
        i = i + 1;
    }
    assert(!addrs@.contains(addr));
    addrs.push(addr);
}

/// An address from which the target can be reached: of the same IP version,
/// loopback exactly if the target is, and specified.
pub open spec fn reaches(ip: IpAddr, target: IpAddr) -> bool {
    compatible(ip, target) && ip.loopback() == target.loopback() && !ip.unspecified()
}

/// The addresses among `ips` from which the target can be reached, each once,
/// with port zero, in the order of their first occurrence.
pub open spec fn reaching(ips: Seq<IpAddr>, target: IpAddr) -> Seq<SocketAddr>
    decreases ips.len(),
{
    if ips.len() == 0 {
        Seq::empty()
    } else {
        let front = reaching(ips.drop_last(), target);
        if reaches(ips.last(), target) {
            joined(front, SocketAddr::of(ips.last(), 0))
        } else {
            front
        }
    }
}

/// All addresses of all interfaces.
pub open spec fn all_ips(interfaces: Seq<NetworkInterface>) -> Seq<IpAddr>
    decreases interfaces.len(),
{
    if interfaces.len() == 0 {
        Seq::empty()
    } else {
        all_ips(interfaces.drop_last()) + interfaces.last().addr@
    }
}

/// Returns all addresses of all interfaces.
pub fn interface_ips(interfaces: &[NetworkInterface]) -> (ips: Vec<IpAddr>)
    ensures
        ips@ == all_ips(interfaces@),
{
    let mut ips: Vec<IpAddr> = Vec::new();
    let mut i: usize = 0;
    assert(interfaces@.take(0) =~= Seq::empty());
    while i < interfaces.len()
        invariant
            i <= interfaces@.len(),
            ips@ == all_ips(interfaces@.take(i as int)),
        decreases interfaces@.len() - i,
    {
        assert(interfaces@.take(i + 1).drop_last() =~= interfaces@.take(i as int));
        ips.extend_from_slice(interfaces[i].addr.as_slice());
        assert(ips@ =~= all_ips(interfaces@.take(i as int)) + interfaces@[i as int].addr@);
        i = i + 1;
    }
    assert(interfaces@.take(i as int) =~= interfaces@);
    ips
}

/// Returns all local addresses from which the target can be reached; the
/// unspecified address if there are none.
pub fn local_addresses_for_target(interfaces: &[NetworkInterface], target: SocketAddr) -> (addrs:
    Vec<SocketAddr>)
    ensures
        addrs@ == (if reaching(all_ips(interfaces@), target.host()).len() == 0 {
            seq![unspecified_like(target.host())]
        } else {
            reaching(all_ips(interfaces@), target.host())
        }),
{
    let ips = interface_ips(interfaces);
    let host = target.ip();
    let mut addrs: Vec<SocketAddr> = Vec::new();
    let mut i: usize = 0;
    assert(ips@.take(0) =~= Seq::empty());
    while i < ips.len()
        invariant
            i <= ips@.len(),
            host == target.host(),
            addrs@ == reaching(ips@.take(i as int), host),
        decreases ips@.len() - i,
    {
        let ip = ips[i];
        assert(ips@.take(i + 1).drop_last() =~= ips@.take(i as int));
        if is_compatible_ip_version(ip, host) && ip.is_loopback() == host.is_loopback()
            && !ip.is_unspecified() {
            join_addr(&mut addrs, SocketAddr::new(ip, 0));
        }
        i = i + 1;
    }
    assert(ips@.take(i as int) =~= ips@);
    if addrs.len() == 0 {
        addrs.push(unspecified_for(host));
    }
    addrs
}

} // verus!
