//! Planning of links between local and remote addresses.
use crate::addr::{IpAddr, SocketAddr};
use crate::kcp::filter::KcpLinkFilter;
use crate::kcp::util;
use crate::kcp::util::NetworkInterface;
use crate::vec_map;
use crate::vec_map::VecMap;
use vstd::prelude::*;

verus! {

/// An address of an interface that links can use: neither link-local nor
/// unspecified.
pub open spec fn usable_ip(ip: IpAddr) -> bool {
    !util::link_local(ip) && !ip.unspecified()
}

/// A usable address that fits what is wanted: an address of the same IP version as
/// a given one, or any.
pub open spec fn eligible(ip: IpAddr, wanted: Option<IpAddr>) -> bool {
    usable_ip(ip) && match wanted {
        Some(remote) => util::compatible(ip, remote),
        None => true,
    }
}

/// How much an address is preferred: IPv6 over IPv4, then other addresses over
/// loopback addresses.
pub open spec fn preference(ip: IpAddr) -> nat {
    (if ip is V6 {
        4nat
    } else {
        2nat
    }) + (if ip.loopback() {
        0nat
    } else {
        1nat
    })
}

/// The usable addresses that fit what is wanted, in their order.
pub open spec fn usable(ips: Seq<IpAddr>, wanted: Option<IpAddr>) -> Seq<IpAddr>
    decreases ips.len(),
{
    if ips.len() == 0 {
        Seq::empty()
    } else if eligible(ips.last(), wanted) {
        usable(ips.drop_last(), wanted).push(ips.last())
    } else {
        usable(ips.drop_last(), wanted)
    }
}

/// The last of the most preferred addresses.
pub open spec fn preferred(ips: Seq<IpAddr>) -> IpAddr
    decreases ips.len(),
{
    if ips.len() <= 1 {
        ips[0]
    } else {
        let best = preferred(ips.drop_last());
        if preference(ips.last()) >= preference(best) {
            ips.last()
        } else {
            best
        }
    }
}

/// The address that stands for an interface with usable addresses `ips`.
pub open spec fn representative(filter: KcpLinkFilter, ips: Seq<IpAddr>) -> SocketAddr {
    SocketAddr::of(
        match filter {
            KcpLinkFilter::NoFilter => ips[0],
            _ => preferred(ips),
        },
        0,
    )
}

/// The address chosen for each interface name. An interface without usable
/// addresses that fit does not count; of interfaces with the same name the last
/// counts.
pub open spec fn chosen(
    filter: KcpLinkFilter,
    interfaces: Seq<NetworkInterface>,
    wanted: Option<IpAddr>,
) -> Seq<(Seq<char>, SocketAddr)>
    decreases interfaces.len(),
{
    if interfaces.len() == 0 {
        Seq::empty()
    } else {
        let front = chosen(filter, interfaces.drop_last(), wanted);
        let ips = usable(interfaces.last().addr@, wanted);
        if ips.len() == 0 {
            front
        } else {
            vec_map::with(front, interfaces.last().name@, representative(filter, ips))
        }
    }
}

/// The values of a map, each once.
pub open spec fn distinct_values(s: Seq<(Seq<char>, SocketAddr)>) -> Seq<SocketAddr>
    decreases s.len(),
{
    if s.len() == 0 {
        Seq::empty()
    } else {
        util::joined(distinct_values(s.drop_last()), s.last().1)
    }
}

/// One address for each interface that has any that fit, each address once.
pub open spec fn one_each(
    filter: KcpLinkFilter,
    interfaces: Seq<NetworkInterface>,
    wanted: Option<IpAddr>,
) -> Seq<SocketAddr> {
    distinct_values(chosen(filter, interfaces, wanted))
}

/// One local address for each interface, or the two unspecified addresses if there
/// are none.
pub open spec fn filtered_locals(
    filter: KcpLinkFilter,
    interfaces: Seq<NetworkInterface>,
) -> Seq<SocketAddr> {
    let addrs = one_each(filter, interfaces, None);
    if addrs.len() == 0 {
        seq![
            util::unspecified_like(IpAddr::V4(crate::addr::Ipv4Addr { bits: 0 })),
            util::unspecified_like(IpAddr::V6(crate::addr::Ipv6Addr { bits: 0 })),
        ]
    } else {
        addrs
    }
}

/// The local addresses from which links to a remote address start: for each
/// interface one of the same IP version, or the unspecified address if no
/// interface has a usable address at all.
pub open spec fn locals_for(
    filter: KcpLinkFilter,
    interfaces: Seq<NetworkInterface>,
    remote: IpAddr,
) -> Seq<SocketAddr> {
    if one_each(filter, interfaces, None).len() == 0 {
        seq![util::unspecified_like(remote)]
    } else {
        one_each(filter, interfaces, Some(remote))
    }
}

fn is_eligible(ip: IpAddr, wanted: Option<IpAddr>) -> (r: bool)
    ensures
        r == eligible(ip, wanted),
{
    !util::is_link_local(ip) && !ip.is_unspecified() && match wanted {
        Some(remote) => util::is_compatible_ip_version(ip, remote),
        None => true,
    }
}

fn usable_ips(ips: &Vec<IpAddr>, wanted: Option<IpAddr>) -> (r: Vec<IpAddr>)
    ensures
        r@ == usable(ips@, wanted),
{
    let mut r: Vec<IpAddr> = Vec::new();
    let mut i: usize = 0;
    assert(ips@.take(0) =~= Seq::empty());
    while i < ips.len()
        invariant
            i <= ips@.len(),
            r@ == usable(ips@.take(i as int), wanted),
        decreases ips@.len() - i,
    {
        assert(ips@.take(i + 1).drop_last() =~= ips@.take(i as int));
        let ip = ips[i];
        if is_eligible(ip, wanted) {
            r.push(ip);
        }
        i = i + 1;
    }
    assert(ips@.take(i as int) =~= ips@);
    r
}

fn preference_of(ip: IpAddr) -> (p: u8)
    ensures
        p == preference(ip),
{
    let version: u8 = if ip.is_ipv6() {
        4
    } else {
        2
    };
    if ip.is_loopback() {
        version
    } else {
        version + 1
    }
}

fn preferred_ip(ips: &Vec<IpAddr>) -> (best: IpAddr)
    requires
        ips@.len() > 0,
    ensures
        best == preferred(ips@),
{
    let mut best = ips[0];
    let mut i: usize = 1;
    assert(ips@.take(1)[0] == ips@[0]);
    while i < ips.len()
        invariant
            1 <= i <= ips@.len(),
            best == preferred(ips@.take(i as int)),
        decreases ips@.len() - i,
    {
        assert(ips@.take(i + 1).drop_last() =~= ips@.take(i as int));
        if preference_of(ips[i]) >= preference_of(best) {
            best = ips[i];
        }
        i = i + 1;
    }
    assert(ips@.take(i as int) =~= ips@);
    best
}

fn choose_locals(
    interfaces: &[NetworkInterface],
    filter: KcpLinkFilter,
    wanted: Option<IpAddr>,
) -> (addrs: Vec<SocketAddr>)
    ensures
        addrs@ == one_each(filter, interfaces@, wanted),
{
    let mut groups: VecMap<String, SocketAddr> = VecMap::new();
    let mut i: usize = 0;
    assert(interfaces@.take(0) =~= Seq::empty());
    while i < interfaces.len()
        invariant
            i <= interfaces@.len(),
            groups@ == chosen(filter, interfaces@.take(i as int), wanted),
        decreases interfaces@.len() - i,
    {
        assert(interfaces@.take(i + 1).drop_last() =~= interfaces@.take(i as int));
        let ips = usable_ips(&interfaces[i].addr, wanted);
        if ips.len() > 0 {
            let ip = match filter {
                KcpLinkFilter::NoFilter => ips[0],
                KcpLinkFilter::InterfaceIp => preferred_ip(&ips),
                KcpLinkFilter::InterfaceName => preferred_ip(&ips),
            };
            groups.insert(interfaces[i].name.clone(), SocketAddr::new(ip, 0));
        }
        i = i + 1;
    }
    assert(interfaces@.take(i as int) =~= interfaces@);
    let mut addrs: Vec<SocketAddr> = Vec::new();
    let n: usize = groups.len();
    let mut j: usize = 0;
    assert(groups@.take(0) =~= Seq::empty());
    while j < n
        invariant
            j <= n,
            n == groups@.len(),
            addrs@ == distinct_values(groups@.take(j as int)),
        decreases n - j,
    {
        assert(groups@.take(j + 1).drop_last() =~= groups@.take(j as int));
        util::join_addr(&mut addrs, *groups.value_at(j));
        j = j + 1;
    }
    assert(groups@.take(j as int) =~= groups@);
    addrs
}

/// Chooses one usable address for each interface, or the two unspecified addresses
/// if there are none.
pub fn filter_local_addresses(interfaces: &[NetworkInterface], filter: KcpLinkFilter) -> (addrs: Vec<
    SocketAddr,
>)
    ensures
        addrs@ == filtered_locals(filter, interfaces@),
{
    let mut addrs = choose_locals(interfaces, filter, None);
    if addrs.len() == 0 {
        addrs.push(util::unspecified_for(IpAddr::V4(crate::addr::Ipv4Addr { bits: 0 })));
        addrs.push(util::unspecified_for(IpAddr::V6(crate::addr::Ipv6Addr { bits: 0 })));
        assert(addrs@ =~= filtered_locals(filter, interfaces@));
    }
    addrs
}

/// A link: its local and its remote address.
pub type Link = (SocketAddr, SocketAddr);

/// The links from `local` to each remote address.
pub open spec fn row(local: SocketAddr, remotes: Seq<SocketAddr>) -> Seq<Link> {
    remotes.map_values(|remote: SocketAddr| (local, remote))
}

/// The links from each local address to each remote address.
pub open spec fn table(locals: Seq<SocketAddr>, remotes: Seq<SocketAddr>) -> Seq<Link>
    decreases locals.len(),
{
    if locals.len() == 0 {
        Seq::empty()
    } else {
        table(locals.drop_last(), remotes) + row(locals.last(), remotes)
    }
}

/// The links from each local address to `remote`.
pub open spec fn column(locals: Seq<SocketAddr>, remote: SocketAddr) -> Seq<Link> {
    locals.map_values(|local: SocketAddr| (local, remote))
}

/// The links to each remote address from the local addresses chosen for it.
pub open spec fn filtered_table(
    filter: KcpLinkFilter,
    interfaces: Seq<NetworkInterface>,
    remotes: Seq<SocketAddr>,
) -> Seq<Link>
    decreases remotes.len(),
{
    if remotes.len() == 0 {
        Seq::empty()
    } else {
        let remote = remotes.last();
        filtered_table(filter, interfaces, remotes.drop_last()) + column(
            locals_for(filter, interfaces, remote.host()),
            remote,
        )
    }
}

/// One of the addresses is at this IP address.
pub open spec fn has_ip(addrs: Seq<SocketAddr>, ip: IpAddr) -> bool {
    exists|i: int| 0 <= i < addrs.len() && (#[trigger] addrs[i]).host() == ip
}

/// The first of the addresses at each IP address.
pub open spec fn one_per_ip(addrs: Seq<SocketAddr>) -> Seq<SocketAddr>
    decreases addrs.len(),
{
    if addrs.len() == 0 {
        Seq::empty()
    } else {
        let front = one_per_ip(addrs.drop_last());
        if has_ip(front, addrs.last().host()) {
            front
        } else {
            front.push(addrs.last())
        }
    }
}

/// The remote addresses to which there are links: with `InterfaceIp` one for each IP
/// address, else all.
pub open spec fn linked_remotes(filter: KcpLinkFilter, remotes: Seq<SocketAddr>) -> Seq<
    SocketAddr,
> {
    match filter {
        KcpLinkFilter::InterfaceIp => one_per_ip(remotes),
        _ => remotes,
    }
}

/// The links that could be established.
pub open spec fn candidates(
    filter: KcpLinkFilter,
    locals: Seq<SocketAddr>,
    remotes: Seq<SocketAddr>,
    interfaces: Seq<NetworkInterface>,
) -> Seq<Link> {
    match filter {
        KcpLinkFilter::NoFilter => table(locals, remotes),
        _ => filtered_table(filter, interfaces, linked_remotes(filter, remotes)),
    }
}

/// Two links with the same local IP address and the same remote address.
pub open spec fn same_group(a: Link, b: Link) -> bool {
    a.0.host() == b.0.host() && a.1 == b.1
}

/// How many links of `s` are in the same group as `link`.
pub open spec fn group_size(s: Seq<Link>, link: Link) -> nat
    decreases s.len(),
{
    if s.len() == 0 {
        0
    } else {
        group_size(s.drop_last(), link) + if same_group(s.last(), link) {
            1nat
        } else {
            0nat
        }
    }
}

/// The first four different links of each group.
pub open spec fn limited(s: Seq<Link>) -> Seq<Link>
    decreases s.len(),
{
    if s.len() == 0 {
        Seq::empty()
    } else {
        let front = limited(s.drop_last());
        if front.contains(s.last()) || group_size(front, s.last()) >= 4 {
            front
        } else {
            front.push(s.last())
        }
    }
}

/// Adds a link unless it is there already or its group is full.
fn admit_link(links: &mut Vec<Link>, link: Link)
    ensures
        final(links)@ == (if old(links)@.contains(link) || group_size(old(links)@, link) >= 4 {
            old(links)@
        } else {
            old(links)@.push(link)
        }),
{
    let mut size: usize = 0;
    let mut i: usize = 0;
    assert(links@.take(0) =~= Seq::empty());
    while i < links.len()
        invariant
            i <= links@.len(),
            links@ == old(links)@,
            size == group_size(links@.take(i as int), link),
            size <= i,
            forall|j: int| 0 <= j < i ==> links@[j] != link,
        decreases links@.len() - i,
    {
        assert(links@.take(i + 1).drop_last() =~= links@.take(i as int));
        let other = links[i];
        if other.0 == link.0 && other.1 == link.1 {
            assert(links@[i as int] == link);
            return;
        }
        if other.0.ip() == link.0.ip() && other.1 == link.1 {
            size = size + 1;
        }
        i = i + 1;
    }
    assert(links@.take(i as int) =~= links@);
    if size < 4 {
        links.push(link);
    }
}

fn limited_table(locals: &[SocketAddr], remotes: &[SocketAddr]) -> (links: Vec<Link>)
    ensures
        links@ == limited(table(locals@, remotes@)),
{
    let mut links: Vec<Link> = Vec::new();
    let mut i: usize = 0;
    assert(locals@.take(0) =~= Seq::empty());
    while i < locals.len()
        invariant
            i <= locals@.len(),
            links@ == limited(table(locals@.take(i as int), remotes@)),
        decreases locals@.len() - i,
    {
        let local = locals[i];
        let ghost done = table(locals@.take(i as int), remotes@);
        let mut j: usize = 0;
        assert(done + row(local, remotes@.take(0)) =~= done);
        while j < remotes.len()
            invariant
                j <= remotes@.len(),
                links@ == limited(done + row(local, remotes@.take(j as int))),
            decreases remotes@.len() - j,
        {
            let remote = remotes[j];
            proof {
                let before = done + row(local, remotes@.take(j as int));
                let longer = done + row(local, remotes@.take(j + 1));
                assert(longer =~= before.push((local, remote)));
                assert(longer.drop_last() =~= before);
            }
            admit_link(&mut links, (local, remote));
            j = j + 1;
        }
        assert(remotes@.take(j as int) =~= remotes@);
        assert(locals@.take(i + 1).drop_last() =~= locals@.take(i as int));
        i = i + 1;
    }
    assert(locals@.take(i as int) =~= locals@);
    links
}

fn limited_filtered_table(
    filter: KcpLinkFilter,
    interfaces: &[NetworkInterface],
    remotes: &[SocketAddr],
) -> (links: Vec<Link>)
    ensures
        links@ == limited(filtered_table(filter, interfaces@, remotes@)),
{
    let unlinked = choose_locals(interfaces, filter, None).len() == 0;
    let mut links: Vec<Link> = Vec::new();
    let mut i: usize = 0;
    assert(remotes@.take(0) =~= Seq::empty());
    while i < remotes.len()
        invariant
            i <= remotes@.len(),
            unlinked == (one_each(filter, interfaces@, None).len() == 0),
            links@ == limited(filtered_table(filter, interfaces@, remotes@.take(i as int))),
        decreases remotes@.len() - i,
    {
        let remote = remotes[i];
        let locals = if unlinked {
            vec![util::unspecified_for(remote.ip())]
        } else {
            choose_locals(interfaces, filter, Some(remote.ip()))
        };
        assert(locals@ =~= locals_for(filter, interfaces@, remote.host()));
        let ghost done = filtered_table(filter, interfaces@, remotes@.take(i as int));
        let mut j: usize = 0;
        assert(done + column(locals@.take(0), remote) =~= done);
        while j < locals.len()
            invariant
                j <= locals@.len(),
                links@ == limited(done + column(locals@.take(j as int), remote)),
            decreases locals@.len() - j,
        {
            proof {
                let before = done + column(locals@.take(j as int), remote);
                let longer = done + column(locals@.take(j + 1), remote);
                assert(longer =~= before.push((locals@[j as int], remote)));
                assert(longer.drop_last() =~= before);
            }
            admit_link(&mut links, (locals[j], remote));
            j = j + 1;
        }
        assert(locals@.take(j as int) =~= locals@);
        assert(remotes@.take(i + 1).drop_last() =~= remotes@.take(i as int));
        i = i + 1;
    }
    assert(remotes@.take(i as int) =~= remotes@);
    links
}

fn first_per_ip(remotes: &[SocketAddr]) -> (r: Vec<SocketAddr>)
    ensures
        r@ == one_per_ip(remotes@),
{
    let mut r: Vec<SocketAddr> = Vec::new();
    let mut i: usize = 0;
    assert(remotes@.take(0) =~= Seq::empty());
    while i < remotes.len()
        invariant
            i <= remotes@.len(),
            r@ == one_per_ip(remotes@.take(i as int)),
        decreases remotes@.len() - i,
    {
        assert(remotes@.take(i + 1).drop_last() =~= remotes@.take(i as int));
        let remote = remotes[i];
        let mut known = false;
        let mut j: usize = 0;
        while j < r.len()
            invariant
                j <= r@.len(),
                known ==> has_ip(r@, remote.host()),
                !known ==> forall|k: int| 0 <= k < j ==> (#[trigger] r@[k]).host() != remote.host(),
            decreases r@.len() - j,
        {
            if r[j].ip() == remote.ip() {
                assert(r@[j as int].host() == remote.host());
                known = true;
            }
            j = j + 1;
        }
        if !known {
            r.push(remote);
        }
        i = i + 1;
    }
    assert(remotes@.take(i as int) =~= remotes@);
    r
}

/// Plans the links to be established: without a filter all combinations of local
/// and remote addresses; with `InterfaceIp` one link for each interface and remote IP
/// address of the same version, with `InterfaceName` one for each interface and
/// remote address; at most four for each local IP address and remote address.
pub fn plan_links(
    filter: KcpLinkFilter,
    locals: &[SocketAddr],
    remotes: &[SocketAddr],
    interfaces: &[NetworkInterface],
) -> (links: Vec<Link>)
    ensures
        links@ == limited(candidates(filter, locals@, remotes@, interfaces@)),
{
    match filter {
        KcpLinkFilter::NoFilter => limited_table(locals, remotes),
        KcpLinkFilter::InterfaceIp => limited_filtered_table(
            filter,
            interfaces,
            first_per_ip(remotes).as_slice(),
        ),
        KcpLinkFilter::InterfaceName => limited_filtered_table(filter, interfaces, remotes),
    }
}

proof fn group_size_push(s: Seq<Link>, a: Link, link: Link)
    ensures
        group_size(s.push(a), link) == group_size(s, link) + if same_group(a, link) {
            1nat
        } else {
            0nat
        },
{
    assert(s.push(a).drop_last() =~= s);
}

/// No link is planned twice, every planned link is a candidate, no group has
/// more than four links, and a candidate is left out only where its group has
/// four.
pub proof fn limited_is_fair(s: Seq<Link>)
    ensures
        limited(s).no_duplicates(),
        forall|a: Link| #[trigger] limited(s).contains(a) ==> s.contains(a),
        forall|a: Link| #[trigger] group_size(limited(s), a) <= 4,
        forall|a: Link|
            #![trigger s.contains(a)]
            s.contains(a) ==> limited(s).contains(a) || group_size(limited(s), a) == 4,
    decreases s.len(),
{
    if s.len() > 0 {
        let last = s.last();
        let rest = s.drop_last();
        let front = limited(rest);
        let all = limited(s);
        limited_is_fair(rest);
        assert(s =~= rest.push(last));
        assert(s[s.len() - 1] == last);
        assert forall|a: Link| rest.contains(a) implies s.contains(a) by {
            let i = choose|i: int| 0 <= i < rest.len() && rest[i] == a;
            assert(s[i] == a);
        }
        assert forall|a: Link| s.contains(a) implies rest.contains(a) || a == last by {
            let i = choose|i: int| 0 <= i < s.len() && s[i] == a;
            if i < rest.len() {
                assert(rest[i] == a);
            }
        }
        if front.contains(last) || group_size(front, last) >= 4 {
        } else {
            assert(all == front.push(last));
            assert forall|a: Link| all.contains(a) implies front.contains(a) || a == last by {
                let i = choose|i: int| 0 <= i < all.len() && all[i] == a;
                if i < front.len() {
                    assert(front[i] == a);
                }
            }
            assert forall|a: Link| front.contains(a) implies all.contains(a) by {
                let i = choose|i: int| 0 <= i < front.len() && front[i] == a;
                assert(all[i] == a);
            }
            assert(all[all.len() - 1] == last);
            assert forall|a: Link| #[trigger] group_size(all, a) <= 4 by {
                group_size_push(front, last, a);
                if same_group(last, a) {
                    same_group_size(front, last, a);
                }
            }
            assert forall|a: Link| s.contains(a) implies all.contains(a) || group_size(all, a)
                == 4 by {
                group_size_push(front, last, a);
                if a != last {
                    assert(rest.contains(a));
                    if !front.contains(a) {
                        assert(group_size(front, a) == 4);
                        if same_group(last, a) {
                            same_group_size(front, last, a);
                        }
                    }
                }
            }
        }
    }
}

proof fn same_group_size(s: Seq<Link>, a: Link, b: Link)
    requires
        same_group(a, b),
    ensures
        group_size(s, a) == group_size(s, b),
    decreases s.len(),
{
    if s.len() > 0 {
        same_group_size(s.drop_last(), a, b);
    }
}

/// No address is preferred over the chosen one.
pub proof fn preferred_is_best(ips: Seq<IpAddr>)
    requires
        ips.len() > 0,
    ensures
        ips.contains(preferred(ips)),
        forall|i: int| 0 <= i < ips.len() ==> preference(#[trigger] ips[i]) <= preference(
            preferred(ips),
        ),
    decreases ips.len(),
{
    if ips.len() == 1 {
        assert(ips[0] == preferred(ips));
    } else {
        let front = ips.drop_last();
        preferred_is_best(front);
        let k = choose|k: int| 0 <= k < front.len() && front[k] == preferred(front);
        assert(ips[k] == preferred(front));
        assert(ips[ips.len() - 1] == ips.last());
        assert forall|i: int| 0 <= i < ips.len() implies preference(#[trigger] ips[i]) <= preference(
            preferred(ips),
        ) by {
            if i < front.len() {
                assert(front[i] == ips[i]);
            }
        }
    }
}

pub(crate) proof fn usable_members(ips: Seq<IpAddr>, wanted: Option<IpAddr>)
    ensures
        forall|i: int|
            0 <= i < usable(ips, wanted).len() ==> eligible(#[trigger] usable(ips, wanted)[i], wanted)
                && ips.contains(usable(ips, wanted)[i]),
    decreases ips.len(),
{
    if ips.len() > 0 {
        let rest = ips.drop_last();
        let front = usable(rest, wanted);
        usable_members(rest, wanted);
        assert forall|i: int| 0 <= i < usable(ips, wanted).len() implies eligible(
            #[trigger] usable(ips, wanted)[i],
            wanted,
        ) && ips.contains(usable(ips, wanted)[i]) by {
            if i < front.len() {
                assert(eligible(front[i], wanted));
                let j = choose|j: int| 0 <= j < rest.len() && rest[j] == front[i];
                assert(ips[j] == front[i]);
            } else {
                assert(ips[ips.len() - 1] == ips.last());
            }
        }
    }
}

pub(crate) proof fn representative_fits(filter: KcpLinkFilter, ips: Seq<IpAddr>, wanted: Option<IpAddr>)
    requires
        usable(ips, wanted).len() > 0,
    ensures
        ({
            let a = representative(filter, usable(ips, wanted));
            eligible(a.host(), wanted) && ips.contains(a.host()) && a == SocketAddr::of(a.host(), 0)
        }),
{
    let all = usable(ips, wanted);
    usable_members(ips, wanted);
    preferred_is_best(all);
    let k = choose|k: int| 0 <= k < all.len() && all[k] == preferred(all);
    assert(eligible(all[k], wanted) && ips.contains(all[k]));
    assert(eligible(all[0], wanted) && ips.contains(all[0]));
}

pub(crate) proof fn chosen_fits(
    filter: KcpLinkFilter,
    interfaces: Seq<NetworkInterface>,
    wanted: Option<IpAddr>,
)
    ensures
        forall|i: int|
            0 <= i < chosen(filter, interfaces, wanted).len() ==> {
                let a = (#[trigger] chosen(filter, interfaces, wanted)[i]).1;
                eligible(a.host(), wanted) && a == SocketAddr::of(a.host(), 0)
            },
    decreases interfaces.len(),
{
    if interfaces.len() > 0 {
        let front = chosen(filter, interfaces.drop_last(), wanted);
        chosen_fits(filter, interfaces.drop_last(), wanted);
        let last = interfaces.last();
        if usable(last.addr@, wanted).len() > 0 {
            representative_fits(filter, last.addr@, wanted);
            vec_map::place_is_first(front, last.name@);
        }
    }
}

pub(crate) proof fn distinct_values_members(s: Seq<(Seq<char>, SocketAddr)>, a: SocketAddr)
    ensures
        distinct_values(s).contains(a) <==> exists|i: int|
            0 <= i < s.len() && (#[trigger] s[i]).1 == a,
    decreases s.len(),
{
    if s.len() > 0 {
        let rest = s.drop_last();
        let front = distinct_values(rest);
        let all = distinct_values(s);
        distinct_values_members(rest, a);
        if front.contains(a) {
            let i = choose|i: int| 0 <= i < rest.len() && (#[trigger] rest[i]).1 == a;
            assert(s[i].1 == a);
            let k = choose|k: int| 0 <= k < front.len() && front[k] == a;
            assert(all[k] == a);
        }
        if s.last().1 == a {
            assert(s[s.len() - 1].1 == a);
            if !front.contains(a) {
                assert(all[all.len() - 1] == a);
            }
        }
        if all.contains(a) && !front.contains(a) {
            let k = choose|k: int| 0 <= k < all.len() && all[k] == a;
            if k < front.len() {
                assert(front[k] == a);
            }
        }
        if exists|i: int| 0 <= i < s.len() && (#[trigger] s[i]).1 == a {
            let i = choose|i: int| 0 <= i < s.len() && (#[trigger] s[i]).1 == a;
            if i < rest.len() {
                assert(rest[i].1 == a);
            }
        }
    }
}

/// No local address that is chosen for an interface is link-local.
pub proof fn filtered_locals_not_link_local(
    filter: KcpLinkFilter,
    interfaces: Seq<NetworkInterface>,
    a: SocketAddr,
)
    requires
        filtered_locals(filter, interfaces).contains(a),
    ensures
        !util::link_local(a.host()),
{
    let addrs = one_each(filter, interfaces, None);
    if addrs.len() > 0 {
        distinct_values_members(chosen(filter, interfaces, None), a);
        chosen_fits(filter, interfaces, None);
    }
}

/// A local address from which links to a remote address start is not link-local, is
/// of the same IP version, and has port zero.
pub proof fn locals_fit_remote(
    filter: KcpLinkFilter,
    interfaces: Seq<NetworkInterface>,
    remote: IpAddr,
    a: SocketAddr,
)
    requires
        locals_for(filter, interfaces, remote).contains(a),
    ensures
        !util::link_local(a.host()),
        util::compatible(a.host(), remote),
        a == SocketAddr::of(a.host(), 0),
{
    if one_each(filter, interfaces, None).len() > 0 {
        distinct_values_members(chosen(filter, interfaces, Some(remote)), a);
        chosen_fits(filter, interfaces, Some(remote));
    }
}

/// A link is in the table exactly if it leads from one of the local to one of
/// the remote addresses.
pub proof fn table_members(locals: Seq<SocketAddr>, remotes: Seq<SocketAddr>, a: Link)
    ensures
        table(locals, remotes).contains(a) <==> locals.contains(a.0) && remotes.contains(a.1),
    decreases locals.len(),
{
    if locals.len() > 0 {
        let rest = locals.drop_last();
        let front = table(rest, remotes);
        let back = row(locals.last(), remotes);
        table_members(rest, remotes, a);
        sum_members(front, back, a);
        last_member(locals, a.0);
        assert(back.contains(a) <==> a.0 == locals.last() && remotes.contains(a.1)) by {
            if back.contains(a) {
                let i = choose|i: int| 0 <= i < back.len() && back[i] == a;
                assert(remotes[i] == a.1);
            }
            if a.0 == locals.last() && remotes.contains(a.1) {
                let i = choose|i: int| 0 <= i < remotes.len() && remotes[i] == a.1;
                assert(back[i] == a);
            }
        }
    }
}

/// With a filter, a link could be established exactly if it leads to one of the
/// remote addresses from a local address chosen for that.
pub proof fn filtered_table_members(
    filter: KcpLinkFilter,
    interfaces: Seq<NetworkInterface>,
    remotes: Seq<SocketAddr>,
    a: Link,
)
    ensures
        filtered_table(filter, interfaces, remotes).contains(a) <==> remotes.contains(a.1)
            && locals_for(filter, interfaces, a.1.host()).contains(a.0),
    decreases remotes.len(),
{
    if remotes.len() > 0 {
        let remote = remotes.last();
        let rest = remotes.drop_last();
        let front = filtered_table(filter, interfaces, rest);
        let locals = locals_for(filter, interfaces, remote.host());
        let back = column(locals, remote);
        filtered_table_members(filter, interfaces, rest, a);
        sum_members(front, back, a);
        last_member(remotes, a.1);
        assert(back.contains(a) <==> a.1 == remote && locals.contains(a.0)) by {
            if back.contains(a) {
                let i = choose|i: int| 0 <= i < back.len() && back[i] == a;
                assert(locals[i] == a.0);
            }
            if a.1 == remote && locals.contains(a.0) {
                let i = choose|i: int| 0 <= i < locals.len() && locals[i] == a.0;
                assert(back[i] == a);
            }
        }
    }
}

proof fn sum_members<A>(s: Seq<A>, t: Seq<A>, a: A)
    ensures
        (s + t).contains(a) <==> s.contains(a) || t.contains(a),
{
    let all = s + t;
    if all.contains(a) {
        let i = choose|i: int| 0 <= i < all.len() && all[i] == a;
        if i < s.len() {
            assert(s[i] == a);
        } else {
            assert(t[i - s.len()] == a);
        }
    }
    if s.contains(a) {
        let i = choose|i: int| 0 <= i < s.len() && s[i] == a;
        assert(all[i] == a);
    }
    if t.contains(a) {
        let i = choose|i: int| 0 <= i < t.len() && t[i] == a;
        assert(all[s.len() + i] == a);
    }
}

pub(crate) proof fn last_member<A>(s: Seq<A>, a: A)
    requires
        s.len() > 0,
    ensures
        s.contains(a) <==> s.drop_last().contains(a) || a == s.last(),
{
    sum_members(s.drop_last(), seq![s.last()], a);
    assert(s.drop_last() + seq![s.last()] =~= s);
    assert(seq![s.last()][0] == s.last());
}

/// Of the addresses at each IP address exactly one is kept.
pub proof fn one_per_ip_members(addrs: Seq<SocketAddr>)
    ensures
        forall|a: SocketAddr| #[trigger] one_per_ip(addrs).contains(a) ==> addrs.contains(a),
        forall|ip: IpAddr| #[trigger] has_ip(one_per_ip(addrs), ip) <==> has_ip(addrs, ip),
        forall|i: int, j: int|
            0 <= i < j < one_per_ip(addrs).len() ==> (#[trigger] one_per_ip(addrs)[i]).host() != (
            #[trigger] one_per_ip(addrs)[j]).host(),
    decreases addrs.len(),
{
    if addrs.len() > 0 {
        let rest = addrs.drop_last();
        let last = addrs.last();
        let front = one_per_ip(rest);
        let all = one_per_ip(addrs);
        one_per_ip_members(rest);
        assert forall|a: SocketAddr| #[trigger] all.contains(a) implies addrs.contains(a) by {
            last_member(addrs, a);
            if all != front {
                last_member(all, a);
                assert(all.drop_last() =~= front);
            }
        }
        assert forall|ip: IpAddr| #[trigger] has_ip(all, ip) <==> has_ip(addrs, ip) by {
            ip_of_last(addrs, ip);
            assert(has_ip(front, ip) <==> has_ip(rest, ip));
            if all != front {
                ip_of_last(all, ip);
                assert(all.drop_last() =~= front);
            }
        }
    }
}

proof fn ip_of_last(s: Seq<SocketAddr>, ip: IpAddr)
    requires
        s.len() > 0,
    ensures
        has_ip(s, ip) <==> has_ip(s.drop_last(), ip) || s.last().host() == ip,
{
    let rest = s.drop_last();
    if has_ip(rest, ip) {
        let i = choose|i: int| 0 <= i < rest.len() && (#[trigger] rest[i]).host() == ip;
        assert(s[i].host() == ip);
    }
    if s.last().host() == ip {
        assert(s[s.len() - 1].host() == ip);
    }
    if has_ip(s, ip) {
        let i = choose|i: int| 0 <= i < s.len() && (#[trigger] s[i]).host() == ip;
        if i < rest.len() {
            assert(rest[i].host() == ip);
        }
    }
}

/// With a filter, every planned link starts from an address that is not
/// link-local and leads to one of the remote addresses of the same IP version.
pub proof fn planned_links_follow_filter(
    filter: KcpLinkFilter,
    locals: Seq<SocketAddr>,
    remotes: Seq<SocketAddr>,
    interfaces: Seq<NetworkInterface>,
    link: Link,
)
    requires
        filter != KcpLinkFilter::NoFilter,
        limited(candidates(filter, locals, remotes, interfaces)).contains(link),
    ensures
        !util::link_local(link.0.host()),
        util::compatible(link.0.host(), link.1.host()),
        remotes.contains(link.1),
{
    limited_is_fair(candidates(filter, locals, remotes, interfaces));
    filtered_table_members(filter, interfaces, linked_remotes(filter, remotes), link);
    one_per_ip_members(remotes);
    locals_fit_remote(filter, interfaces, link.1.host(), link.0);
}

pub(crate) proof fn same_group_alike(s: Seq<Link>, link: Link)
    requires
        s.no_duplicates(),
        forall|a: Link| #[trigger] s.contains(a) && same_group(a, link) ==> a == link,
    ensures
        group_size(s, link) <= 1,
        !s.contains(link) ==> group_size(s, link) == 0,
    decreases s.len(),
{
    if s.len() > 0 {
        let rest = s.drop_last();
        assert forall|a: Link| #[trigger] rest.contains(a) && same_group(a, link) implies a
            == link by {
            last_member(s, a);
        }
        same_group_alike(rest, link);
        last_member(s, s.last());
        last_member(s, link);
        if rest.contains(s.last()) {
            let i = choose|i: int| 0 <= i < rest.len() && rest[i] == s.last();
            assert(s[i] == s[s.len() - 1]);
        }
    }
}

/// With a filter, nothing is left out of the plan: every link that could be
/// established is planned.
pub proof fn filtered_links_are_planned(
    filter: KcpLinkFilter,
    locals: Seq<SocketAddr>,
    remotes: Seq<SocketAddr>,
    interfaces: Seq<NetworkInterface>,
    link: Link,
)
    requires
        filter != KcpLinkFilter::NoFilter,
        candidates(filter, locals, remotes, interfaces).contains(link),
    ensures
        limited(candidates(filter, locals, remotes, interfaces)).contains(link),
{
    let s = candidates(filter, locals, remotes, interfaces);
    let targets = linked_remotes(filter, remotes);
    limited_is_fair(s);
    filtered_table_members(filter, interfaces, targets, link);
    locals_fit_remote(filter, interfaces, link.1.host(), link.0);
    assert forall|a: Link| #[trigger] limited(s).contains(a) && same_group(a, link) implies a
        == link by {
        filtered_table_members(filter, interfaces, targets, a);
        locals_fit_remote(filter, interfaces, a.1.host(), a.0);
    }
    same_group_alike(limited(s), link);
}

pub(crate) proof fn chosen_has(
    filter: KcpLinkFilter,
    interfaces: Seq<NetworkInterface>,
    wanted: Option<IpAddr>,
    i: int,
)
    requires
        0 <= i < interfaces.len(),
        usable(interfaces[i].addr@, wanted).len() > 0,
        forall|j: int| i < j < interfaces.len() ==> (#[trigger] interfaces[j]).name@
            != interfaces[i].name@,
    ensures
        vec_map::distinct(chosen(filter, interfaces, wanted)),
        vec_map::value(chosen(filter, interfaces, wanted), interfaces[i].name@) == Some(
            representative(filter, usable(interfaces[i].addr@, wanted)),
        ),
    decreases interfaces.len(),
{
    let rest = interfaces.drop_last();
    let front = chosen(filter, rest, wanted);
    let last = interfaces.last();
    let ips = usable(last.addr@, wanted);
    chosen_distinct(filter, rest, wanted);
    if ips.len() > 0 {
        vec_map::with_stores(front, last.name@, representative(filter, ips));
    }
    if i < rest.len() {
        assert(rest[i] == interfaces[i]);
        assert(interfaces[interfaces.len() - 1].name@ != interfaces[i].name@);
        assert forall|j: int| i < j < rest.len() implies (#[trigger] rest[j]).name@
            != rest[i].name@ by {
            assert(rest[j] == interfaces[j]);
        }
        chosen_has(filter, rest, wanted, i);
    }
}

pub(crate) proof fn chosen_distinct(
    filter: KcpLinkFilter,
    interfaces: Seq<NetworkInterface>,
    wanted: Option<IpAddr>,
)
    ensures
        vec_map::distinct(chosen(filter, interfaces, wanted)),
    decreases interfaces.len(),
{
    if interfaces.len() > 0 {
        let last = interfaces.last();
        let ips = usable(last.addr@, wanted);
        chosen_distinct(filter, interfaces.drop_last(), wanted);
        if ips.len() > 0 {
            vec_map::with_stores(
                chosen(filter, interfaces.drop_last(), wanted),
                last.name@,
                representative(filter, ips),
            );
        }
    }
}

pub(crate) proof fn usable_any(ips: Seq<IpAddr>, wanted: Option<IpAddr>)
    ensures
        usable(ips, wanted).len() <= usable(ips, None).len(),
    decreases ips.len(),
{
    if ips.len() > 0 {
        usable_any(ips.drop_last(), wanted);
    }
}

/// With `InterfaceIp`, no two planned links lead from the same local address to the
/// same remote IP address.
pub proof fn one_link_per_remote_ip(
    locals: Seq<SocketAddr>,
    remotes: Seq<SocketAddr>,
    interfaces: Seq<NetworkInterface>,
    a: Link,
    b: Link,
)
    requires
        limited(candidates(KcpLinkFilter::InterfaceIp, locals, remotes, interfaces)).contains(a),
        limited(candidates(KcpLinkFilter::InterfaceIp, locals, remotes, interfaces)).contains(b),
        a.0 == b.0,
        a.1.host() == b.1.host(),
    ensures
        a == b,
{
    let filter = KcpLinkFilter::InterfaceIp;
    let targets = one_per_ip(remotes);
    limited_is_fair(candidates(filter, locals, remotes, interfaces));
    filtered_table_members(filter, interfaces, targets, a);
    filtered_table_members(filter, interfaces, targets, b);
    one_per_ip_members(remotes);
    let i = choose|i: int| 0 <= i < targets.len() && targets[i] == a.1;
    let j = choose|j: int| 0 <= j < targets.len() && targets[j] == b.1;
    assert(i < j ==> targets[i].host() != targets[j].host());
    assert(j < i ==> targets[j].host() != targets[i].host());
}

/// With a filter, there is a planned link for each pair of an interface and a remote
/// address of an IP version of which the interface has a usable address. It starts
/// from the most preferred of these addresses. With `InterfaceIp` it may lead to
/// another remote address at the same IP address. Of interfaces with the same name the
/// last counts.
pub proof fn each_interface_is_linked(
    filter: KcpLinkFilter,
    locals: Seq<SocketAddr>,
    remotes: Seq<SocketAddr>,
    interfaces: Seq<NetworkInterface>,
    i: int,
    remote: SocketAddr,
)
    requires
        filter != KcpLinkFilter::NoFilter,
        0 <= i < interfaces.len(),
        forall|j: int| i < j < interfaces.len() ==> (#[trigger] interfaces[j]).name@
            != interfaces[i].name@,
        usable(interfaces[i].addr@, Some(remote.host())).len() > 0,
        remotes.contains(remote),
    ensures
        ({
            let ip = preferred(usable(interfaces[i].addr@, Some(remote.host())));
            &&& interfaces[i].addr@.contains(ip)
            &&& exists|target: SocketAddr|
                target.host() == remote.host() && (filter == KcpLinkFilter::InterfaceName ==> target
                    == remote) && remotes.contains(target) && #[trigger] limited(
                    candidates(filter, locals, remotes, interfaces),
                ).contains((SocketAddr::of(ip, 0), target))
        }),
{
    let wanted = Some(remote.host());
    let ips = interfaces[i].addr@;
    let local = SocketAddr::of(preferred(usable(ips, wanted)), 0);
    representative_fits(filter, ips, wanted);
    usable_any(ips, wanted);
    chosen_member(filter, interfaces, wanted, i);
    chosen_member(filter, interfaces, None, i);
    one_per_ip_members(remotes);
    let at = choose|at: int| 0 <= at < remotes.len() && remotes[at] == remote;
    assert(remotes[at].host() == remote.host());
    let targets = linked_remotes(filter, remotes);
    assert(has_ip(targets, remote.host()));
    let k = choose|k: int| 0 <= k < targets.len() && (#[trigger] targets[k]).host()
        == remote.host();
    let target = if filter == KcpLinkFilter::InterfaceName {
        remote
    } else {
        targets[k]
    };
    assert(targets.contains(target));
    filtered_table_members(filter, interfaces, targets, (local, target));
    filtered_links_are_planned(filter, locals, remotes, interfaces, (local, target));
}

pub(crate) proof fn chosen_member(
    filter: KcpLinkFilter,
    interfaces: Seq<NetworkInterface>,
    wanted: Option<IpAddr>,
    i: int,
)
    requires
        0 <= i < interfaces.len(),
        usable(interfaces[i].addr@, wanted).len() > 0,
        forall|j: int| i < j < interfaces.len() ==> (#[trigger] interfaces[j]).name@
            != interfaces[i].name@,
    ensures
        one_each(filter, interfaces, wanted).contains(
            representative(filter, usable(interfaces[i].addr@, wanted)),
        ),
{
    chosen_has(filter, interfaces, wanted, i);
    let all = chosen(filter, interfaces, wanted);
    let p = vec_map::place(all, interfaces[i].name@);
    vec_map::place_is_first(all, interfaces[i].name@);
    let a = representative(filter, usable(interfaces[i].addr@, wanted));
    assert(all[p].1 == a);
    distinct_values_members(all, a);
}

} // verus!
