//! What users of the KCP transport can rely on.
use crate::addr::{IpAddr, Ipv4Addr, Ipv6Addr, SocketAddr};
use crate::kcp::config::KcpConfig;
use crate::kcp::connector;
use crate::kcp::connector::{ConnectMode, KcpConnector};
use crate::kcp::filter::KcpLinkFilter;
use crate::kcp::link_tag::{Direction, KcpLinkTag};
use crate::kcp::plan;
use crate::kcp::plan::Link;
use crate::kcp::util;
use crate::kcp::util::{InvalidInput, IpVersion, NetworkInterface};
use crate::time::Duration;
use vstd::prelude::*;

verus! {

/// An address that is valid on one network only: `fe80::/16` or `169.254.0.0/16`.
pub open spec fn on_link(ip: IpAddr) -> bool {
    match ip {
        IpAddr::V6(a) => a.bits as nat / 0x1_0000_0000_0000_0000_0000_0000_0000 == 0xFE80,
        IpAddr::V4(a) => a.bits as nat / 0x1_0000 == 169 * 256 + 254,
    }
}

/// An address that links can use.
pub open spec fn serves(ip: IpAddr) -> bool {
    !on_link(ip) && match ip {
        IpAddr::V6(a) => a.bits != 0,
        IpAddr::V4(a) => a.bits != 0,
    }
}

/// An address that links to a remote address can use.
pub open spec fn serves_for(ip: IpAddr, remote: IpAddr) -> bool {
    serves(ip) && (ip is V6 <==> remote is V6)
}

/// `a` is preferred over `b`: IPv6 over IPv4, then what leads beyond this machine.
pub open spec fn better(a: IpAddr, b: IpAddr) -> bool {
    a is V6 && b is V4 || (a is V6 <==> b is V6) && !a.loopback() && b.loopback()
}

/// No interface with the same name follows.
pub open spec fn last_of_its_name(interfaces: Seq<NetworkInterface>, i: int) -> bool {
    &&& 0 <= i < interfaces.len()
    &&& forall|j: int|
        i < j < interfaces.len() ==> (#[trigger] interfaces[j]).name@ != interfaces[i].name@
}

/// An address is recognized as link-local by its first sixteen bits.
pub proof fn link_local_addresses(ip: IpAddr, r: bool)
    requires
        call_ensures(util::is_link_local, (ip,), r),
    ensures
        r <==> on_link(ip),
{
}

/// An IPv4 address that is written as an IPv6 address becomes an IPv4 address at the same
/// port; nothing else changes.
pub proof fn mapped_addresses_become_ipv4(sa: &mut SocketAddr)
    requires
        call_ensures(util::use_proper_ipv4, (sa,), ()),
    ensures
        final(sa).port_number() == old(sa).port_number(),
        match old(sa).host() {
            IpAddr::V6(a) => if a.bits as nat / 0x1_0000_0000 == 0xFFFF {
                final(sa).host() matches IpAddr::V4(b) && b.bits == a.bits as nat % 0x1_0000_0000
            } else {
                *final(sa) == *old(sa)
            },
            IpAddr::V4(_) => *final(sa) == *old(sa),
        },
{
}

proof fn eligible_means_serving(ip: IpAddr, wanted: Option<IpAddr>)
    ensures
        plan::eligible(ip, wanted) <==> match wanted {
            Some(remote) => serves_for(ip, remote),
            None => serves(ip),
        },
{
}

proof fn usable_is_found(ips: Seq<IpAddr>, wanted: Option<IpAddr>, k: int)
    requires
        0 <= k < ips.len(),
        plan::eligible(ips[k], wanted),
    ensures
        plan::usable(ips, wanted).contains(ips[k]),
        plan::usable(ips, wanted).len() > 0,
    decreases ips.len(),
{
    let rest = ips.drop_last();
    let front = plan::usable(rest, wanted);
    let all = plan::usable(ips, wanted);
    if k == ips.len() - 1 {
        assert(all[front.len() as int] == ips[k]);
    } else {
        usable_is_found(rest, wanted, k);
        let j = choose|j: int| 0 <= j < front.len() && front[j] == ips[k];
        assert(all[j] == ips[k]);
    }
}

proof fn first_usable(ips: Seq<IpAddr>, wanted: Option<IpAddr>)
    requires
        plan::usable(ips, wanted).len() > 0,
    ensures
        exists|k: int|
            0 <= k < ips.len() && (#[trigger] ips[k]) == plan::usable(ips, wanted)[0] && forall|j: int|
                0 <= j < k ==> !plan::eligible(#[trigger] ips[j], wanted),
    decreases ips.len(),
{
    let rest = ips.drop_last();
    let front = plan::usable(rest, wanted);
    if front.len() > 0 {
        first_usable(rest, wanted);
        let k = choose|k: int|
            0 <= k < rest.len() && (#[trigger] rest[k]) == front[0] && forall|j: int|
                0 <= j < k ==> !plan::eligible(#[trigger] rest[j], wanted);
        assert(ips[k] == plan::usable(ips, wanted)[0]);
        assert forall|j: int| 0 <= j < k implies !plan::eligible(#[trigger] ips[j], wanted) by {
            assert(rest[j] == ips[j]);
        }
    } else {
        let k = ips.len() - 1;
        assert(ips[k] == plan::usable(ips, wanted)[0]);
        assert forall|j: int| 0 <= j < k implies !plan::eligible(#[trigger] ips[j], wanted) by {
            if plan::eligible(ips[j], wanted) {
                assert(rest[j] == ips[j]);
                usable_is_found(rest, wanted, j);
            }
        }
    }
}

/// The address that stands for an interface is one that serves, and no other that serves
/// is preferred over it; without a filter it is the first that serves.
proof fn representative_is_best(filter: KcpLinkFilter, ips: Seq<IpAddr>, wanted: Option<IpAddr>)
    requires
        plan::usable(ips, wanted).len() > 0,
    ensures
        ({
            let a = plan::representative(filter, plan::usable(ips, wanted));
            &&& ips.contains(a.host())
            &&& plan::eligible(a.host(), wanted)
            &&& a == SocketAddr::of(a.host(), 0)
            &&& filter != KcpLinkFilter::NoFilter ==> forall|k: int|
                0 <= k < ips.len() && plan::eligible(#[trigger] ips[k], wanted) ==> !better(
                    ips[k],
                    a.host(),
                )
        }),
{
    let all = plan::usable(ips, wanted);
    plan::representative_fits(filter, ips, wanted);
    plan::preferred_is_best(all);
    let a = plan::representative(filter, all);
    if filter != KcpLinkFilter::NoFilter {
        assert forall|k: int| 0 <= k < ips.len() && plan::eligible(
            #[trigger] ips[k],
            wanted,
        ) implies !better(ips[k], a.host()) by {
            usable_is_found(ips, wanted, k);
            let j = choose|j: int| 0 <= j < all.len() && all[j] == ips[k];
            assert(plan::preference(all[j]) <= plan::preference(plan::preferred(all)));
        }
    }
}

/// Without a filter the first address of an interface that serves is used, else one over
/// which none that serves is preferred. Of interfaces with the same name the last counts.
pub proof fn one_local_address_for_each_interface(
    interfaces: &[NetworkInterface],
    filter: KcpLinkFilter,
    addrs: Vec<SocketAddr>,
    i: int,
    k: int,
)
    requires
        call_ensures(plan::filter_local_addresses, (interfaces, filter), addrs),
        last_of_its_name(interfaces@, i),
        0 <= k < interfaces@[i].addr@.len(),
        serves(interfaces@[i].addr@[k]),
    ensures
        exists|n: int|
            0 <= n < addrs@.len() && stands_for(
                filter,
                interfaces@[i].addr@,
                #[trigger] addrs@[n],
            ),
{
    let ips = interfaces@[i].addr@;
    eligible_means_serving(ips[k], None);
    usable_is_found(ips, None, k);
    representative_is_best(filter, ips, None);
    let a = plan::representative(filter, plan::usable(ips, None));
    plan::chosen_member(filter, interfaces@, None, i);
    let n = choose|n: int| 0 <= n < addrs@.len() && addrs@[n] == a;
    assert(addrs@.contains(a));
    first_usable(ips, None);
    if filter == KcpLinkFilter::NoFilter {
        let f = choose|f: int|
            0 <= f < ips.len() && (#[trigger] ips[f]) == plan::usable(ips, None)[0] && forall|j: int|
                0 <= j < f ==> !plan::eligible(#[trigger] ips[j], None);
        assert(ips[f] == a.host());
        assert forall|j: int| 0 <= j < f implies !serves(#[trigger] ips[j]) by {
            eligible_means_serving(ips[j], None);
        }
    } else {
        assert forall|j: int| 0 <= j < ips.len() && serves(#[trigger] ips[j]) implies !better(
            ips[j],
            a.host(),
        ) by {
            eligible_means_serving(ips[j], None);
        }
    }
    eligible_means_serving(a.host(), None);
    assert(stands_for(filter, ips, addrs@[n]));
}

/// The address stands for an interface with the addresses `ips`.
pub open spec fn stands_for(filter: KcpLinkFilter, ips: Seq<IpAddr>, a: SocketAddr) -> bool {
    &&& ips.contains(a.host())
    &&& serves(a.host())
    &&& a.port_number() == 0
    &&& if filter == KcpLinkFilter::NoFilter {
        exists|f: int|
            0 <= f < ips.len() && (#[trigger] ips[f]) == a.host() && forall|j: int|
                0 <= j < f ==> !serves(#[trigger] ips[j])
    } else {
        forall|j: int|
            0 <= j < ips.len() && serves(#[trigger] ips[j]) ==> !better(ips[j], a.host())
    }
}

/// No interface has an address that serves.
pub open spec fn nothing_serves(interfaces: Seq<NetworkInterface>) -> bool {
    forall|i: int, k: int|
        0 <= i < interfaces.len() && 0 <= k < (#[trigger] interfaces[i]).addr@.len() ==> !serves(
            #[trigger] interfaces[i].addr@[k],
        )
}

proof fn chosen_come_from_interfaces(
    filter: KcpLinkFilter,
    interfaces: Seq<NetworkInterface>,
    wanted: Option<IpAddr>,
    n: int,
)
    requires
        0 <= n < plan::chosen(filter, interfaces, wanted).len(),
    ensures
        ({
            let a = plan::chosen(filter, interfaces, wanted)[n].1;
            exists|i: int|
                0 <= i < interfaces.len() && (#[trigger] interfaces[i]).addr@.contains(a.host())
                    && plan::eligible(a.host(), wanted)
        }),
    decreases interfaces.len(),
{
    let all = plan::chosen(filter, interfaces, wanted);
    let rest = interfaces.drop_last();
    let front = plan::chosen(filter, rest, wanted);
    let last = interfaces.last();
    let ips = plan::usable(last.addr@, wanted);
    crate::vec_map::place_is_first(front, last.name@);
    if ips.len() > 0 {
        plan::representative_fits(filter, last.addr@, wanted);
    }
    if n < front.len() && all[n] == front[n] {
        chosen_come_from_interfaces(filter, rest, wanted, n);
        let a = front[n].1;
        let i = choose|i: int|
            0 <= i < rest.len() && (#[trigger] rest[i]).addr@.contains(a.host()) && plan::eligible(
                a.host(),
                wanted,
            );
        assert(interfaces[i] == rest[i]);
    } else {
        assert(all[n].1 == plan::representative(filter, ips));
        assert(interfaces[interfaces.len() - 1] == last);
    }
}

proof fn nothing_is_chosen(filter: KcpLinkFilter, interfaces: Seq<NetworkInterface>)
    ensures
        plan::one_each(filter, interfaces, None).len() == 0 <==> nothing_serves(interfaces),
{
    let all = plan::chosen(filter, interfaces, None);
    let addrs = plan::one_each(filter, interfaces, None);
    if addrs.len() > 0 {
        let a = addrs[0];
        plan::distinct_values_members(all, a);
        assert(addrs.contains(a));
        let n = choose|n: int| 0 <= n < all.len() && (#[trigger] all[n]).1 == a;
        chosen_come_from_interfaces(filter, interfaces, None, n);
        let i = choose|i: int|
            0 <= i < interfaces.len() && (#[trigger] interfaces[i]).addr@.contains(a.host())
                && plan::eligible(a.host(), None);
        let k = choose|k: int|
            0 <= k < interfaces[i].addr@.len() && interfaces[i].addr@[k] == a.host();
        eligible_means_serving(a.host(), None);
        assert(serves(interfaces[i].addr@[k]));
    }
    if !nothing_serves(interfaces) {
        let (i, k) = choose|i: int, k: int|
            0 <= i < interfaces.len() && 0 <= k < (#[trigger] interfaces[i]).addr@.len() && serves(
                #[trigger] interfaces[i].addr@[k],
            );
        eligible_means_serving(interfaces[i].addr@[k], None);
        usable_is_found(interfaces[i].addr@, None, k);
        something_is_chosen(filter, interfaces, i);
        plan::distinct_values_members(all, all[0].1);
    }
}

proof fn something_is_chosen(filter: KcpLinkFilter, interfaces: Seq<NetworkInterface>, i: int)
    requires
        0 <= i < interfaces.len(),
        plan::usable(interfaces[i].addr@, None).len() > 0,
    ensures
        plan::chosen(filter, interfaces, None).len() > 0,
    decreases interfaces.len(),
{
    let front = plan::chosen(filter, interfaces.drop_last(), None);
    crate::vec_map::place_is_first(front, interfaces.last().name@);
    if i < interfaces.len() - 1 {
        assert(interfaces.drop_last()[i] == interfaces[i]);
        something_is_chosen(filter, interfaces.drop_last(), i);
    }
}

/// Every local address that is chosen serves and belongs to an interface. If nothing
/// serves, the two unspecified addresses are there instead. The port is always zero.
pub proof fn local_addresses_serve(
    interfaces: &[NetworkInterface],
    filter: KcpLinkFilter,
    addrs: Vec<SocketAddr>,
    n: int,
)
    requires
        call_ensures(plan::filter_local_addresses, (interfaces, filter), addrs),
        0 <= n < addrs@.len(),
    ensures
        addrs@[n].port_number() == 0,
        nothing_serves(interfaces@) ==> addrs@.len() == 2 && addrs@[0].host() == IpAddr::V4(
            Ipv4Addr { bits: 0 },
        ) && addrs@[1].host() == IpAddr::V6(Ipv6Addr { bits: 0 }),
        !nothing_serves(interfaces@) ==> serves(addrs@[n].host()) && exists|i: int|
            0 <= i < interfaces@.len() && (#[trigger] interfaces@[i]).addr@.contains(
                addrs@[n].host(),
            ),
{
    nothing_is_chosen(filter, interfaces@);
    if !nothing_serves(interfaces@) {
        let all = plan::chosen(filter, interfaces@, None);
        plan::distinct_values_members(all, addrs@[n]);
        assert(addrs@.contains(addrs@[n]));
        let m = choose|m: int| 0 <= m < all.len() && (#[trigger] all[m]).1 == addrs@[n];
        plan::chosen_fits(filter, interfaces@, None);
        assert(all[m].1 == addrs@[n]);
        chosen_come_from_interfaces(filter, interfaces@, None, m);
        eligible_means_serving(addrs@[n].host(), None);
    }
}

/// How many of the links lead from the local IP address of `a` to its remote address.
pub open spec fn alongside(links: Seq<Link>, a: Link) -> nat {
    links.filter(|l: Link| l.0.host() == a.0.host() && l.1 == a.1).len()
}

proof fn groups_are_counted(links: Seq<Link>, a: Link)
    ensures
        plan::group_size(links, a) == alongside(links, a),
    decreases links.len(),
{
    reveal(Seq::filter);
    if links.len() > 0 {
        groups_are_counted(links.drop_last(), a);
    }
}

/// No link is planned twice, and at most four lead from one local IP address to one remote
/// address. Without a filter all combinations of local and remote addresses are planned
/// but for those beyond four, and nothing else.
pub proof fn unfiltered_plan(
    filter: KcpLinkFilter,
    locals: &[SocketAddr],
    remotes: &[SocketAddr],
    interfaces: &[NetworkInterface],
    links: Vec<Link>,
    a: Link,
)
    requires
        call_ensures(plan::plan_links, (filter, locals, remotes, interfaces), links),
    ensures
        links@.no_duplicates(),
        alongside(links@, a) <= 4,
        filter == KcpLinkFilter::NoFilter && links@.contains(a) ==> locals@.contains(a.0)
            && remotes@.contains(a.1),
        filter == KcpLinkFilter::NoFilter && locals@.contains(a.0) && remotes@.contains(a.1)
            ==> links@.contains(a) || alongside(links@, a) == 4,
{
    let s = plan::candidates(filter, locals@, remotes@, interfaces@);
    plan::limited_is_fair(s);
    groups_are_counted(links@, a);
    if filter == KcpLinkFilter::NoFilter {
        plan::table_members(locals@, remotes@, a);
    }
}

/// With a filter every planned link leads to one of the remote addresses, from port zero
/// of an address of the same version that serves and belongs to an interface, or from the
/// unspecified address if nothing serves at all.
pub proof fn filtered_links_serve(
    filter: KcpLinkFilter,
    locals: &[SocketAddr],
    remotes: &[SocketAddr],
    interfaces: &[NetworkInterface],
    links: Vec<Link>,
    a: Link,
)
    requires
        filter != KcpLinkFilter::NoFilter,
        call_ensures(plan::plan_links, (filter, locals, remotes, interfaces), links),
        links@.contains(a),
    ensures
        remotes@.contains(a.1),
        a.0.port_number() == 0,
        a.0.host() is V6 <==> a.1.host() is V6,
        if nothing_serves(interfaces@) {
            match a.0.host() {
                IpAddr::V4(ip) => ip.bits == 0,
                IpAddr::V6(ip) => ip.bits == 0,
            }
        } else {
            serves_for(a.0.host(), a.1.host()) && exists|i: int|
                0 <= i < interfaces@.len() && (#[trigger] interfaces@[i]).addr@.contains(
                    a.0.host(),
                )
        },
{
    plan::planned_links_follow_filter(filter, locals@, remotes@, interfaces@, a);
    plan::limited_is_fair(plan::candidates(filter, locals@, remotes@, interfaces@));
    plan::filtered_table_members(
        filter,
        interfaces@,
        plan::linked_remotes(filter, remotes@),
        a,
    );
    plan::locals_fit_remote(filter, interfaces@, a.1.host(), a.0);
    nothing_is_chosen(filter, interfaces@);
    if !nothing_serves(interfaces@) {
        let wanted = Some(a.1.host());
        let all = plan::chosen(filter, interfaces@, wanted);
        plan::distinct_values_members(all, a.0);
        let m = choose|m: int| 0 <= m < all.len() && (#[trigger] all[m]).1 == a.0;
        chosen_come_from_interfaces(filter, interfaces@, wanted, m);
        eligible_means_serving(a.0.host(), wanted);
    }
}

/// With a filter, an interface that has an address of the version of a remote address that
/// serves is linked with it, from an address over which no such address is preferred. With
/// `InterfaceIp` the link may lead to another port at the same IP address.
pub proof fn interfaces_are_linked(
    filter: KcpLinkFilter,
    locals: &[SocketAddr],
    remotes: &[SocketAddr],
    interfaces: &[NetworkInterface],
    links: Vec<Link>,
    i: int,
    k: int,
    remote: SocketAddr,
)
    requires
        filter != KcpLinkFilter::NoFilter,
        call_ensures(plan::plan_links, (filter, locals, remotes, interfaces), links),
        last_of_its_name(interfaces@, i),
        0 <= k < interfaces@[i].addr@.len(),
        serves_for(interfaces@[i].addr@[k], remote.host()),
        remotes@.contains(remote),
    ensures
        exists|n: int|
            0 <= n < links@.len() && links_interface(
                filter,
                interfaces@[i].addr@,
                remote,
                #[trigger] links@[n],
            ),
{
    let ips = interfaces@[i].addr@;
    let wanted = Some(remote.host());
    eligible_means_serving(ips[k], wanted);
    usable_is_found(ips, wanted, k);
    representative_is_best(filter, ips, wanted);
    let ip = plan::preferred(plan::usable(ips, wanted));
    plan::each_interface_is_linked(filter, locals@, remotes@, interfaces@, i, remote);
    let target = choose|target: SocketAddr|
        target.host() == remote.host() && (filter == KcpLinkFilter::InterfaceName ==> target
            == remote) && remotes@.contains(target) && #[trigger] plan::limited(
            plan::candidates(filter, locals@, remotes@, interfaces@),
        ).contains((SocketAddr::of(ip, 0), target));
    let link = (SocketAddr::of(ip, 0), target);
    let n = choose|n: int| 0 <= n < links@.len() && links@[n] == link;
    eligible_means_serving(ip, wanted);
    assert forall|j: int| 0 <= j < ips.len() && serves_for(
        #[trigger] ips[j],
        remote.host(),
    ) implies !better(ips[j], ip) by {
        eligible_means_serving(ips[j], wanted);
    }
    assert(links_interface(filter, ips, remote, links@[n]));
}

/// The link leads from an interface with the addresses `ips` to the remote address.
pub open spec fn links_interface(
    filter: KcpLinkFilter,
    ips: Seq<IpAddr>,
    remote: SocketAddr,
    link: Link,
) -> bool {
    &&& ips.contains(link.0.host())
    &&& serves_for(link.0.host(), remote.host())
    &&& link.1.host() == remote.host()
    &&& filter == KcpLinkFilter::InterfaceName ==> link.1 == remote
    &&& forall|j: int|
        0 <= j < ips.len() && serves_for(#[trigger] ips[j], remote.host()) ==> !better(
            ips[j],
            link.0.host(),
        )
}

proof fn first_at_its_ip(remotes: Seq<SocketAddr>, a: SocketAddr, j: int)
    requires
        plan::one_per_ip(remotes).contains(a),
        0 <= j < remotes.len(),
        remotes[j].host() == a.host(),
    ensures
        exists|i: int| 0 <= i <= j && (#[trigger] remotes[i]) == a,
    decreases remotes.len(),
{
    let rest = remotes.drop_last();
    let front = plan::one_per_ip(rest);
    let all = plan::one_per_ip(remotes);
    let m = choose|m: int| 0 <= m < all.len() && all[m] == a;
    if m < front.len() {
        assert(front[m] == a);
        plan::one_per_ip_members(rest);
        if j < rest.len() {
            first_at_its_ip(rest, a, j);
            let i = choose|i: int| 0 <= i <= j && (#[trigger] rest[i]) == a;
            assert(remotes[i] == a);
        } else {
            assert(front.contains(a));
            let i = choose|i: int| 0 <= i < rest.len() && rest[i] == a;
            assert(remotes[i] == a);
        }
    } else {
        assert(a == remotes.last());
        if j < rest.len() {
            plan::one_per_ip_members(rest);
            assert(rest[j].host() == a.host());
            assert(plan::has_ip(rest, a.host()));
            assert(plan::has_ip(front, a.host()));
        } else {
            assert(remotes[j] == a);
        }
    }
}

/// With `InterfaceIp` there is at most one link from a local address to a remote IP
/// address, and of the remote addresses there it leads to the first.
pub proof fn first_remote_address_counts(
    locals: &[SocketAddr],
    remotes: &[SocketAddr],
    interfaces: &[NetworkInterface],
    links: Vec<Link>,
    a: Link,
    b: Link,
    j: int,
)
    requires
        call_ensures(
            plan::plan_links,
            (KcpLinkFilter::InterfaceIp, locals, remotes, interfaces),
            links,
        ),
        links@.contains(a),
        0 <= j < remotes@.len(),
        remotes@[j].host() == a.1.host(),
    ensures
        exists|i: int| 0 <= i <= j && (#[trigger] remotes@[i]) == a.1,
        links@.contains(b) && a.0 == b.0 && a.1.host() == b.1.host() ==> a == b,
{
    let filter = KcpLinkFilter::InterfaceIp;
    plan::limited_is_fair(plan::candidates(filter, locals@, remotes@, interfaces@));
    plan::filtered_table_members(filter, interfaces@, plan::one_per_ip(remotes@), a);
    first_at_its_ip(remotes@, a.1, j);
    if links@.contains(b) && a.0 == b.0 && a.1.host() == b.1.host() {
        plan::one_link_per_remote_ip(locals@, remotes@, interfaces@, a, b);
    }
}

/// With a filter the connector proposes exactly the links that are planned between the
/// interfaces and its targets, all of them outgoing and none twice.
pub proof fn connector_follows_the_plan(
    c: KcpConnector,
    interfaces: &[NetworkInterface],
    targets: &[SocketAddr],
    locals: &[SocketAddr],
    links: Vec<Link>,
    tags: Vec<KcpLinkTag>,
)
    requires
        c.link_filter() != KcpLinkFilter::NoFilter,
        call_ensures(KcpConnector::targets, (&c,), targets),
        call_ensures(
            plan::plan_links,
            (c.link_filter(), locals, targets, interfaces),
            links,
        ),
        call_ensures(KcpConnector::link_tags, (&c, interfaces), tags),
    ensures
        tags@.no_duplicates(),
        tags@.len() == links@.len(),
        forall|n: int|
            0 <= n < tags@.len() ==> (#[trigger] tags@[n]).direction == Direction::Outgoing
                && tags@[n].local == links@[n].0 && tags@[n].remote == links@[n].1,
{
}

proof fn wild(a: SocketAddr, ip: IpAddr)
    requires
        a == util::unspecified_like(ip),
    ensures
        a.port_number() == 0,
        a.host() is V6 <==> ip is V6,
        match a.host() {
            IpAddr::V4(x) => x.bits == 0,
            IpAddr::V6(x) => x.bits == 0,
        },
{
}

/// Without a filter the connector proposes a link to every target from the unspecified
/// address of its version, at port zero, and no link that does not start from an
/// unspecified address or does not lead to a target.
pub proof fn every_target_is_linked(
    c: KcpConnector,
    interfaces: &[NetworkInterface],
    targets: &[SocketAddr],
    tags: Vec<KcpLinkTag>,
    t: int,
    n: int,
)
    requires
        c.link_filter() == KcpLinkFilter::NoFilter,
        call_ensures(KcpConnector::targets, (&c,), targets),
        call_ensures(KcpConnector::link_tags, (&c, interfaces), tags),
    ensures
        0 <= t < targets@.len() ==> exists|m: int|
            0 <= m < tags@.len() && (#[trigger] tags@[m]).remote == targets@[t] && (
            tags@[m].local.host() is V6 <==> targets@[t].host() is V6),
        0 <= n < tags@.len() ==> {
            &&& tags@[n].direction == Direction::Outgoing
            &&& targets@.contains(tags@[n].remote)
            &&& tags@[n].local.port_number() == 0
            &&& match tags@[n].local.host() {
                IpAddr::V4(x) => x.bits == 0,
                IpAddr::V6(x) => x.bits == 0,
            }
        },
{
    let locals = connector::unspecified_locals(targets@);
    let s = plan::table(locals, targets@);
    let links = plan::limited(s);
    plan::limited_is_fair(s);
    assert(tags@ == connector::outgoing_tags(links));
    if 0 <= n < tags@.len() {
        let link = links[n];
        assert(links.contains(link));
        plan::table_members(locals, targets@, link);
        let k = choose|k: int| 0 <= k < locals.len() && locals[k] == link.0;
        wild(locals[k], targets@[k].host());
    }
    if 0 <= t < targets@.len() {
        let local = util::unspecified_like(targets@[t].host());
        let link = (local, targets@[t]);
        assert(locals[t] == local);
        assert(locals.contains(local) && targets@.contains(targets@[t]));
        plan::table_members(locals, targets@, link);
        assert forall|a: Link| #[trigger] links.contains(a) && plan::same_group(a, link) implies a
            == link by {
            plan::table_members(locals, targets@, a);
            let k = choose|k: int| 0 <= k < locals.len() && locals[k] == a.0;
            wild(locals[k], targets@[k].host());
            wild(local, targets@[t].host());
            assert(a.0 == util::unspecified_like(targets@[k].host()));
        }
        plan::same_group_alike(links, link);
        assert(links.contains(link));
        let m = choose|m: int| 0 <= m < links.len() && links[m] == link;
        assert(tags@[m].remote == targets@[t]);
        wild(local, targets@[t].host());
    }
}

/// A link is bound to its local address exactly if that is specified.
pub proof fn specified_addresses_are_bound(tag: KcpLinkTag, mode: ConnectMode)
    requires
        call_ensures(KcpConnector::connect_mode, (&tag,), mode),
    ensures
        match tag.local.host() {
            IpAddr::V4(a) => mode == ConnectMode::Direct <==> a.bits == 0,
            IpAddr::V6(a) => mode == ConnectMode::Direct <==> a.bits == 0,
        },
        mode matches ConnectMode::Bound(a) ==> a == tag.local,
{
}

/// The set of links has changed exactly if one of the two lists holds a link that the
/// other does not hold. Order and repetition do not count.
pub proof fn changes_are_seen(a: &[KcpLinkTag], b: &[KcpLinkTag], r: bool, back: bool)
    requires
        call_ensures(connector::tags_changed, (a, b), r),
        call_ensures(connector::tags_changed, (b, a), back),
    ensures
        r == back,
        r <==> ((exists|i: int| 0 <= i < a@.len() && !b@.contains(#[trigger] a@[i])) || (exists|
            i: int,
        |
            0 <= i < b@.len() && !a@.contains(#[trigger] b@[i]))),
{
    if r {
        if exists|t: KcpLinkTag| a@.contains(t) && !b@.contains(t) {
            let t = choose|t: KcpLinkTag| a@.contains(t) && !b@.contains(t);
            let i = choose|i: int| 0 <= i < a@.len() && a@[i] == t;
            assert(!b@.contains(a@[i]));
        } else {
            let t = choose|t: KcpLinkTag| b@.contains(t) && !a@.contains(t);
            let i = choose|i: int| 0 <= i < b@.len() && b@[i] == t;
            assert(!a@.contains(b@[i]));
        }
    } else {
        assert forall|i: int| 0 <= i < a@.len() implies b@.contains(#[trigger] a@[i]) by {
            assert(a@.contains(a@[i]));
        }
        assert forall|i: int| 0 <= i < b@.len() implies a@.contains(#[trigger] b@[i]) by {
            assert(b@.contains(b@[i]));
        }
    }
}

/// A target can be reached from an address of the same version that is specified, loopback
/// for loopback.
pub open spec fn leads_to(ip: IpAddr, target: IpAddr) -> bool {
    &&& ip is V6 <==> target is V6
    &&& ip.loopback() == target.loopback()
    &&& match ip {
        IpAddr::V4(a) => a.bits != 0,
        IpAddr::V6(a) => a.bits != 0,
    }
}

proof fn reaching_members(ips: Seq<IpAddr>, target: IpAddr, a: SocketAddr)
    ensures
        util::reaching(ips, target).contains(a) <==> leads_to(a.host(), target) && ips.contains(
            a.host(),
        ) && a == SocketAddr::of(a.host(), 0),
        util::reaching(ips, target).no_duplicates(),
    decreases ips.len(),
{
    if ips.len() > 0 {
        let rest = ips.drop_last();
        let front = util::reaching(rest, target);
        let all = util::reaching(ips, target);
        let last = SocketAddr::of(ips.last(), 0);
        reaching_members(rest, target, a);
        plan::last_member(ips, a.host());
        assert(last.host() == ips.last());
        assert(util::reaches(ips.last(), target) <==> leads_to(ips.last(), target));
        if util::reaches(ips.last(), target) && !front.contains(last) {
            assert(all == front.push(last));
            plan::last_member(all, a);
            assert(all.drop_last() =~= front);
        }
    }
}

proof fn all_ips_members(interfaces: Seq<NetworkInterface>, ip: IpAddr)
    ensures
        util::all_ips(interfaces).contains(ip) <==> exists|i: int|
            0 <= i < interfaces.len() && (#[trigger] interfaces[i]).addr@.contains(ip),
    decreases interfaces.len(),
{
    if interfaces.len() > 0 {
        let rest = interfaces.drop_last();
        let front = util::all_ips(rest);
        let back = interfaces.last().addr@;
        let all = util::all_ips(interfaces);
        all_ips_members(rest, ip);
        assert(interfaces[interfaces.len() - 1] == interfaces.last());
        if all.contains(ip) {
            let k = choose|k: int| 0 <= k < all.len() && all[k] == ip;
            if k < front.len() {
                assert(front[k] == ip);
                let i = choose|i: int|
                    0 <= i < rest.len() && (#[trigger] rest[i]).addr@.contains(ip);
                assert(interfaces[i] == rest[i]);
            } else {
                assert(back[k - front.len()] == ip);
            }
        }
        if exists|i: int|
            0 <= i < interfaces.len() && (#[trigger] interfaces[i]).addr@.contains(ip) {
            let i = choose|i: int|
                0 <= i < interfaces.len() && (#[trigger] interfaces[i]).addr@.contains(ip);
            if i < rest.len() {
                assert(rest[i] == interfaces[i]);
                let k = choose|k: int| 0 <= k < front.len() && front[k] == ip;
                assert(all[k] == ip);
            } else {
                let k = choose|k: int| 0 <= k < back.len() && back[k] == ip;
                assert(all[front.len() + k] == ip);
            }
        }
    }
}

/// The local addresses for a target are those of the interfaces from which it can be
/// reached, each once and at port zero. If there are none, the unspecified address of its
/// version stands for them.
pub proof fn local_addresses_lead_to_the_target(
    interfaces: &[NetworkInterface],
    target: SocketAddr,
    addrs: Vec<SocketAddr>,
    a: SocketAddr,
)
    requires
        call_ensures(util::local_addresses_for_target, (interfaces, target), addrs),
    ensures
        addrs@.no_duplicates(),
        ({
            let there = leads_to(a.host(), target.host()) && a == SocketAddr::of(a.host(), 0)
                && exists|i: int|
                0 <= i < interfaces@.len() && (#[trigger] interfaces@[i]).addr@.contains(a.host());
            &&& there ==> addrs@.contains(a)
            &&& addrs@.contains(a) && !there ==> {
                &&& addrs@.len() == 1
                &&& a.port_number() == 0
                &&& a.host() is V6 <==> target.host() is V6
                &&& match a.host() {
                    IpAddr::V4(x) => x.bits == 0,
                    IpAddr::V6(x) => x.bits == 0,
                }
            }
        }),
{
    let ips = util::all_ips(interfaces@);
    reaching_members(ips, target.host(), a);
    all_ips_members(interfaces@, a.host());
    if util::reaching(ips, target.host()).len() == 0 {
        if addrs@.contains(a) {
            wild(a, target.host());
        }
    }
}

/// A filter has one name, and other names stand for none.
pub proof fn filters_are_named(name: &str, filter: Option<KcpLinkFilter>)
    requires
        call_ensures(crate::kcp::filter::parse_kcp_link_filter, (name,), filter),
    ensures
        filter == Some(KcpLinkFilter::NoFilter) <==> name@ == "none"@,
        filter == Some(KcpLinkFilter::InterfaceIp) <==> name@ == "iface-ip"@,
        filter == Some(KcpLinkFilter::InterfaceName) <==> name@ == "iface-name"@,
{
    reveal_strlit("none");
    reveal_strlit("iface-ip");
    reveal_strlit("iface-name");
    assert("none"@.len() == 4 && "iface-ip"@.len() == 8 && "iface-name"@.len() == 10);
}

/// A connector keeps its targets and its configuration; what is set is used, and filter and
/// interval do not touch each other.
pub proof fn connector_keeps_its_settings(
    cfg: KcpConfig,
    targets: Vec<SocketAddr>,
    created: KcpConnector,
    c1: &mut KcpConnector,
    c2: &mut KcpConnector,
    filter: KcpLinkFilter,
    interval: Duration,
    first: Duration,
    set: Duration,
    kept: &[SocketAddr],
    config: &KcpConfig,
)
    requires
        call_ensures(KcpConnector::new, (cfg, targets), created),
        call_ensures(KcpConnector::resolve_interval, (&created,), first),
        *old(c1) == created,
        call_ensures(KcpConnector::set_filter, (c1, filter), ()),
        *old(c2) == *final(c1),
        call_ensures(KcpConnector::set_resolve_interval, (c2, interval), ()),
        call_ensures(KcpConnector::resolve_interval, (&*final(c2),), set),
        call_ensures(KcpConnector::targets, (&*final(c2),), kept),
        call_ensures(KcpConnector::config, (&*final(c2),), config),
    ensures
        first.nanos == 10 * 1_000_000_000,
        created.link_filter() == KcpLinkFilter::NoFilter,
        final(c1).interval() == first,
        final(c2).link_filter() == filter,
        set == interval,
        kept@ == targets@,
        *config == cfg,
{
}

/// A tag holds the two addresses in their places, and its direction.
pub proof fn tags_keep_their_parts(
    local: SocketAddr,
    remote: SocketAddr,
    incoming: KcpLinkTag,
    outgoing: KcpLinkTag,
    data: Vec<u8>,
)
    requires
        call_ensures(KcpLinkTag::incoming, (local, remote), incoming),
        call_ensures(KcpLinkTag::outgoing, (local, remote), outgoing),
        call_ensures(KcpLinkTag::user_data, (&outgoing,), data),
    ensures
        incoming.local == local && incoming.remote == remote,
        outgoing.local == local && outgoing.remote == remote,
        incoming.direction == Direction::Incoming,
        outgoing.direction == Direction::Outgoing,
        data@.len() == 0,
{
}

/// A preference for one version excludes the other; both cannot be asked for alone.
pub proof fn versions_exclude_each_other(
    v4: bool,
    v6: bool,
    r: Result<IpVersion, InvalidInput>,
    only4: bool,
    only6: bool,
)
    requires
        call_ensures(IpVersion::from_only, (v4, v6), r),
        r matches Ok(v) ==> call_ensures(IpVersion::is_only_ipv4, (&v,), only4) && call_ensures(
            IpVersion::is_only_ipv6,
            (&v,),
            only6,
        ),
    ensures
        r is Err <==> v4 && v6,
        r matches Err(e) ==> e == InvalidInput::MutuallyExclusive,
        r is Ok ==> only4 == v4 && only6 == v6,
{
}

/// Interfaces whose names begin with `ifb` are dropped, and no others; the order stays.
pub proof fn useless_interfaces_are_dropped(
    all: Vec<NetworkInterface>,
    kept: Vec<NetworkInterface>,
)
    requires
        call_ensures(util::local_interfaces, (all,), kept),
    ensures
        kept@ == all@.filter(
            |i: NetworkInterface|
                !(i.name@.len() >= 3 && i.name@[0] == 'i' && i.name@[1] == 'f' && i.name@[2] == 'b'),
        ),
{
    reveal_strlit("ifb");
    let a = |i: NetworkInterface| util::useful(i);
    let b = |i: NetworkInterface|
        !(i.name@.len() >= 3 && i.name@[0] == 'i' && i.name@[1] == 'f' && i.name@[2] == 'b');
    assert("ifb"@ =~= seq!['i', 'f', 'b']);
    assert forall|i: NetworkInterface| #[trigger] a(i) == b(i) by {
        let name = i.name@;
        if name.len() >= 3 {
            let front = name.subrange(0, 3);
            assert(front[0] == name[0] && front[1] == name[1] && front[2] == name[2]);
            if !b(i) {
                assert(front =~= seq!['i', 'f', 'b']);
            }
        }
    }
    assert(a =~= b);
}

/// Two addresses can be connected exactly if they are of the same version, and the
/// unspecified address of a version can be connected with all of that version.
pub proof fn versions_have_to_agree(a: IpAddr, b: IpAddr, r: bool, wild_a: SocketAddr, s: bool)
    requires
        call_ensures(util::is_compatible_ip_version, (a, b), r),
        call_ensures(util::unspecified_for, (a,), wild_a),
        call_ensures(util::is_compatible_ip_version, (wild_a.host(), a), s),
    ensures
        r <==> (a is V4 && b is V4 || a is V6 && b is V6),
        s,
        wild_a.host().unspecified(),
        wild_a.port_number() == 0,
{
}

/// At least one listener is needed.
pub proof fn one_listener_is_needed(n: usize, r: Result<(), InvalidInput>)
    requires
        call_ensures(connector::check_listeners, (n,), r),
    ensures
        r is Ok <==> n > 0,
        r matches Err(e) ==> e == InvalidInput::NoListener,
{
}

/// The interface that is named for an address is the first that has it.
pub proof fn first_interface_with_an_address(
    interfaces: &[NetworkInterface],
    ip: IpAddr,
    name: Vec<u8>,
    i: int,
)
    requires
        call_ensures(util::local_interface_for_ip, (interfaces, ip), Some(name)),
        0 <= i < interfaces@.len(),
        interfaces@[i].addr@.contains(ip),
        forall|j: int| 0 <= j < i ==> !(#[trigger] interfaces@[j]).addr@.contains(ip),
    ensures
        name@ == vstd::utf8::encode_utf8(interfaces@[i].name@),
{
    let k = choose|k: int|
        0 <= k < interfaces@.len() && (#[trigger] interfaces@[k]).addr@.contains(ip) && name@
            == vstd::utf8::encode_utf8(interfaces@[k].name@) && forall|j: int|
            0 <= j < k ==> !(#[trigger] interfaces@[j]).addr@.contains(ip);
    if k < i {
        assert(!interfaces@[k].addr@.contains(ip));
    } else if i < k {
        assert(!interfaces@[i].addr@.contains(ip));
    }
}

/// The addresses of all interfaces are listed: one is there exactly if an interface has it.
pub proof fn addresses_of_all_interfaces(
    interfaces: &[NetworkInterface],
    ips: Vec<IpAddr>,
    ip: IpAddr,
)
    requires
        call_ensures(util::interface_ips, (interfaces,), ips),
    ensures
        ips@.contains(ip) <==> exists|i: int|
            0 <= i < interfaces@.len() && (#[trigger] interfaces@[i]).addr@.contains(ip),
{
    all_ips_members(interfaces@, ip);
}

} // verus!
