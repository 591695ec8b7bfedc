//! What callers can rely on of the choice of network interfaces.
use crate::addr::{IpAddr, SocketAddr};
use crate::agg_udp::interfaces;
use crate::kcp::util::NetworkInterface;
use crate::text;
use crate::udp::connector;
use vstd::prelude::*;

verus! {

/// An address that leads to the target: specified, of the same IP version, and a loopback
/// address exactly if the target is one.
pub open spec fn leads(ip: IpAddr, target: SocketAddr) -> bool {
    match (ip, target.host()) {
        (IpAddr::V4(from), IpAddr::V4(to)) => from.bits != 0 && (from.bits / 0x100_0000 == 127) == (
        to.bits / 0x100_0000 == 127),
        (IpAddr::V6(from), IpAddr::V6(to)) => from.bits != 0 && (from.bits == 1) == (to.bits == 1),
        _ => false,
    }
}

/// The first address of `ips` that leads to the target.
pub open spec fn first_leading(ips: Seq<IpAddr>, target: SocketAddr, i: int) -> bool {
    &&& 0 <= i < ips.len()
    &&& leads(ips[i], target)
    &&& forall|j: int| 0 <= j < i ==> !leads(#[trigger] ips[j], target)
}

/// The name has one of these beginnings, or one of these parts.
pub open spec fn named(
    name: Seq<char>,
    beginnings: Seq<Seq<char>>,
    parts: Seq<Seq<char>>,
) -> bool {
    ||| exists|i: int| 0 <= i < beginnings.len() && (#[trigger] beginnings[i]).is_prefix_of(name)
    ||| exists|i: int, at: int|
        0 <= i < parts.len() && 0 <= at <= name.len() && #[trigger] parts[i].is_prefix_of(
            #[trigger] name.skip(at),
        )
}

proof fn prefix_alike(name: Seq<char>, prefix: Seq<char>)
    ensures
        text::has_prefix(name, prefix) <==> prefix.is_prefix_of(name),
{
    if prefix.len() <= name.len() {
        assert(name.subrange(0, prefix.len() as int) =~= prefix <==> prefix.is_prefix_of(name));
    }
}

proof fn part_alike(name: Seq<char>, part: Seq<char>)
    ensures
        text::has_part(name, part) <==> exists|at: int|
            0 <= at <= name.len() && part.is_prefix_of(#[trigger] name.skip(at)),
{
    if text::has_part(name, part) {
        let at = choose|at: int| text::stands_at(name, part, at);
        assert(name.skip(at).subrange(0, part.len() as int) =~= name.subrange(
            at,
            at + part.len(),
        ));
        assert(part.is_prefix_of(name.skip(at)));
    }
    if exists|at: int| 0 <= at <= name.len() && part.is_prefix_of(#[trigger] name.skip(at)) {
        let at = choose|at: int| 0 <= at <= name.len() && part.is_prefix_of(#[trigger] name.skip(at));
        assert(name.subrange(at, at + part.len()) =~= name.skip(at).subrange(
            0,
            part.len() as int,
        ));
        assert(text::stands_at(name, part, at));
    }
}

proof fn suitable_alike(ips: Seq<IpAddr>, target: SocketAddr)
    ensures
        connector::first_suitable(ips, target) is Some <==> exists|i: int|
            0 <= i < ips.len() && leads(#[trigger] ips[i], target),
        forall|i: int| #[trigger]
            first_leading(ips, target, i) ==> connector::first_suitable(ips, target) == Some(ips[i]),
    decreases ips.len(),
{
    if ips.len() > 0 {
        let rest = ips.drop_first();
        suitable_alike(rest, target);
        assert(connector::suitable(ips[0], target) <==> leads(ips[0], target));
        if exists|i: int| 0 <= i < rest.len() && leads(#[trigger] rest[i], target) {
            let i = choose|i: int| 0 <= i < rest.len() && leads(#[trigger] rest[i], target);
            assert(ips[i + 1] == rest[i]);
        }
        if exists|i: int| 0 <= i < ips.len() && leads(#[trigger] ips[i], target) {
            let i = choose|i: int| 0 <= i < ips.len() && leads(#[trigger] ips[i], target);
            if i > 0 {
                assert(rest[i - 1] == ips[i]);
            }
        }
        assert forall|i: int| #[trigger]
            first_leading(ips, target, i) implies connector::first_suitable(ips, target) == Some(
            ips[i],
        ) by {
            if i > 0 {
                assert(!leads(ips[0], target));
                assert forall|j: int| 0 <= j < i - 1 implies !leads(#[trigger] rest[j], target) by {
                    assert(rest[j] == ips[j + 1]);
                }
                assert(first_leading(rest, target, i - 1));
            }
        }
    }
}

proof fn names_alike(name: Seq<char>)
    ensures
        interfaces::physical_name(name) <==> named(
            name,
            seq!["eth"@, "en"@, "wlan"@, "ppp"@, "ww"@],
            seq!["cellular"@, "mobile"@],
        ),
        interfaces::tunnel_name(name) <==> named(
            name,
            seq!["wg"@, "zt"@, "utun"@, "tap"@, "tun"@],
            seq!["vpn"@],
        ),
        interfaces::virtual_name(name) <==> named(
            name,
            seq![
                "lo"@,
                "docker"@,
                "br-"@,
                "veth"@,
                "tun"@,
                "tap"@,
                "vmnet"@,
                "vboxnet"@,
            ],
            Seq::empty(),
        ),
{
    let physical = seq!["eth"@, "en"@, "wlan"@, "ppp"@, "ww"@];
    let cellular = seq!["cellular"@, "mobile"@];
    let tunnel = seq!["wg"@, "zt"@, "utun"@, "tap"@, "tun"@];
    let vpn = seq!["vpn"@];
    let unreal = seq![
        "lo"@,
        "docker"@,
        "br-"@,
        "veth"@,
        "tun"@,
        "tap"@,
        "vmnet"@,
        "vboxnet"@,
    ];
    assert forall|i: int| 0 <= i < physical.len() implies (text::has_prefix(
        name,
        #[trigger] physical[i],
    ) <==> physical[i].is_prefix_of(name)) by {
        prefix_alike(name, physical[i]);
    }
    assert forall|i: int| 0 <= i < tunnel.len() implies (text::has_prefix(name, #[trigger] tunnel[i])
        <==> tunnel[i].is_prefix_of(name)) by {
        prefix_alike(name, tunnel[i]);
    }
    assert forall|i: int| 0 <= i < unreal.len() implies (text::has_prefix(name, #[trigger] unreal[i])
        <==> unreal[i].is_prefix_of(name)) by {
        prefix_alike(name, unreal[i]);
    }
    part_alike(name, "cellular"@);
    part_alike(name, "mobile"@);
    part_alike(name, "vpn"@);
    assert(physical[0] == "eth"@ && physical[1] == "en"@ && physical[2] == "wlan"@ && physical[3]
        == "ppp"@ && physical[4] == "ww"@);
    assert(cellular[0] == "cellular"@ && cellular[1] == "mobile"@);
    assert(tunnel[0] == "wg"@ && tunnel[1] == "zt"@ && tunnel[2] == "utun"@ && tunnel[3] == "tap"@
        && tunnel[4] == "tun"@);
    assert(vpn[0] == "vpn"@);
    assert(unreal[0] == "lo"@ && unreal[1] == "docker"@ && unreal[2] == "br-"@ && unreal[3]
        == "veth"@ && unreal[4] == "tun"@ && unreal[5] == "tap"@ && unreal[6] == "vmnet"@
        && unreal[7] == "vboxnet"@);
}

/// An interface with an address that leads to a target, and with the name of an Ethernet,
/// WiFi, dial-up or cellular interface, reaches that target, unless the target is public
/// and the name is that of a tunnel.
pub proof fn physical_interfaces_reach_targets(
    interface: &NetworkInterface,
    target: SocketAddr,
    r: bool,
    i: int,
)
    requires
        call_ensures(interfaces::interface_can_reach_target, (interface, target), r),
        0 <= i < interface.addr@.len(),
        leads(interface.addr@[i], target),
        named(
            interface.name@,
            seq!["eth"@, "en"@, "wlan"@, "ppp"@, "ww"@],
            seq!["cellular"@, "mobile"@],
        ),
        !named(
            interface.name@,
            seq!["wg"@, "zt"@, "utun"@, "tap"@, "tun"@],
            seq!["vpn"@],
        ),
    ensures
        r,
{
    suitable_alike(interface.addr@, target);
    names_alike(interface.name@);
}

/// The IP address is one that every host on the Internet can have: for IPv4 neither
/// loopback nor private nor link-local nor multicast nor the broadcast address, for IPv6
/// neither loopback nor unique local nor multicast.
pub open spec fn on_the_internet(ip: IpAddr) -> bool {
    match ip {
        IpAddr::V4(a) => {
            let first = a.bits / 0x100_0000;
            let two = a.bits / 0x1_0000;
            &&& first != 127
            &&& first != 10
            &&& !(172 * 0x100 + 16 <= two <= 172 * 0x100 + 31)
            &&& two != 192 * 0x100 + 168
            &&& two != 169 * 0x100 + 254
            &&& !(224 <= first <= 239)
            &&& a.bits != 0xFFFF_FFFF
        },
        IpAddr::V6(a) => {
            let first = a.bits / 0x1_0000_0000_0000_0000_0000_0000_0000;
            &&& a.bits != 1
            &&& !(0xFC00 <= first <= 0xFDFF)
            &&& first < 0xFF00
        },
    }
}

/// The IP address belongs to this machine or to a local network.
pub open spec fn nearby(ip: IpAddr) -> bool {
    match ip {
        IpAddr::V4(a) => {
            let first = a.bits / 0x100_0000;
            let two = a.bits / 0x1_0000;
            ||| first == 127
            ||| first == 10
            ||| 172 * 0x100 + 16 <= two <= 172 * 0x100 + 31
            ||| two == 192 * 0x100 + 168
            ||| two == 169 * 0x100 + 254
        },
        IpAddr::V6(a) => {
            let first = a.bits / 0x1_0000_0000_0000_0000_0000_0000_0000;
            ||| a.bits == 1
            ||| 0xFC00 <= first <= 0xFDFF
            ||| 0xFE80 <= first <= 0xFEBF
        },
    }
}

proof fn classes_alike(ip: IpAddr)
    ensures
        interfaces::public_ip(ip) == on_the_internet(ip),
        interfaces::local_ip(ip) == nearby(ip),
{
    if let IpAddr::V4(a) = ip {
        let bits = a.bits;
        assert(bits / 0x10_0000 == (bits / 0x1_0000) / 0x10);
        assert(bits / 0x1000_0000 == (bits / 0x100_0000) / 0x10);
    }
}

/// When an interface does not reach a target: without an address that leads there; through
/// a tunnel if the target is on the Internet; and if it is not physical, unless the target
/// is nearby. In all other cases it does.
pub proof fn reaching_a_target(
    interface: &NetworkInterface,
    target: SocketAddr,
    r: bool,
)
    requires
        call_ensures(interfaces::interface_can_reach_target, (interface, target), r),
    ensures
        r <==> {
            &&& exists|i: int|
                0 <= i < interface.addr@.len() && leads(#[trigger] interface.addr@[i], target)
            &&& !(on_the_internet(target.host()) && named(
                interface.name@,
                seq!["wg"@, "zt"@, "utun"@, "tap"@, "tun"@],
                seq!["vpn"@],
            ))
            &&& named(
                interface.name@,
                seq!["eth"@, "en"@, "wlan"@, "ppp"@, "ww"@],
                seq!["cellular"@, "mobile"@],
            ) || nearby(target.host())
        },
{
    suitable_alike(interface.addr@, target);
    names_alike(interface.name@);
    classes_alike(target.host());
}

/// An interface is suitable if its name is not that of a virtual one, and it has an IPv4
/// address and an address that is not a loopback address.
pub proof fn suitable_interfaces(interface: &NetworkInterface, r: bool)
    requires
        call_ensures(interfaces::is_suitable_interface, (interface,), r),
    ensures
        r <==> {
            &&& !named(
                interface.name@,
                seq![
                    "lo"@,
                    "docker"@,
                    "br-"@,
                    "veth"@,
                    "tun"@,
                    "tap"@,
                    "vmnet"@,
                    "vboxnet"@,
                ],
                Seq::empty(),
            )
            &&& exists|i: int|
                0 <= i < interface.addr@.len() && (#[trigger] interface.addr@[i]) is V4
            &&& exists|i: int|
                0 <= i < interface.addr@.len() && match #[trigger] interface.addr@[i] {
                    IpAddr::V4(a) => a.bits / 0x100_0000 != 127,
                    IpAddr::V6(a) => a.bits != 1,
                }
        },
{
    names_alike(interface.name@);
    let ips = interface.addr@;
    assert forall|i: int| 0 <= i < ips.len() implies (!(#[trigger] ips[i]).loopback() <==> match ips[i] {
        IpAddr::V4(a) => a.bits / 0x100_0000 != 127,
        IpAddr::V6(a) => a.bits != 1,
    }) by {}
    if exists|i: int|
        0 <= i < ips.len() && match #[trigger] ips[i] {
            IpAddr::V4(a) => a.bits / 0x100_0000 != 127,
            IpAddr::V6(a) => a.bits != 1,
        } {
        let i = choose|i: int|
            0 <= i < ips.len() && match #[trigger] ips[i] {
                IpAddr::V4(a) => a.bits / 0x100_0000 != 127,
                IpAddr::V6(a) => a.bits != 1,
            };
        assert(!ips[i].loopback());
    }
    if exists|i: int| 0 <= i < ips.len() && !(#[trigger] ips[i]).loopback() {
        let i = choose|i: int| 0 <= i < ips.len() && !(#[trigger] ips[i]).loopback();
        assert(match ips[i] {
            IpAddr::V4(a) => a.bits / 0x100_0000 != 127,
            IpAddr::V6(a) => a.bits != 1,
        });
    }
}

/// A connection to a target starts from the first address of the interface that leads
/// there, with any port; without one there is an error that names the interface.
pub proof fn connections_start_from_leading_addresses(
    interface: &NetworkInterface,
    target: SocketAddr,
    r: Result<SocketAddr, String>,
    i: int,
)
    requires
        call_ensures(interfaces::connection_source, (interface, target), r),
    ensures
        first_leading(interface.addr@, target, i) ==> (r matches Ok(source) && source.host()
            == interface.addr@[i] && source.port_number() == 0),
        r is Ok <==> exists|j: int|
            0 <= j < interface.addr@.len() && leads(#[trigger] interface.addr@[j], target),
{
    suitable_alike(interface.addr@, target);
}

/// In force mode every suitable interface is connected to every target, and nothing else.
pub proof fn force_mode_connects_everything(
    all: &[NetworkInterface],
    targets: &[SocketAddr],
    r: Result<Vec<(usize, SocketAddr)>, String>,
    i: usize,
    target: SocketAddr,
    suited: bool,
)
    requires
        call_ensures(interfaces::plan_connections, (all, targets, true), r),
        i < all@.len(),
        call_ensures(interfaces::is_suitable_interface, (&all@[i as int],), suited),
    ensures
        r matches Ok(plan) && (plan@.contains((i, target)) <==> suited && targets@.contains(target)),
{
    let keep = |n: NetworkInterface| interfaces::suitable(n);
    let places = interfaces::kept_places(all@, keep, all@.len());
    kept_by_place(all@, keep, all@.len(), i as int);
    interfaces::kept_places_are_right(all@, keep, all@.len());
    places_below(all@, keep, all@.len());
    attempts_members(all@, places, targets@, true, i as int, target);
    let plan = r->Ok_0@;
    as_attempts_members(plan, i, target);
}

/// Otherwise only a suitable interface is connected, to targets that it reaches, and at most
/// four interfaces are. A suitable interface that reaches a target is connected to every
/// target it reaches, unless four interfaces before it are connected. It is an error if no
/// suitable interface reaches a target.
pub proof fn planned_connections_reach_their_targets(
    all: &[NetworkInterface],
    targets: &[SocketAddr],
    r: Result<Vec<(usize, SocketAddr)>, String>,
    i: usize,
    target: SocketAddr,
    suited: bool,
    reached: bool,
)
    requires
        call_ensures(interfaces::plan_connections, (all, targets, false), r),
        i < all@.len(),
        call_ensures(interfaces::is_suitable_interface, (&all@[i as int],), suited),
        call_ensures(
            interfaces::interface_can_reach_target,
            (&all@[i as int], target),
            reached,
        ),
    ensures
        r matches Ok(plan) && plan@.contains((i, target)) ==> suited && reached && targets@.contains(
            target,
        ),
        suited && reached && targets@.contains(target) ==> (r matches Ok(plan) && (plan@.contains(
            (i, target),
        ) || exists|first: Seq<int>| #[trigger]
            four_before(plan@, first, i as int))),
        r matches Err(message) ==> message@ == "No usable network interfaces found for targets"@,
{
    let keep = |n: NetworkInterface| interfaces::usable_for(n, targets@);
    let places = interfaces::kept_places(all@, keep, 4);
    interfaces::kept_places_are_right(all@, keep, 4);
    places_below(all@, keep, 4);
    if r is Ok {
        let plan = r->Ok_0@;
        attempts_members(all@, places, targets@, false, i as int, target);
        as_attempts_members(plan, i, target);
        filter_members(all@[i as int], targets@, target);
    }
    if suited && reached && targets@.contains(target) {
        let t = choose|t: int| 0 <= t < targets@.len() && targets@[t] == target;
        assert(interfaces::can_reach(all@[i as int], targets@[t]));
        assert(keep(all@[i as int]));
        first_are_kept(all@, keep, 4, i as int);
        filter_members(all@[i as int], targets@, target);
        if !places.contains(i as int) {
            let plan = r->Ok_0@;
            assert forall|k: int| 0 <= k < 4 implies #[trigger] connected(plan, places[k]) by {
                let p = places[k];
                assert(keep(all@[p]));
                let g = choose|g: int|
                    0 <= g < targets@.len() && interfaces::can_reach(all@[p], #[trigger] targets@[g]);
                filter_members(all@[p], targets@, targets@[g]);
                attempts_members(all@, places, targets@, false, p, targets@[g]);
                as_attempts_members(plan, p as usize, targets@[g]);
                assert(plan.contains((places[k] as usize, targets@[g])));
            }
            assert(four_before(plan, places, i as int));
        }
    }
}

/// Four interfaces before the one at `i` are connected.
pub open spec fn four_before(plan: Seq<(usize, SocketAddr)>, first: Seq<int>, i: int) -> bool {
    &&& first.len() == 4
    &&& 0 <= first[0] < first[1] < first[2] < first[3] < i
    &&& forall|k: int| 0 <= k < 4 ==> #[trigger] connected(plan, first[k])
}

/// The interface at `place` is connected to some target.
pub open spec fn connected(plan: Seq<(usize, SocketAddr)>, place: int) -> bool {
    exists|goal: SocketAddr| #[trigger] plan.contains((place as usize, goal))
}

/// No more than four interfaces are connected, unless in force mode.
pub proof fn at_most_four_interfaces(
    all: &[NetworkInterface],
    targets: &[SocketAddr],
    r: Result<Vec<(usize, SocketAddr)>, String>,
    used: Set<int>,
)
    requires
        call_ensures(interfaces::plan_connections, (all, targets, false), r),
        r matches Ok(plan) ==> used == plan@.map_values(|a: (usize, SocketAddr)| a.0 as int).to_set(),
    ensures
        r is Ok ==> used.finite() && used.len() <= 4,
{
    let keep = |n: NetworkInterface| interfaces::usable_for(n, targets@);
    let places = interfaces::kept_places(all@, keep, 4);
    interfaces::kept_places_are_right(all@, keep, 4);
    places_below(all@, keep, 4);
    if r is Ok {
        let plan = r->Ok_0@;
        let firsts = plan.map_values(|a: (usize, SocketAddr)| a.0 as int);
        assert forall|p: int| #[trigger] used.contains(p) implies places.to_set().contains(p) by {
            let k = choose|k: int| 0 <= k < firsts.len() && firsts[k] == p;
            assert(plan.contains(plan[k]));
            as_attempts_members(plan, plan[k].0, plan[k].1);
            attempts_members(all@, places, targets@, false, p, plan[k].1);
        }
        vstd::seq_lib::seq_to_set_is_finite(places);
        vstd::set_lib::lemma_len_subset(used, places.to_set());
        places.lemma_cardinality_of_set();
    }
}

proof fn filter_members(interface: NetworkInterface, targets: Seq<SocketAddr>, target: SocketAddr)
    ensures
        interfaces::reachable(interface, targets).contains(target) <==> targets.contains(target)
            && interfaces::can_reach(interface, target),
    decreases targets.len(),
{
    reveal(Seq::filter);
    if targets.len() > 0 {
        let rest = targets.drop_last();
        let last = targets.last();
        filter_members(interface, rest, target);
        push_members(rest, last, target);
        assert(rest.push(last) =~= targets);
        push_members(interfaces::reachable(interface, rest), last, target);
    }
}

proof fn push_members<A>(s: Seq<A>, last: A, a: A)
    ensures
        s.push(last).contains(a) <==> s.contains(a) || a == last,
{
    let all = s.push(last);
    assert(all[s.len() as int] == last);
    if s.contains(a) {
        let i = choose|i: int| 0 <= i < s.len() && s[i] == a;
        assert(all[i] == a);
    }
    if all.contains(a) {
        let i = choose|i: int| 0 <= i < all.len() && all[i] == a;
        if i < s.len() {
            assert(s[i] == a);
        }
    }
}

proof fn as_attempts_members(plan: Seq<(usize, SocketAddr)>, i: usize, target: SocketAddr)
    ensures
        plan.contains((i, target)) <==> interfaces::as_attempts(plan).contains((i as int, target)),
{
    let mapped = interfaces::as_attempts(plan);
    if plan.contains((i, target)) {
        let k = choose|k: int| 0 <= k < plan.len() && plan[k] == (i, target);
        assert(mapped[k] == (i as int, target));
    }
    if mapped.contains((i as int, target)) {
        let k = choose|k: int| 0 <= k < mapped.len() && mapped[k] == (i as int, target);
        assert(plan[k] == (i, target));
    }
}

proof fn attempts_members(
    all: Seq<NetworkInterface>,
    places: Seq<int>,
    targets: Seq<SocketAddr>,
    force: bool,
    i: int,
    target: SocketAddr,
)
    ensures
        interfaces::attempts(all, places, targets, force).contains((i, target)) <==> places.contains(
            i,
        ) && interfaces::tried(all[i], targets, force).contains(target),
    decreases places.len(),
{
    if places.len() > 0 {
        let rest = places.drop_last();
        let from = places.last();
        attempts_members(all, rest, targets, force, i, target);
        push_members(rest, from, i);
        assert(rest.push(from) =~= places);
        let front = interfaces::attempts(all, rest, targets, force);
        let tried = interfaces::tried(all[from], targets, force);
        let back = tried.map_values(|t: SocketAddr| (from, t));
        let whole = front + back;
        assert(back.contains((i, target)) <==> i == from && tried.contains(target)) by {
            if back.contains((i, target)) {
                let k = choose|k: int| 0 <= k < back.len() && back[k] == (i, target);
                assert(tried[k] == target);
            }
            if i == from && tried.contains(target) {
                let k = choose|k: int| 0 <= k < tried.len() && tried[k] == target;
                assert(back[k] == (i, target));
            }
        }
        if front.contains((i, target)) {
            let k = choose|k: int| 0 <= k < front.len() && front[k] == (i, target);
            assert(whole[k] == (i, target));
        }
        if back.contains((i, target)) {
            let k = choose|k: int| 0 <= k < back.len() && back[k] == (i, target);
            assert(whole[front.len() + k] == (i, target));
        }
        if whole.contains((i, target)) {
            let k = choose|k: int| 0 <= k < whole.len() && whole[k] == (i, target);
            if k < front.len() {
                assert(front[k] == (i, target));
            } else {
                assert(back[k - front.len()] == (i, target));
            }
        }
    }
}

proof fn places_below(
    all: Seq<NetworkInterface>,
    keep: spec_fn(NetworkInterface) -> bool,
    limit: nat,
)
    ensures
        ({
            let places = interfaces::kept_places(all, keep, limit);
            &&& places.len() <= all.len()
            &&& places.len() <= limit
            &&& forall|k: int| 0 <= k < places.len() ==> 0 <= #[trigger] places[k] < all.len()
            &&& forall|k: int, l: int| 0 <= k < l < places.len() ==> places[k] < places[l]
        }),
    decreases all.len(),
{
    if all.len() > 0 {
        places_below(all.drop_last(), keep, limit);
    }
}

proof fn kept_by_place(
    all: Seq<NetworkInterface>,
    keep: spec_fn(NetworkInterface) -> bool,
    limit: nat,
    i: int,
)
    requires
        limit >= all.len(),
        0 <= i < all.len(),
    ensures
        interfaces::kept_places(all, keep, limit).contains(i) <==> keep(all[i]),
    decreases all.len(),
{
    let rest = all.drop_last();
    let front = interfaces::kept_places(rest, keep, limit);
    places_below(rest, keep, limit);
    push_members(front, all.len() - 1, i);
    if i < rest.len() {
        kept_by_place(rest, keep, limit, i);
        assert(rest[i] == all[i]);
    } else if front.contains(i) {
        let k = choose|k: int| 0 <= k < front.len() && front[k] == i;
    }
}

proof fn first_are_kept(
    all: Seq<NetworkInterface>,
    keep: spec_fn(NetworkInterface) -> bool,
    limit: nat,
    i: int,
)
    requires
        0 <= i < all.len(),
        keep(all[i]),
    ensures
        ({
            let places = interfaces::kept_places(all, keep, limit);
            places.contains(i) || places.len() == limit && forall|k: int|
                0 <= k < places.len() ==> #[trigger] places[k] < i
        }),
    decreases all.len(),
{
    let rest = all.drop_last();
    let front = interfaces::kept_places(rest, keep, limit);
    let places = interfaces::kept_places(all, keep, limit);
    places_below(rest, keep, limit);
    push_members(front, all.len() - 1, i);
    if i < rest.len() {
        assert(rest[i] == all[i]);
        first_are_kept(rest, keep, limit, i);
    }
}

/// The interface reaches the target, by its name and addresses.
pub open spec fn arrives(interface: NetworkInterface, target: SocketAddr) -> bool {
    &&& exists|i: int|
        0 <= i < interface.addr@.len() && leads(#[trigger] interface.addr@[i], target)
    &&& !(on_the_internet(target.host()) && named(
        interface.name@,
        seq!["wg"@, "zt"@, "utun"@, "tap"@, "tun"@],
        seq!["vpn"@],
    ))
    &&& named(
        interface.name@,
        seq!["eth"@, "en"@, "wlan"@, "ppp"@, "ww"@],
        seq!["cellular"@, "mobile"@],
    ) || nearby(target.host())
}

/// The targets that an interface reaches are kept, in their order, and no others.
pub proof fn reached_targets_are_kept(
    interface: &NetworkInterface,
    targets: &[SocketAddr],
    r: Vec<SocketAddr>,
)
    requires
        call_ensures(interfaces::reachable_targets, (interface, targets), r),
    ensures
        r@ == targets@.filter(|t: SocketAddr| arrives(*interface, t)),
{
    let a = |t: SocketAddr| arrives(*interface, t);
    let b = |t: SocketAddr| interfaces::can_reach(*interface, t);
    assert forall|t: SocketAddr| #[trigger] a(t) == b(t) by {
        suitable_alike(interface.addr@, t);
        names_alike(interface.name@);
        classes_alike(t.host());
    }
    assert(a =~= b);
}

/// In force mode exactly the suitable interfaces are used, in their order.
pub proof fn suitable_interfaces_are_forced(
    all: &[NetworkInterface],
    chosen: Vec<usize>,
    i: usize,
    suited: bool,
)
    requires
        call_ensures(interfaces::force_interfaces, (all,), chosen),
        i < all@.len(),
        call_ensures(interfaces::is_suitable_interface, (&all@[i as int],), suited),
    ensures
        chosen@.contains(i) <==> suited,
        forall|k: int, l: int| 0 <= k < l < chosen@.len() ==> chosen@[k] < chosen@[l],
{
    let keep = |n: NetworkInterface| interfaces::suitable(n);
    kept_by_place(all@, keep, all@.len(), i as int);
    places_below(all@, keep, all@.len());
    places_members(chosen@, i);
    places_ascend(chosen@, interfaces::kept_places(all@, keep, all@.len()));
}

proof fn places_ascend(places: Seq<usize>, whole: Seq<int>)
    requires
        interfaces::as_ints(places) == whole,
        forall|k: int, l: int| 0 <= k < l < whole.len() ==> whole[k] < whole[l],
    ensures
        forall|k: int, l: int| 0 <= k < l < places.len() ==> places[k] < places[l],
{
    assert forall|k: int, l: int| 0 <= k < l < places.len() implies places[k] < places[l] by {
        assert(whole[k] == places[k] && whole[l] == places[l]);
    }
}

proof fn places_members(places: Seq<usize>, i: usize)
    ensures
        places.contains(i) <==> interfaces::as_ints(places).contains(i as int),
{
    let whole = interfaces::as_ints(places);
    if places.contains(i) {
        let k = choose|k: int| 0 <= k < places.len() && places[k] == i;
        assert(whole[k] == i);
    }
    if whole.contains(i as int) {
        let k = choose|k: int| 0 <= k < whole.len() && whole[k] == i;
        assert(places[k] == i);
    }
}

/// For targets at most four interfaces are used, in their order: suitable ones that reach
/// one of the targets. Such an interface is left out only if four before it are used, and
/// there is an error only if there is none.
pub proof fn four_interfaces_are_used(
    all: &[NetworkInterface],
    targets: &[SocketAddr],
    r: Result<Vec<usize>, String>,
    i: usize,
    suited: bool,
)
    requires
        call_ensures(interfaces::get_usable_interfaces_for_targets, (all, targets), r),
        i < all@.len(),
        call_ensures(interfaces::is_suitable_interface, (&all@[i as int],), suited),
    ensures
        r matches Ok(chosen) ==> {
            &&& 0 < chosen@.len() <= 4
            &&& forall|k: int, l: int| 0 <= k < l < chosen@.len() ==> chosen@[k] < chosen@[l]
            &&& chosen@.contains(i) ==> suited && exists|t: int|
                0 <= t < targets@.len() && arrives(all@[i as int], #[trigger] targets@[t])
        },
        suited && (exists|t: int|
            0 <= t < targets@.len() && arrives(all@[i as int], #[trigger] targets@[t])) ==> (
        r matches Ok(chosen) && (chosen@.contains(i) || chosen@.len() == 4 && forall|k: int|
            0 <= k < 4 ==> #[trigger] chosen@[k] < i)),
{
    let keep = |n: NetworkInterface| interfaces::usable_for(n, targets@);
    let places = interfaces::kept_places(all@, keep, 4);
    let this = all@[i as int];
    interfaces::kept_places_are_right(all@, keep, 4);
    places_below(all@, keep, 4);
    assert forall|t: int| 0 <= t < targets@.len() implies (arrives(this, #[trigger] targets@[t])
        <==> interfaces::can_reach(this, targets@[t])) by {
        suitable_alike(this.addr@, targets@[t]);
        names_alike(this.name@);
        classes_alike(targets@[t].host());
    }
    if r is Ok {
        let chosen = r->Ok_0@;
        places_members(chosen, i);
        places_ascend(chosen, places);
        if chosen.contains(i) {
            let k = choose|k: int| 0 <= k < places.len() && places[k] == i;
            assert(keep(all@[places[k]]));
            let g = choose|g: int|
                0 <= g < targets@.len() && interfaces::can_reach(this, #[trigger] targets@[g]);
            assert(arrives(this, targets@[g]));
        }
    }
    if suited && exists|t: int|
        0 <= t < targets@.len() && arrives(this, #[trigger] targets@[t]) {
        let g = choose|g: int| 0 <= g < targets@.len() && arrives(this, #[trigger] targets@[g]);
        assert(interfaces::can_reach(this, targets@[g]));
        assert(keep(this));
        first_are_kept(all@, keep, 4, i as int);
        if r is Ok && !r->Ok_0@.contains(i) {
            let chosen = r->Ok_0@;
            assert forall|k: int| 0 <= k < 4 implies #[trigger] chosen[k] < i by {
                assert(places[k] == chosen[k]);
            }
        }
    }
}

/// Connections count as established exactly if there is one.
pub proof fn one_connection_suffices(n: usize, force: bool, r: Result<(), &'static str>)
    requires
        call_ensures(interfaces::check_established, (n, force), r),
    ensures
        r is Ok <==> n > 0,
{
}

/// The name of a connection begins with that of its interface and ends with that of its
/// target, so over one interface different targets have different names.
pub proof fn connections_are_named(
    interface: &str,
    a: &str,
    b: &str,
    key_a: String,
    key_b: String,
)
    requires
        call_ensures(interfaces::connection_key, (interface, a), key_a),
        call_ensures(interfaces::connection_key, (interface, b), key_b),
    ensures
        key_a@ == key_b@ <==> a@ == b@,
        key_a@.len() == interface@.len() + 1 + a@.len(),
        key_a@.take(interface@.len() as int) == interface@,
        key_a@[interface@.len() as int] == '_',
        key_a@.skip(interface@.len() as int + 1) == a@,
{
    reveal_strlit("_");
    let n = interface@.len() as int;
    assert(key_a@.take(n) =~= interface@);
    assert(key_a@.skip(n + 1) =~= a@);
    assert(key_b@.skip(n + 1) =~= b@);
}

proof fn attempts_ascend(
    all: Seq<NetworkInterface>,
    places: Seq<int>,
    targets: Seq<SocketAddr>,
    force: bool,
)
    requires
        forall|k: int, l: int| 0 <= k < l < places.len() ==> places[k] < places[l],
    ensures
        forall|k: int, l: int|
            0 <= k < l < interfaces::attempts(all, places, targets, force).len() ==> (
            #[trigger] interfaces::attempts(all, places, targets, force)[k]).0 <= (
            #[trigger] interfaces::attempts(all, places, targets, force)[l]).0,
    decreases places.len(),
{
    if places.len() > 0 {
        let rest = places.drop_last();
        let from = places.last();
        let front = interfaces::attempts(all, rest, targets, force);
        let whole = interfaces::attempts(all, places, targets, force);
        assert forall|k: int, l: int| 0 <= k < l < rest.len() implies rest[k] < rest[l] by {
            assert(rest[k] == places[k] && rest[l] == places[l]);
        }
        attempts_ascend(all, rest, targets, force);
        assert forall|k: int| 0 <= k < whole.len() implies (#[trigger] whole[k]).0 <= from && (
        k >= front.len() ==> whole[k].0 == from) by {
            if k < front.len() {
                assert(front[k] == whole[k]);
                assert(front.contains(front[k]));
                attempts_members(all, rest, targets, force, front[k].0, front[k].1);
                let n = choose|n: int| 0 <= n < rest.len() && rest[n] == front[k].0;
                assert(places[n] < places[places.len() - 1]);
            }
        }
        assert forall|k: int, l: int| 0 <= k < l < whole.len() implies (#[trigger] whole[k]).0 <= (
        #[trigger] whole[l]).0 by {
            if l < front.len() {
                assert(front[k] == whole[k] && front[l] == whole[l]);
            }
        }
    }
}

/// Connections are tried interface by interface, in the order of the interfaces.
pub proof fn interfaces_are_tried_in_order(
    all: &[NetworkInterface],
    targets: &[SocketAddr],
    force: bool,
    r: Result<Vec<(usize, SocketAddr)>, String>,
    k: int,
    l: int,
)
    requires
        call_ensures(interfaces::plan_connections, (all, targets, force), r),
    ensures
        r matches Ok(plan) ==> (0 <= k < l < plan@.len() ==> plan@[k].0 <= plan@[l].0),
{
    let suited = |n: NetworkInterface| interfaces::suitable(n);
    let fit = |n: NetworkInterface| interfaces::usable_for(n, targets@);
    if r is Ok {
        let plan = r->Ok_0@;
        let places = if force {
            interfaces::kept_places(all@, suited, all@.len())
        } else {
            interfaces::kept_places(all@, fit, 4)
        };
        places_below(all@, suited, all@.len());
        places_below(all@, fit, 4);
        attempts_ascend(all@, places, targets@, force);
        let whole = interfaces::as_attempts(plan);
        if 0 <= k < l < plan.len() {
            assert(whole[k].0 == plan[k].0 && whole[l].0 == plan[l].0);
        }
    }
}

} // verus!
