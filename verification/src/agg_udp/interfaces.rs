//! Which network interfaces carry connections to which targets.
use crate::addr::{IpAddr, SocketAddr};
use crate::kcp::util::NetworkInterface;
use crate::text;
use crate::udp::connector;
use vstd::prelude::*;
use vstd::string::*;

verus! {

/// The name of an interface that is virtual or not applicable.
pub open spec fn virtual_name(name: Seq<char>) -> bool {
    ||| text::has_prefix(name, "lo"@)
    ||| text::has_prefix(name, "docker"@)
    ||| text::has_prefix(name, "br-"@)
    ||| text::has_prefix(name, "veth"@)
    ||| text::has_prefix(name, "tun"@)
    ||| text::has_prefix(name, "tap"@)
    ||| text::has_prefix(name, "vmnet"@)
    ||| text::has_prefix(name, "vboxnet"@)
}

/// The name of an interface that most likely leads through a tunnel.
pub open spec fn tunnel_name(name: Seq<char>) -> bool {
    ||| text::has_prefix(name, "wg"@)
    ||| text::has_prefix(name, "zt"@)
    ||| text::has_prefix(name, "utun"@)
    ||| text::has_prefix(name, "tap"@)
    ||| text::has_prefix(name, "tun"@)
    ||| text::has_part(name, "vpn"@)
}

/// The name of a physical or cellular interface.
pub open spec fn physical_name(name: Seq<char>) -> bool {
    ||| text::has_prefix(name, "eth"@)
    ||| text::has_prefix(name, "en"@)
    ||| text::has_prefix(name, "wlan"@)
    ||| text::has_prefix(name, "ppp"@)
    ||| text::has_prefix(name, "ww"@)
    ||| text::has_part(name, "cellular"@)
    ||| text::has_part(name, "mobile"@)
}

/// An address on the public network.
pub open spec fn public_ip(ip: IpAddr) -> bool {
    &&& !ip.loopback()
    &&& !ip.multicast()
    &&& match ip {
        IpAddr::V4(v4) => !v4.private() && !v4.link_local() && !v4.broadcast(),
        IpAddr::V6(v6) => !v6.unique_local(),
    }
}

/// An address on this machine or in a local network.
pub open spec fn local_ip(ip: IpAddr) -> bool {
    ||| ip.loopback()
    ||| match ip {
        IpAddr::V4(v4) => v4.private() || v4.link_local(),
        IpAddr::V6(v6) => v6.unique_local() || v6.unicast_link_local(),
    }
}

/// An interface that can be used for aggregation: not virtual, with an IPv4
/// address and with an address that is not a loopback address.
pub open spec fn suitable(interface: NetworkInterface) -> bool {
    &&& !virtual_name(interface.name@)
    &&& exists|i: int| 0 <= i < interface.addr@.len() && (#[trigger] interface.addr@[i]) is V4
    &&& exists|i: int| 0 <= i < interface.addr@.len() && !(#[trigger] interface.addr@[i]).loopback()
}

/// An interface that leads to a target. It has an address from which the target
/// can be reached; it is no tunnel if the target is public; and it is physical
/// or cellular, unless the target is local.
pub open spec fn can_reach(interface: NetworkInterface, target: SocketAddr) -> bool {
    &&& connector::first_suitable(interface.addr@, target) is Some
    &&& !(public_ip(target.host()) && tunnel_name(interface.name@))
    &&& physical_name(interface.name@) || local_ip(target.host())
}

/// Returns whether an interface is virtual or not applicable.
pub fn is_virtual_interface(name: &str) -> (r: bool)
    ensures
        r == virtual_name(name@),
{
    text::starts_with(name, "lo") || text::starts_with(name, "docker") || text::starts_with(
        name,
        "br-",
    ) || text::starts_with(name, "veth") || text::starts_with(name, "tun") || text::starts_with(
        name,
        "tap",
    ) || text::starts_with(name, "vmnet") || text::starts_with(name, "vboxnet")
}

fn is_tunnel(name: &str) -> (r: bool)
    ensures
        r == tunnel_name(name@),
{
    text::starts_with(name, "wg") || text::starts_with(name, "zt") || text::starts_with(
        name,
        "utun",
    ) || text::starts_with(name, "tap") || text::starts_with(name, "tun") || text::contains(
        name,
        "vpn",
    )
}

fn is_physical(name: &str) -> (r: bool)
    ensures
        r == physical_name(name@),
{
    text::starts_with(name, "eth") || text::starts_with(name, "en") || text::starts_with(
        name,
        "wlan",
    ) || text::starts_with(name, "ppp") || text::starts_with(name, "ww") || text::contains(
        name,
        "cellular",
    ) || text::contains(name, "mobile")
}

fn is_public(ip: IpAddr) -> (r: bool)
    ensures
        r == public_ip(ip),
{
    !ip.is_loopback() && !ip.is_multicast() && match ip {
        IpAddr::V4(v4) => !v4.is_private() && !v4.is_link_local() && !v4.is_broadcast(),
        IpAddr::V6(v6) => !v6.is_unique_local() && !v6.is_multicast(),
    }
}

fn is_local(ip: IpAddr) -> (r: bool)
    ensures
        r == local_ip(ip),
{
    ip.is_loopback() || match ip {
        IpAddr::V4(v4) => v4.is_private() || v4.is_link_local(),
        IpAddr::V6(v6) => v6.is_unique_local() || v6.is_unicast_link_local(),
    }
}

/// Returns whether an interface can be used for aggregation.
pub fn is_suitable_interface(interface: &NetworkInterface) -> (r: bool)
    ensures
        r == suitable(*interface),
{
    let mut has_ipv4 = false;
    let mut has_outside = false;
    let mut i: usize = 0;
    while i < interface.addr.len()
        invariant
            i <= interface.addr@.len(),
            has_ipv4 == (exists|j: int| 0 <= j < i && (#[trigger] interface.addr@[j]) is V4),
            has_outside == (exists|j: int|
                0 <= j < i && !(#[trigger] interface.addr@[j]).loopback()),
        decreases interface.addr@.len() - i,
    {
        if interface.addr[i].is_ipv4() {
            assert(interface.addr@[i as int] is V4);
            has_ipv4 = true;
        }
        if !interface.addr[i].is_loopback() {
            assert(!interface.addr@[i as int].loopback());
            has_outside = true;
        }
        i = i + 1;
    }
    has_ipv4 && !is_virtual_interface(interface.name.as_str()) && has_outside
}

/// Returns whether an interface leads to a target.
pub fn interface_can_reach_target(interface: &NetworkInterface, target: SocketAddr) -> (r: bool)
    ensures
        r == can_reach(*interface, target),
{
    if connector::local_ip_for_target(interface, target).is_none() {
        return false;
    }
    let target_ip = target.ip();
    if is_public(target_ip) && is_tunnel(interface.name.as_str()) {
        return false;
    }
    if is_physical(interface.name.as_str()) {
        return true;
    }
    is_local(target_ip)
}

/// An interface that can be used and leads to one of the targets.
pub open spec fn usable_for(interface: NetworkInterface, targets: Seq<SocketAddr>) -> bool {
    suitable(interface) && exists|i: int|
        0 <= i < targets.len() && can_reach(interface, #[trigger] targets[i])
}

fn is_usable_for(interface: &NetworkInterface, targets: &[SocketAddr]) -> (r: bool)
    ensures
        r == usable_for(*interface, targets@),
{
    if !is_suitable_interface(interface) {
        return false;
    }
    let mut i: usize = 0;
    while i < targets.len()
        invariant
            i <= targets@.len(),
            suitable(*interface),
            forall|j: int| 0 <= j < i ==> !can_reach(*interface, #[trigger] targets@[j]),
        decreases targets@.len() - i,
    {
        if interface_can_reach_target(interface, targets[i]) {
            assert(can_reach(*interface, targets@[i as int]));
            return true;
        }
        i = i + 1;
    }
    false
}

/// The interfaces at these places are kept: the first `limit` for which `keep`
/// holds.
pub open spec fn kept_places(
    interfaces: Seq<NetworkInterface>,
    keep: spec_fn(NetworkInterface) -> bool,
    limit: nat,
) -> Seq<int>
    decreases interfaces.len(),
{
    if interfaces.len() == 0 {
        Seq::empty()
    } else {
        let front = kept_places(interfaces.drop_last(), keep, limit);
        if keep(interfaces.last()) && front.len() < limit {
            front.push(interfaces.len() - 1)
        } else {
            front
        }
    }
}

/// Places as whole numbers.
pub open spec fn as_ints(places: Seq<usize>) -> Seq<int> {
    places.map_values(|p: usize| p as int)
}

/// Returns the places of the interfaces that are used for the targets: the
/// first four that can be used and lead to one of them. If there are none, that
/// is an error.
pub fn get_usable_interfaces_for_targets(
    all: &[NetworkInterface],
    targets: &[SocketAddr],
) -> (r: Result<Vec<usize>, String>)
    ensures
        ({
            let places = kept_places(all@, |i: NetworkInterface| usable_for(i, targets@), 4);
            match r {
                Ok(chosen) => as_ints(chosen@) == places && places.len() > 0,
                Err(message) => places.len() == 0 && message@
                    == "No usable network interfaces found for targets"@,
            }
        }),
{
    let ghost keep = |i: NetworkInterface| usable_for(i, targets@);
    let mut chosen: Vec<usize> = Vec::new();
    let mut i: usize = 0;
    assert(all@.take(0) =~= Seq::empty());
    assert(as_ints(chosen@) =~= Seq::empty());
    while i < all.len()
        invariant
            i <= all@.len(),
            keep == (|i: NetworkInterface| usable_for(i, targets@)),
            as_ints(chosen@) == kept_places(all@.take(i as int), keep, 4),
            chosen@.len() <= 4,
        decreases all@.len() - i,
    {
        assert(all@.take(i + 1).drop_last() =~= all@.take(i as int));
        let ghost before = chosen@;
        if is_usable_for(&all[i], targets) && chosen.len() < 4 {
            chosen.push(i);
            assert(as_ints(chosen@) =~= as_ints(before).push(i as int));
        }
        i = i + 1;
    }
    assert(all@.take(i as int) =~= all@);
    if chosen.len() == 0 {
        return Err("No usable network interfaces found for targets".to_owned());
    }
    Ok(chosen)
}

/// Returns the places of all interfaces that can be used, whether or not they
/// lead to a target.
pub fn force_interfaces(all: &[NetworkInterface]) -> (chosen: Vec<usize>)
    ensures
        as_ints(chosen@) == kept_places(all@, |i: NetworkInterface| suitable(i), all@.len()),
{
    let ghost keep = |i: NetworkInterface| suitable(i);
    let mut chosen: Vec<usize> = Vec::new();
    let mut i: usize = 0;
    assert(all@.take(0) =~= Seq::empty());
    assert(as_ints(chosen@) =~= Seq::empty());
    while i < all.len()
        invariant
            i <= all@.len(),
            keep == (|i: NetworkInterface| suitable(i)),
            as_ints(chosen@) == kept_places(all@.take(i as int), keep, all@.len()),
            chosen@.len() <= i,
        decreases all@.len() - i,
    {
        assert(all@.take(i + 1).drop_last() =~= all@.take(i as int));
        let ghost before = chosen@;
        if is_suitable_interface(&all[i]) {
            chosen.push(i);
            assert(as_ints(chosen@) =~= as_ints(before).push(i as int));
        }
        i = i + 1;
    }
    assert(all@.take(i as int) =~= all@);
    chosen
}

/// The targets to which an interface leads.
pub open spec fn reachable(interface: NetworkInterface, targets: Seq<SocketAddr>) -> Seq<SocketAddr> {
    targets.filter(|t: SocketAddr| can_reach(interface, t))
}

/// Returns the targets to which an interface leads.
pub fn reachable_targets(interface: &NetworkInterface, targets: &[SocketAddr]) -> (r: Vec<SocketAddr>)
    ensures
        r@ == reachable(*interface, targets@),
{
    let ghost keep = |t: SocketAddr| can_reach(*interface, t);
    let mut r: Vec<SocketAddr> = Vec::new();
    let mut i: usize = 0;
    proof {
        reveal(Seq::filter);
        assert(targets@.take(0).filter(keep) =~= Seq::empty());
    }
    while i < targets.len()
        invariant
            i <= targets@.len(),
            keep == (|t: SocketAddr| can_reach(*interface, t)),
            r@ == targets@.take(i as int).filter(keep),
        decreases targets@.len() - i,
    {
        proof {
            reveal(Seq::filter);
            assert(targets@.take(i + 1).drop_last() =~= targets@.take(i as int));
        }
        if interface_can_reach_target(interface, targets[i]) {
            r.push(targets[i]);
        }
        i = i + 1;
    }
    assert(targets@.take(i as int) =~= targets@);
    r
}

/// The targets that are tried from an interface: those it leads to, or all of
/// them in force mode.
pub open spec fn tried(
    interface: NetworkInterface,
    targets: Seq<SocketAddr>,
    force_all_links: bool,
) -> Seq<SocketAddr> {
    if force_all_links {
        targets
    } else {
        reachable(interface, targets)
    }
}

fn tried_targets(
    interface: &NetworkInterface,
    targets: &[SocketAddr],
    force_all_links: bool,
) -> (r: Vec<SocketAddr>)
    ensures
        r@ == tried(*interface, targets@, force_all_links),
{
    if !force_all_links {
        return reachable_targets(interface, targets);
    }
    let mut r: Vec<SocketAddr> = Vec::new();
    let mut i: usize = 0;
    while i < targets.len()
        invariant
            i <= targets@.len(),
            r@ == targets@.take(i as int),
        decreases targets@.len() - i,
    {
        r.push(targets[i]);
        i = i + 1;
    }
    assert(targets@.take(i as int) =~= targets@);
    r
}

/// The connections that are attempted: from each interface, by its place, to each
/// target that is tried from it.
pub open spec fn attempts(
    all: Seq<NetworkInterface>,
    places: Seq<int>,
    targets: Seq<SocketAddr>,
    force_all_links: bool,
) -> Seq<(int, SocketAddr)>
    decreases places.len(),
{
    if places.len() == 0 {
        Seq::empty()
    } else {
        let from = places.last();
        attempts(all, places.drop_last(), targets, force_all_links) + tried(
            all[from],
            targets,
            force_all_links,
        ).map_values(|t: SocketAddr| (from, t))
    }
}

/// The places of the interfaces from which connections are attempted.
pub open spec fn attempted_places(
    all: Seq<NetworkInterface>,
    targets: Seq<SocketAddr>,
    force_all_links: bool,
) -> Seq<int> {
    if force_all_links {
        kept_places(all, |i: NetworkInterface| suitable(i), all.len())
    } else {
        kept_places(all, |i: NetworkInterface| usable_for(i, targets), 4)
    }
}

/// Attempts with their places as whole numbers.
pub open spec fn as_attempts(plan: Seq<(usize, SocketAddr)>) -> Seq<(int, SocketAddr)> {
    plan.map_values(|a: (usize, SocketAddr)| (a.0 as int, a.1))
}

/// Returns the connections to attempt: pairs of the place of an interface and a
/// target. In force mode all interfaces that can be used are combined with all
/// targets.
pub fn plan_connections(
    all: &[NetworkInterface],
    targets: &[SocketAddr],
    force_all_links: bool,
) -> (r: Result<Vec<(usize, SocketAddr)>, String>)
    ensures
        ({
            let places = attempted_places(all@, targets@, force_all_links);
            match r {
                Ok(plan) => (force_all_links || places.len() > 0) && as_attempts(plan@) == attempts(
                    all@,
                    places,
                    targets@,
                    force_all_links,
                ),
                Err(message) => !force_all_links && places.len() == 0 && message@
                    == "No usable network interfaces found for targets"@,
            }
        }),
{
    let chosen = if force_all_links {
        force_interfaces(all)
    } else {
        match get_usable_interfaces_for_targets(all, targets) {
            Ok(chosen) => chosen,
            Err(message) => return Err(message),
        }
    };
    let ghost places = as_ints(chosen@);
    let mut plan: Vec<(usize, SocketAddr)> = Vec::new();
    let mut i: usize = 0;
    proof {
        kept_places_are_right(all@, |i: NetworkInterface| suitable(i), all@.len());
        kept_places_are_right(all@, |i: NetworkInterface| usable_for(i, targets@), 4);
        assert(places.take(0) =~= Seq::empty());
        assert(as_attempts(plan@) =~= Seq::empty());
    }
    while i < chosen.len()
        invariant
            i <= chosen@.len(),
            places == as_ints(chosen@),
            forall|k: int| 0 <= k < places.len() ==> 0 <= (#[trigger] places[k]) < all@.len(),
            as_attempts(plan@) == attempts(
                all@,
                places.take(i as int),
                targets@,
                force_all_links,
            ),
        decreases chosen@.len() - i,
    {
        let from: usize = chosen[i];
        assert(places[i as int] == from);
        let ghost wanted = tried(all@[from as int], targets@, force_all_links);
        let ghost before = as_attempts(plan@);
        let reached = tried_targets(&all[from], targets, force_all_links);
        let mut j: usize = 0;
        assert(before + wanted.take(0).map_values(|t: SocketAddr| (from as int, t)) =~= before);
        while j < reached.len()
            invariant
                j <= reached@.len(),
                reached@ == wanted,
                as_attempts(plan@) == before + wanted.take(j as int).map_values(
                    |t: SocketAddr| (from as int, t),
                ),
            decreases reached@.len() - j,
        {
            let ghost so_far = plan@;
            plan.push((from, reached[j]));
            proof {
                assert(as_attempts(plan@) =~= as_attempts(so_far).push(
                    (from as int, wanted[j as int]),
                ));
                assert(wanted.take(j + 1).map_values(|t: SocketAddr| (from as int, t))
                    =~= wanted.take(j as int).map_values(|t: SocketAddr| (from as int, t)).push(
                    (from as int, wanted[j as int]),
                ));
            }
            j = j + 1;
        }
        proof {
            assert(wanted.take(j as int) =~= wanted);
            assert(places.take(i + 1).drop_last() =~= places.take(i as int));
        }
        i = i + 1;
    }
    assert(places.take(i as int) =~= places);
    Ok(plan)
}

/// Returns whether connections were established, or what to say where there are
/// none.
pub fn check_established(connections: usize, force_all_links: bool) -> (r: Result<(), &'static str>)
    ensures
        match r {
            Ok(()) => connections > 0,
            Err(message) => connections == 0 && message@ == (if force_all_links {
                "❌ FORCE MODE: Even with force mode, no connections could be established"@
            } else {
                "❌ No usable connections could be established"@
            }),
        },
{
    if connections > 0 {
        Ok(())
    } else if force_all_links {
        Err("❌ FORCE MODE: Even with force mode, no connections could be established")
    } else {
        Err("❌ No usable connections could be established")
    }
}

/// Returns the local address from which a connection to a target is made.
pub fn connection_source(interface: &NetworkInterface, target: SocketAddr) -> (r: Result<
    SocketAddr,
    String,
>)
    ensures
        match connector::first_suitable(interface.addr@, target) {
            Some(ip) => r == Ok::<SocketAddr, String>(SocketAddr::of(ip, 0)),
            None => r matches Err(message) && message@ == "No suitable IP on interface "@
                + interface.name@,
        },
{
    match connector::local_ip_for_target(interface, target) {
        Some(ip) => Ok(SocketAddr::new(ip, 0)),
        None => Err("No suitable IP on interface ".to_owned().concat(interface.name.as_str())),
    }
}

/// Returns the name of a connection: interface and target, `target` being the
/// text shown for the target.
pub fn connection_key(interface: &str, target: &str) -> (key: String)
    ensures
        key@ == interface@ + "_"@ + target@,
{
    interface.to_owned().concat("_").concat(target)
}

/// Every interface that is kept is one to keep; there are at most as many as the
/// limit says, and where there are fewer, none was left out.
pub proof fn kept_places_are_right(
    interfaces: Seq<NetworkInterface>,
    keep: spec_fn(NetworkInterface) -> bool,
    limit: nat,
)
    ensures
        kept_places(interfaces, keep, limit).len() <= limit,
        forall|k: int|
            0 <= k < kept_places(interfaces, keep, limit).len() ==> 0 <= (#[trigger] kept_places(
                interfaces,
                keep,
                limit,
            )[k]) < interfaces.len() && keep(interfaces[kept_places(interfaces, keep, limit)[k]]),
        kept_places(interfaces, keep, limit).len() < limit ==> forall|i: int|
            0 <= i < interfaces.len() && keep(#[trigger] interfaces[i]) ==> kept_places(
                interfaces,
                keep,
                limit,
            ).contains(i),
    decreases interfaces.len(),
{
    if interfaces.len() > 0 {
        let rest = interfaces.drop_last();
        let front = kept_places(rest, keep, limit);
        let all = kept_places(interfaces, keep, limit);
        kept_places_are_right(rest, keep, limit);
        assert forall|k: int| 0 <= k < all.len() implies 0 <= #[trigger] all[k] < interfaces.len()
            && keep(interfaces[all[k]]) by {
            if k < front.len() {
                assert(front[k] == all[k]);
                assert(interfaces[front[k]] == rest[front[k]]);
            }
        }
        if all.len() < limit {
            assert forall|i: int|
                0 <= i < interfaces.len() && keep(#[trigger] interfaces[i]) implies all.contains(
                i,
            ) by {
                if i < rest.len() {
                    assert(rest[i] == interfaces[i]);
                    assert(front.contains(i));
                    let k = choose|k: int| 0 <= k < front.len() && front[k] == i;
                    assert(all[k] == i);
                } else {
                    assert(all[all.len() - 1] == i);
                }
            }
        }
    }
}

} // verus!
