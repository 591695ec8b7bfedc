//! What users of the UDP transport can rely on.
use crate::addr::{IpAddr, SocketAddr};
use crate::kcp::link_tag::Direction;
use crate::kcp::util::NetworkInterface;
use crate::load_balancer::Measure;
use crate::time::Duration;
use crate::udp::connector;
use crate::udp::connector::{UdpConnectError, UdpConnector, UdpLinkTag, UdpTagModel};
use crate::udp::send_buffer::{Accepted, FlushStep, Readiness, SendBuffer, TrySend};
use crate::udp::task;
use vstd::prelude::*;
use vstd::utf8;

verus! {

/// The target can be reached from the address: it is specified, of the same IP version,
/// and both or none of the two stay on this machine.
pub open spec fn fits(ip: IpAddr, target: SocketAddr) -> bool {
    &&& !ip.unspecified()
    &&& ip.loopback() == target.host().loopback()
    &&& ip is V4 <==> target is V4
}

/// The target can be reached over the interface.
pub open spec fn has_fit(interface: NetworkInterface, target: SocketAddr) -> bool {
    exists|k: int| 0 <= k < interface.addr@.len() && fits(#[trigger] interface.addr@[k], target)
}

proof fn first_fit(ips: Seq<IpAddr>, target: SocketAddr)
    ensures
        match connector::first_suitable(ips, target) {
            Some(ip) => exists|k: int|
                0 <= k < ips.len() && (#[trigger] ips[k]) == ip && fits(ip, target) && forall|j: int|
                    0 <= j < k ==> !fits(#[trigger] ips[j], target),
            None => forall|j: int| 0 <= j < ips.len() ==> !fits(#[trigger] ips[j], target),
        },
    decreases ips.len(),
{
    if ips.len() > 0 {
        if fits(ips[0], target) {
            assert(ips[0] == connector::first_suitable(ips, target)->0);
        } else {
            let rest = ips.drop_first();
            first_fit(rest, target);
            match connector::first_suitable(ips, target) {
                Some(ip) => {
                    let k = choose|k: int|
                        0 <= k < rest.len() && (#[trigger] rest[k]) == ip && fits(ip, target)
                            && forall|j: int| 0 <= j < k ==> !fits(#[trigger] rest[j], target);
                    assert(ips[k + 1] == ip);
                    assert forall|j: int| 0 <= j < k + 1 implies !fits(
                        #[trigger] ips[j],
                        target,
                    ) by {
                        if j > 0 {
                            assert(rest[j - 1] == ips[j]);
                        }
                    }
                },
                None => {
                    assert forall|j: int| 0 <= j < ips.len() implies !fits(
                        #[trigger] ips[j],
                        target,
                    ) by {
                        if j > 0 {
                            assert(rest[j - 1] == ips[j]);
                        }
                    }
                },
            }
        }
    }
}

/// The address chosen on an interface is the first from which the target can be reached;
/// none is chosen only if there is none.
pub proof fn first_fitting_address_is_chosen(
    interface: &NetworkInterface,
    target: SocketAddr,
    ip: Option<IpAddr>,
)
    requires
        call_ensures(connector::local_ip_for_target, (interface, target), ip),
    ensures
        match ip {
            Some(ip) => exists|k: int|
                0 <= k < interface.addr@.len() && (#[trigger] interface.addr@[k]) == ip && fits(
                    ip,
                    target,
                ) && forall|j: int| 0 <= j < k ==> !fits(#[trigger] interface.addr@[j], target),
            None => !has_fit(*interface, target),
        },
{
    first_fit(interface.addr@, target);
}

proof fn suitable_means_fit(interface: NetworkInterface, target: SocketAddr)
    ensures
        connector::first_suitable(interface.addr@, target) is Some <==> has_fit(interface, target),
{
    first_fit(interface.addr@, target);
}

proof fn names_are_filtered(interfaces: Seq<NetworkInterface>, target: SocketAddr)
    ensures
        connector::names_for(interfaces, target) == interfaces.filter(
            |i: NetworkInterface| has_fit(i, target),
        ).map_values(|i: NetworkInterface| utf8::encode_utf8(i.name@)),
    decreases interfaces.len(),
{
    reveal(Seq::filter);
    let keep = |i: NetworkInterface| has_fit(i, target);
    let show = |i: NetworkInterface| utf8::encode_utf8(i.name@);
    if interfaces.len() > 0 {
        names_are_filtered(interfaces.drop_last(), target);
        suitable_means_fit(interfaces.last(), target);
        assert(interfaces.drop_last().filter(keep).push(interfaces.last()).map_values(show)
            =~= interfaces.drop_last().filter(keep).map_values(show).push(
            show(interfaces.last()),
        ));
    } else {
        assert(interfaces.filter(keep).map_values(show) =~= Seq::empty());
    }
}

/// The names of the interfaces over which a target can be reached are listed, in order.
pub proof fn reaching_interfaces_are_named(
    interfaces: &[NetworkInterface],
    target: SocketAddr,
    names: Vec<Vec<u8>>,
)
    requires
        call_ensures(connector::interface_names_for_target, (interfaces, target), names),
    ensures
        names@.map_values(|n: Vec<u8>| n@) == interfaces@.filter(
            |i: NetworkInterface| has_fit(i, target),
        ).map_values(|i: NetworkInterface| utf8::encode_utf8(i.name@)),
{
    names_are_filtered(interfaces@, target);
    assert(connector::name_bytes(names@) =~= names@.map_values(|n: Vec<u8>| n@));
}

/// An interface of this name reaches the target.
pub open spec fn reaches_by_name(
    interfaces: Seq<NetworkInterface>,
    target: SocketAddr,
    name: Seq<u8>,
) -> bool {
    exists|i: int|
        0 <= i < interfaces.len() && utf8::encode_utf8((#[trigger] interfaces[i]).name@) == name
            && has_fit(interfaces[i], target)
}

proof fn names_reach(interfaces: Seq<NetworkInterface>, target: SocketAddr, name: Seq<u8>)
    ensures
        connector::names_for(interfaces, target).contains(name) <==> reaches_by_name(
            interfaces,
            target,
            name,
        ),
    decreases interfaces.len(),
{
    if interfaces.len() > 0 {
        let rest = interfaces.drop_last();
        let last = interfaces.last();
        let front = connector::names_for(rest, target);
        let all = connector::names_for(interfaces, target);
        names_reach(rest, target, name);
        suitable_means_fit(last, target);
        assert(interfaces[interfaces.len() - 1] == last);
        if reaches_by_name(rest, target, name) {
            let i = choose|i: int|
                0 <= i < rest.len() && utf8::encode_utf8((#[trigger] rest[i]).name@) == name
                    && has_fit(rest[i], target);
            assert(interfaces[i] == rest[i]);
            let k = choose|k: int| 0 <= k < front.len() && front[k] == name;
            assert(all[k] == name);
        }
        if all.contains(name) {
            let k = choose|k: int| 0 <= k < all.len() && all[k] == name;
            if k < front.len() {
                assert(front[k] == name);
            }
        }
        if reaches_by_name(interfaces, target, name) {
            let i = choose|i: int|
                0 <= i < interfaces.len() && utf8::encode_utf8((#[trigger] interfaces[i]).name@)
                    == name && has_fit(interfaces[i], target);
            if i < rest.len() {
                assert(rest[i] == interfaces[i]);
            } else {
                assert(all[front.len() as int] == name);
            }
        }
    }
}

/// A link is proposed exactly for each pair of a target and the name of an interface over
/// which it can be reached, and none is proposed twice.
pub proof fn links_are_proposed(
    c: UdpConnector,
    interfaces: &[NetworkInterface],
    targets: &[SocketAddr],
    tags: Vec<UdpLinkTag>,
    tag: UdpTagModel,
)
    requires
        call_ensures(UdpConnector::targets, (&c,), targets),
        call_ensures(UdpConnector::link_tags, (&c, interfaces), tags),
    ensures
        tags@.map_values(|t: UdpLinkTag| t@).contains(tag) <==> targets@.contains(tag.remote)
            && tag.direction == Direction::Outgoing && reaches_by_name(
            interfaces@,
            tag.remote,
            tag.interface,
        ),
        tags@.map_values(|t: UdpLinkTag| t@).no_duplicates(),
{
    assert(connector::models(tags@) =~= tags@.map_values(|t: UdpLinkTag| t@));
    connector::all_tags_members(targets@, interfaces@, tag);
    connector::all_tags_no_duplicates(targets@, interfaces@);
    names_reach(interfaces@, tag.remote, tag.interface);
}

proof fn named_interface(interfaces: Seq<NetworkInterface>, name: Seq<u8>)
    ensures
        match connector::interface_named(interfaces, name) {
            Some(interface) => exists|i: int|
                0 <= i < interfaces.len() && (#[trigger] interfaces[i]) == interface
                    && utf8::encode_utf8(interface.name@) == name && forall|j: int|
                    0 <= j < i ==> utf8::encode_utf8((#[trigger] interfaces[j]).name@) != name,
            None => forall|j: int|
                0 <= j < interfaces.len() ==> utf8::encode_utf8((#[trigger] interfaces[j]).name@)
                    != name,
        },
    decreases interfaces.len(),
{
    if interfaces.len() > 0 {
        if utf8::encode_utf8(interfaces[0].name@) == name {
            assert(interfaces[0] == connector::interface_named(interfaces, name)->0);
        } else {
            let rest = interfaces.drop_first();
            named_interface(rest, name);
            match connector::interface_named(interfaces, name) {
                Some(interface) => {
                    let i = choose|i: int|
                        0 <= i < rest.len() && (#[trigger] rest[i]) == interface
                            && utf8::encode_utf8(interface.name@) == name && forall|j: int|
                            0 <= j < i ==> utf8::encode_utf8((#[trigger] rest[j]).name@) != name;
                    assert(interfaces[i + 1] == interface);
                    assert forall|j: int| 0 <= j < i + 1 implies utf8::encode_utf8(
                        (#[trigger] interfaces[j]).name@,
                    ) != name by {
                        if j > 0 {
                            assert(rest[j - 1] == interfaces[j]);
                        }
                    }
                },
                None => {
                    assert forall|j: int| 0 <= j < interfaces.len() implies utf8::encode_utf8(
                        (#[trigger] interfaces[j]).name@,
                    ) != name by {
                        if j > 0 {
                            assert(rest[j - 1] == interfaces[j]);
                        }
                    }
                },
            }
        }
    }
}

/// A link is connected from an address, with port zero, of the first interface of its
/// name, from which its target can be reached. The error tells whether there is no such
/// interface or no such address.
pub proof fn links_start_on_their_interface(
    interfaces: &[NetworkInterface],
    tag: &UdpLinkTag,
    r: Result<SocketAddr, UdpConnectError>,
)
    requires
        call_ensures(UdpConnector::connect_from, (interfaces, tag), r),
    ensures
        match r {
            Err(UdpConnectError::InterfaceNotFound) => forall|i: int|
                0 <= i < interfaces@.len() ==> utf8::encode_utf8((#[trigger] interfaces@[i]).name@)
                    != tag.interface@,
            Err(UdpConnectError::NoSuitableAddress) => exists|i: int|
                0 <= i < interfaces@.len() && utf8::encode_utf8((#[trigger] interfaces@[i]).name@)
                    == tag.interface@ && !has_fit(interfaces@[i], tag.remote) && forall|j: int|
                    0 <= j < i ==> utf8::encode_utf8((#[trigger] interfaces@[j]).name@)
                        != tag.interface@,
            Ok(local) => exists|i: int|
                0 <= i < interfaces@.len() && utf8::encode_utf8((#[trigger] interfaces@[i]).name@)
                    == tag.interface@ && interfaces@[i].addr@.contains(local.host()) && fits(
                    local.host(),
                    tag.remote,
                ) && local.port_number() == 0 && forall|j: int|
                    0 <= j < i ==> utf8::encode_utf8((#[trigger] interfaces@[j]).name@)
                        != tag.interface@,
        },
{
    named_interface(interfaces@, tag.interface@);
    if let Some(interface) = connector::interface_named(interfaces@, tag.interface@) {
        let i = choose|i: int|
            0 <= i < interfaces@.len() && (#[trigger] interfaces@[i]) == interface
                && utf8::encode_utf8(interface.name@) == tag.interface@ && forall|j: int|
                0 <= j < i ==> utf8::encode_utf8((#[trigger] interfaces@[j]).name@)
                    != tag.interface@;
        assert(utf8::encode_utf8(interfaces@[i].name@) == tag.interface@);
        first_fit(interface.addr@, tag.remote);
        suitable_means_fit(interface, tag.remote);
        if let Some(ip) = connector::first_suitable(interface.addr@, tag.remote) {
            assert(SocketAddr::of(ip, 0).host() == ip);
            assert(interfaces@[i].addr@.contains(ip));
        }
    }
}

/// Where interfaces have different names, every proposed link can be connected.
pub proof fn proposed_links_connect(
    c: UdpConnector,
    interfaces: &[NetworkInterface],
    tags: Vec<UdpLinkTag>,
    k: int,
    r: Result<SocketAddr, UdpConnectError>,
)
    requires
        call_ensures(UdpConnector::link_tags, (&c, interfaces), tags),
        0 <= k < tags@.len(),
        forall|i: int, j: int|
            0 <= i < j < interfaces@.len() ==> utf8::encode_utf8((#[trigger] interfaces@[i]).name@)
                != utf8::encode_utf8((#[trigger] interfaces@[j]).name@),
        call_ensures(UdpConnector::connect_from, (interfaces, &tags@[k]), r),
    ensures
        r is Ok,
{
    assert(connector::models(tags@)[k] == tags@[k]@);
    connector::proposed_links_can_connect(c.target_addrs(), interfaces@, tags@[k]@);
}

/// A link is not wanted exactly if there is one with the same interface and target, so
/// once it is there a second one is not wanted.
pub proof fn second_link_is_not_wanted(
    new: Option<UdpLinkTag>,
    existing: &[Option<UdpLinkTag>],
    more: &[Option<UdpLinkTag>],
    first: bool,
    second: bool,
)
    requires
        call_ensures(UdpConnector::link_filter, (&new, existing), first),
        more@ == existing@.push(new),
        call_ensures(UdpConnector::link_filter, (&new, more), second),
    ensures
        new is None ==> first && second,
        new matches Some(tag) ==> !second && (first <==> !exists|i: int|
            0 <= i < existing@.len() && ((#[trigger] existing@[i]) matches Some(other)
                && other.interface@ == tag.interface@ && other.remote == tag.remote)),
{
    if new is Some {
        assert(more@[existing@.len() as int] == new);
    }
}

/// The set of links has changed exactly if one of the two lists holds a link that the
/// other does not hold. Order and repetition do not count.
pub proof fn changes_are_seen(a: &Vec<UdpLinkTag>, b: &Vec<UdpLinkTag>, r: bool, back: bool)
    requires
        call_ensures(connector::tags_changed, (a, b), r),
        call_ensures(connector::tags_changed, (b, a), back),
    ensures
        r == back,
        r <==> ((exists|i: int|
            0 <= i < a@.len() && !b@.map_values(|t: UdpLinkTag| t@).contains(
                (#[trigger] a@[i])@,
            )) || (exists|i: int|
            0 <= i < b@.len() && !a@.map_values(|t: UdpLinkTag| t@).contains(
                (#[trigger] b@[i])@,
            ))),
{
    let ma = connector::models(a@);
    let mb = connector::models(b@);
    assert(ma =~= a@.map_values(|t: UdpLinkTag| t@));
    assert(mb =~= b@.map_values(|t: UdpLinkTag| t@));
    assert(forall|i: int| 0 <= i < a@.len() ==> ma.contains((#[trigger] a@[i])@)) by {
        assert forall|i: int| 0 <= i < a@.len() implies ma.contains((#[trigger] a@[i])@) by {
            assert(ma[i] == a@[i]@);
        }
    }
    assert(forall|i: int| 0 <= i < b@.len() ==> mb.contains((#[trigger] b@[i])@)) by {
        assert forall|i: int| 0 <= i < b@.len() implies mb.contains((#[trigger] b@[i])@) by {
            assert(mb[i] == b@[i]@);
        }
    }
    if r {
        if exists|t: UdpTagModel| ma.contains(t) && !mb.contains(t) {
            let t = choose|t: UdpTagModel| ma.contains(t) && !mb.contains(t);
            let i = choose|i: int| 0 <= i < ma.len() && ma[i] == t;
            assert(a@[i]@ == t);
        } else {
            let t = choose|t: UdpTagModel| mb.contains(t) && !ma.contains(t);
            let i = choose|i: int| 0 <= i < mb.len() && mb[i] == t;
            assert(b@[i]@ == t);
        }
    }
}

/// The socket with the largest deficit sends; of several the last.
pub proof fn largest_deficit_sends(deficits: &[Measure], place: Option<usize>, j: int)
    requires
        forall|i: int| 0 <= i < deficits@.len() ==> (#[trigger] deficits@[i]).rank is Some,
        call_ensures(task::select_socket, (deficits,), place),
        0 <= j < deficits@.len(),
    ensures
        place matches Some(i) && i < deficits@.len() && (deficits@[j].rank->0
            < deficits@[i as int].rank->0 || deficits@[j].rank->0 == deficits@[i as int].rank->0
            && j <= i),
{
    task::kept_is_last_largest(deficits@);
    assert(deficits@[j].rank->0 <= deficits@[place->0 as int].rank->0);
}

/// One socket more takes over unless the one that sent without it has a larger deficit;
/// a deficit that cannot be compared is not larger.
pub proof fn one_socket_more(
    few: &[Measure],
    more: &[Measure],
    last: Measure,
    before: Option<usize>,
    after: Option<usize>,
)
    requires
        more@ == few@.push(last),
        call_ensures(task::select_socket, (few,), before),
        call_ensures(task::select_socket, (more,), after),
    ensures
        after == (match before {
            None => Some(few@.len() as usize),
            Some(i) => match (few@[i as int].rank, last.rank) {
                (Some(x), Some(y)) if x > y => Some(i),
                _ => Some(few@.len() as usize),
            },
        }),
{
    assert(more@.drop_last() =~= few@);
}

/// A weight stands unless it is zero or less; if there is not one for each socket, none
/// stands.
pub proof fn positive_weights_stand(
    weights: &[Measure],
    sockets: usize,
    kept: Vec<bool>,
    i: int,
)
    requires
        call_ensures(task::weights_kept, (weights, sockets), kept),
        0 <= i < sockets,
    ensures
        kept@.len() == sockets,
        weights@.len() != sockets ==> !kept@[i],
        weights@.len() == sockets ==> (!kept@[i] <==> (weights@[i].rank matches Some(r) && r <= 0)),
{
}

/// The packet at the front is the one that is tried. It leaves the buffer when it was
/// sent, and then the next one is tried, if there is one; otherwise nothing changes.
pub proof fn front_leaves_when_sent<T>(
    buffer: &mut SendBuffer<T>,
    front: Option<&T>,
    outcome: TrySend,
    step: FlushStep,
    begin: FlushStep,
)
    requires
        old(buffer).wf(),
        old(buffer).waiting().len() > 0,
        call_ensures(SendBuffer::<T>::begin_flush, (&*old(buffer),), begin),
        call_ensures(SendBuffer::<T>::front, (&*old(buffer),), front),
        call_ensures(SendBuffer::<T>::after_attempt, (buffer, outcome), step),
    ensures
        begin == FlushStep::Try,
        front is Some,
        match outcome {
            TrySend::Sent => old(buffer).waiting() == seq![*front->0] + final(buffer).waiting()
                && (step == FlushStep::Flushed <==> final(buffer).waiting().len() == 0) && (step
                == FlushStep::Try <==> final(buffer).waiting().len() > 0),
            TrySend::WouldBlock => final(buffer).waiting() == old(buffer).waiting() && step
                == FlushStep::Blocked,
            TrySend::Failed => final(buffer).waiting() == old(buffer).waiting() && step
                == FlushStep::Failed,
        },
{
    if outcome == TrySend::Sent {
        assert(old(buffer).waiting() =~= seq![*front->0] + final(buffer).waiting());
    }
}

/// Packets wait in the order in which they were taken: two packets that are buffered one
/// after the other stand at the end, one behind the other. No packet overtakes those that
/// wait, and one is dropped only if 1024 others wait.
pub proof fn packets_wait_in_order<T>(
    b1: &mut SendBuffer<T>,
    b2: &mut SendBuffer<T>,
    first: T,
    second: T,
    d1: TrySend,
    d2: TrySend,
    r1: Accepted,
    r2: Accepted,
)
    requires
        old(b1).wf(),
        call_ensures(SendBuffer::<T>::start_send, (b1, first, d1), r1),
        *old(b2) == *final(b1),
        call_ensures(SendBuffer::<T>::start_send, (b2, second, d2), r2),
    ensures
        r1 == Accepted::Buffered && r2 == Accepted::Buffered ==> final(b2).waiting() == old(
            b1,
        ).waiting() + seq![first, second],
        r1 == Accepted::Sent <==> old(b1).waiting().len() == 0 && d1 == TrySend::Sent,
        r1 == Accepted::Failed <==> old(b1).waiting().len() == 0 && d1 == TrySend::Failed,
        r1 == Accepted::Dropped <==> old(b1).waiting().len() == 1024,
        r1 != Accepted::Buffered ==> final(b1).waiting() == old(b1).waiting(),
        r1 == Accepted::Buffered ==> r2 != Accepted::Sent && r2 != Accepted::Failed,
{
    if r1 == Accepted::Buffered && r2 == Accepted::Buffered {
        assert(final(b2).waiting() =~= old(b1).waiting() + seq![first, second]);
    }
}

/// A packet can be taken once all others are sent; it cannot as long as the socket is not
/// ready, and the failure to send them is handed on.
pub proof fn buffer_is_ready_when_flushed<T>(
    buffer: SendBuffer<T>,
    flushed: FlushStep,
    r: Readiness,
    empty: bool,
)
    requires
        buffer.wf(),
        call_ensures(SendBuffer::<T>::readiness, (&buffer, flushed), r),
        call_ensures(SendBuffer::<T>::is_empty, (&buffer,), empty),
    ensures
        empty <==> buffer.waiting().len() == 0,
        flushed == FlushStep::Flushed && empty ==> r == Readiness::Ready,
        r == Readiness::Ready <==> flushed == FlushStep::Flushed && buffer.waiting().len() < 1024,
        r == Readiness::Failed <==> flushed == FlushStep::Failed,
{
}

/// A tag keeps the name of its interface, which is also sent along, its target and its
/// direction.
pub proof fn tags_keep_their_parts(
    interface: &[u8],
    remote: SocketAddr,
    direction: Direction,
    tag: UdpLinkTag,
    data: Vec<u8>,
)
    requires
        call_ensures(UdpLinkTag::new, (interface, remote, direction), tag),
        call_ensures(UdpLinkTag::user_data, (&tag,), data),
    ensures
        tag.interface@ == interface@,
        tag.remote == remote,
        tag.direction == direction,
        data@ == interface@,
{
    assert(tag@.interface == interface@ && tag@.remote == remote && tag@.direction == direction);
}

/// A connector keeps its targets, checks interfaces every ten seconds, and then as often as
/// it is told to.
pub proof fn connector_keeps_its_settings(
    targets: Vec<SocketAddr>,
    created: UdpConnector,
    c: &mut UdpConnector,
    interval: Duration,
    first: Duration,
    set: Duration,
    kept: &[SocketAddr],
)
    requires
        call_ensures(UdpConnector::new, (targets,), created),
        call_ensures(UdpConnector::resolve_interval, (&created,), first),
        *old(c) == created,
        call_ensures(UdpConnector::set_resolve_interval, (c, interval), ()),
        call_ensures(UdpConnector::resolve_interval, (&*final(c),), set),
        call_ensures(UdpConnector::targets, (&*final(c),), kept),
    ensures
        first.nanos == 10 * 1_000_000_000,
        set == interval,
        kept@ == targets@,
{
}

/// A new buffer is empty, so the first packet is sent at once if the socket is ready.
pub proof fn new_buffers_are_empty<T>(
    created: SendBuffer<T>,
    buffer: &mut SendBuffer<T>,
    packet: T,
    direct: TrySend,
    r: Accepted,
)
    requires
        call_ensures(SendBuffer::<T>::new, (), created),
        *old(buffer) == created,
        call_ensures(SendBuffer::<T>::start_send, (buffer, packet, direct), r),
    ensures
        created.waiting().len() == 0,
        direct == TrySend::Sent <==> r == Accepted::Sent,
        direct == TrySend::WouldBlock ==> r == Accepted::Buffered && final(buffer).waiting()
            == seq![packet],
{
    assert(created.waiting() =~= Seq::empty());
}

} // verus!
