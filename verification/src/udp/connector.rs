//! Outgoing UDP links, one for each interface and target.
use crate::addr::{IpAddr, SocketAddr};
use crate::kcp::link_tag::Direction;
use crate::kcp::util::NetworkInterface;
use crate::time::Duration;
use crate::vec_map::MapKey;
use vstd::prelude::*;
use vstd::slice::slice_to_vec;
use vstd::string::*;
use vstd::utf8;

verus! {

/// UDP link tag: an interface and a target.
#[derive(Debug, Clone, PartialEq, Eq, Hash, PartialOrd, Ord)]
pub struct UdpLinkTag {
    /// Network interface name.
    pub interface: Vec<u8>,
    /// Remote target address.
    pub remote: SocketAddr,
    /// Connection direction.
    pub direction: Direction,
}

/// What a UDP link tag says.
#[verifier::ext_equal]
pub struct UdpTagModel {
    /// Network interface name.
    pub interface: Seq<u8>,
    /// Remote target address.
    pub remote: SocketAddr,
    /// Connection direction.
    pub direction: Direction,
}

impl View for UdpLinkTag {
    type V = UdpTagModel;

    open spec fn view(&self) -> UdpTagModel {
        UdpTagModel {
            interface: self.interface@,
            remote: self.remote,
            direction: self.direction,
        }
    }
}

fn same_bytes(a: &[u8], b: &[u8]) -> (r: bool)
    ensures
        r == (a@ == b@),
{
    if a.len() != b.len() {
        return false;
    }
    let mut i: usize = 0;
    while i < a.len()
        invariant
            i <= a@.len(),
            a@.len() == b@.len(),
            forall|j: int| 0 <= j < i ==> a@[j] == b@[j],
        decreases a@.len() - i,
    {
        if a[i] != b[i] {
            return false;
        }
        i = i + 1;
    }
    assert(a@ =~= b@);
    true
}

impl UdpLinkTag {
    /// Creates a UDP link tag.
    pub fn new(interface: &[u8], remote: SocketAddr, direction: Direction) -> (tag: UdpLinkTag)
        ensures
            tag@ == (UdpTagModel { interface: interface@, remote, direction }),
    {
        UdpLinkTag { interface: slice_to_vec(interface), remote, direction }
    }

    /// Returns the name of the transport.
    pub fn transport_name(&self) -> (name: &'static str)
        ensures
            name@ == "UDP"@,
    {
        "UDP"
    }

    /// Returns the data that is sent along when the link is set up: the name of
    /// the interface.
    pub fn user_data(&self) -> (data: Vec<u8>)
        ensures
            data@ == self.interface@,
    {
        slice_to_vec(self.interface.as_slice())
    }

    /// The text shown for this tag, `remote` and `interface` being the texts
    /// shown for address and interface.
    pub open spec fn text(self, remote: Seq<char>, interface: Seq<char>) -> Seq<char> {
        "UDP "@ + (match self.direction {
            Direction::Incoming => "from"@,
            Direction::Outgoing => "to"@,
        }) + " "@ + remote + " via "@ + interface
    }

    /// Returns the text shown for this tag, `remote` and `interface` being the
    /// texts shown for address and interface.
    pub fn label(&self, remote: &str, interface: &str) -> (s: String)
        ensures
            s@ == self.text(remote@, interface@),
    {
        let dir = match self.direction {
            Direction::Incoming => "from",
            Direction::Outgoing => "to",
        };
        "UDP ".to_owned().concat(dir).concat(" ").concat(remote).concat(" via ").concat(interface)
    }

    fn same_tag(&self, other: &UdpLinkTag) -> (r: bool)
        ensures
            r == (self@ == other@),
    {
        same_bytes(self.interface.as_slice(), other.interface.as_slice()) && self.remote
            == other.remote && self.direction == other.direction
    }
}

/// Why a link cannot be connected.
#[derive(Debug, Clone, Copy, PartialEq, Eq, Structural)]
pub enum UdpConnectError {
    /// There is no such interface.
    InterfaceNotFound,
    /// The interface has no address from which the target can be reached.
    NoSuitableAddress,
}

impl UdpConnectError {
    /// Returns the text shown for this error.
    pub fn message(&self) -> (text: &'static str)
        ensures
            text@ == (match *self {
                UdpConnectError::InterfaceNotFound => "network interface not found"@,
                UdpConnectError::NoSuitableAddress => "no suitable IP address on interface"@,
            }),
    {
        match self {
            UdpConnectError::InterfaceNotFound => "network interface not found",
            UdpConnectError::NoSuitableAddress => "no suitable IP address on interface",
        }
    }
}

/// An address from which the target can be reached: specified, loopback exactly
/// if the target is, and of the same IP version.
pub open spec fn suitable(ip: IpAddr, target: SocketAddr) -> bool {
    &&& !ip.unspecified()
    &&& ip.loopback() == target.host().loopback()
    &&& (ip is V4) == (target is V4)
}

/// The first suitable address.
pub open spec fn first_suitable(ips: Seq<IpAddr>, target: SocketAddr) -> Option<IpAddr>
    decreases ips.len(),
{
    if ips.len() == 0 {
        None
    } else if suitable(ips[0], target) {
        Some(ips[0])
    } else {
        first_suitable(ips.drop_first(), target)
    }
}

/// Returns the first address of an interface from which the target can be
/// reached.
pub fn local_ip_for_target(interface: &NetworkInterface, target: SocketAddr) -> (ip: Option<IpAddr>)
    ensures
        ip == first_suitable(interface.addr@, target),
{
    let ips = &interface.addr;
    let mut i: usize = 0;
    assert(ips@.skip(0) =~= ips@);
    while i < ips.len()
        invariant
            i <= ips@.len(),
            ips@ == interface.addr@,
            first_suitable(ips@.skip(i as int), target) == first_suitable(ips@, target),
        decreases ips@.len() - i,
    {
        let ip = ips[i];
        assert(ips@.skip(i as int)[0] == ip);
        assert(ips@.skip(i as int).drop_first() =~= ips@.skip(i + 1));
        if !ip.is_unspecified() && ip.is_loopback() == target.ip().is_loopback() && ip.is_ipv4()
            == target.is_ipv4() {
            return Some(ip);
        }
        i = i + 1;
    }
    None
}

/// The names of the interfaces from which a target can be reached, in their order.
pub open spec fn names_for(interfaces: Seq<NetworkInterface>, target: SocketAddr) -> Seq<Seq<u8>>
    decreases interfaces.len(),
{
    if interfaces.len() == 0 {
        Seq::empty()
    } else {
        let front = names_for(interfaces.drop_last(), target);
        let last = interfaces.last();
        if first_suitable(last.addr@, target) is Some {
            front.push(utf8::encode_utf8(last.name@))
        } else {
            front
        }
    }
}

/// What a list of names says.
pub open spec fn name_bytes(names: Seq<Vec<u8>>) -> Seq<Seq<u8>> {
    names.map_values(|name: Vec<u8>| name@)
}

/// Returns the names of the interfaces from which a target can be reached: those that
/// have a suitable address.
pub fn interface_names_for_target(interfaces: &[NetworkInterface], target: SocketAddr) -> (names:
    Vec<Vec<u8>>)
    ensures
        name_bytes(names@) == names_for(interfaces@, target),
{
    let mut names: Vec<Vec<u8>> = Vec::new();
    let mut i: usize = 0;
    assert(interfaces@.take(0) =~= Seq::empty());
    assert(name_bytes(names@) =~= Seq::empty());
    while i < interfaces.len()
        invariant
            i <= interfaces@.len(),
            name_bytes(names@) == names_for(interfaces@.take(i as int), target),
        decreases interfaces@.len() - i,
    {
        assert(interfaces@.take(i + 1).drop_last() =~= interfaces@.take(i as int));
        if local_ip_for_target(&interfaces[i], target).is_some() {
            let ghost before = names@;
            let name = slice_to_vec(interfaces[i].name.as_str().as_bytes());
            names.push(name);
            assert(name_bytes(names@) =~= name_bytes(before).push(name@));
        }
        i = i + 1;
    }
    assert(interfaces@.take(i as int) =~= interfaces@);
    names
}

/// The first interface with the given name.
pub open spec fn interface_named(interfaces: Seq<NetworkInterface>, name: Seq<u8>) -> Option<
    NetworkInterface,
>
    decreases interfaces.len(),
{
    if interfaces.len() == 0 {
        None
    } else if utf8::encode_utf8(interfaces[0].name@) == name {
        Some(interfaces[0])
    } else {
        interface_named(interfaces.drop_first(), name)
    }
}

/// What a list of tags says.
pub open spec fn models(tags: Seq<UdpLinkTag>) -> Seq<UdpTagModel> {
    tags.map_values(|t: UdpLinkTag| t@)
}

/// Tags for a target, one for each interface name; a tag that is there already
/// is not added again.
pub open spec fn tags_for(
    before: Seq<UdpTagModel>,
    target: SocketAddr,
    names: Seq<Seq<u8>>,
) -> Seq<UdpTagModel>
    decreases names.len(),
{
    if names.len() == 0 {
        before
    } else {
        let front = tags_for(before, target, names.drop_last());
        let tag = UdpTagModel {
            interface: names.last(),
            remote: target,
            direction: Direction::Outgoing,
        };
        if front.contains(tag) {
            front
        } else {
            front.push(tag)
        }
    }
}

/// Tags for all targets.
pub open spec fn all_tags(targets: Seq<SocketAddr>, interfaces: Seq<NetworkInterface>) -> Seq<
    UdpTagModel,
>
    decreases targets.len(),
{
    if targets.len() == 0 {
        Seq::empty()
    } else {
        tags_for(
            all_tags(targets.drop_last(), interfaces),
            targets.last(),
            names_for(interfaces, targets.last()),
        )
    }
}

/// UDP transport for outgoing connections.
#[derive(Debug, Clone)]
pub struct UdpConnector {
    targets: Vec<SocketAddr>,
    resolve_interval: Duration,
}

impl UdpConnector {
    /// The targets.
    pub closed spec fn target_addrs(&self) -> Seq<SocketAddr> {
        self.targets@
    }

    /// How often network interfaces are checked.
    pub closed spec fn interval(&self) -> Duration {
        self.resolve_interval
    }

    /// Creates a connector that checks network interfaces every ten seconds.
    pub fn new(targets: Vec<SocketAddr>) -> (c: UdpConnector)
        ensures
            c.target_addrs() == targets@,
            c.interval().nanos == 10_000_000_000,
    {
        UdpConnector { targets, resolve_interval: Duration::from_secs(10) }
    }

    /// Sets how often network interfaces are checked.
    pub fn set_resolve_interval(&mut self, resolve_interval: Duration)
        ensures
            final(self).interval() == resolve_interval,
            final(self).target_addrs() == old(self).target_addrs(),
    {
        self.resolve_interval = resolve_interval;
    }

    /// Returns how often network interfaces are checked.
    pub fn resolve_interval(&self) -> (interval: Duration)
        ensures
            interval == self.interval(),
    {
        self.resolve_interval
    }

    /// Returns the targets.
    pub fn targets(&self) -> (targets: &[SocketAddr])
        ensures
            targets@ == self.target_addrs(),
    {
        self.targets.as_slice()
    }

    /// Returns the name of the transport.
    pub fn name(&self) -> (name: &'static str)
        ensures
            name@ == "UDP"@,
    {
        "UDP"
    }

    /// Returns the tags of the links to be established, given the network
    /// interfaces of this machine: one for each target and interface from which it
    /// can be reached.
    pub fn link_tags(&self, interfaces: &[NetworkInterface]) -> (tags: Vec<UdpLinkTag>)
        ensures
            models(tags@) == all_tags(self.target_addrs(), interfaces@),
    {
        let mut tags: Vec<UdpLinkTag> = Vec::new();
        let mut i: usize = 0;
        assert(self.targets@.take(0) =~= Seq::empty());
        assert(models(tags@) =~= Seq::empty());
        while i < self.targets.len()
            invariant
                i <= self.targets@.len(),
                models(tags@) == all_tags(self.targets@.take(i as int), interfaces@),
            decreases self.targets@.len() - i,
        {
            let target = self.targets[i];
            let names = interface_names_for_target(interfaces, target);
            let ghost before = models(tags@);
            let mut j: usize = 0;
            let ghost bytes = name_bytes(names@);
            assert(bytes.take(0) =~= Seq::empty());
            while j < names.len()
                invariant
                    j <= names@.len(),
                    bytes == name_bytes(names@),
                    models(tags@) == tags_for(before, target, bytes.take(j as int)),
                decreases names@.len() - j,
            {
                assert(bytes.take(j + 1).drop_last() =~= bytes.take(j as int));
                let tag = UdpLinkTag::new(names[j].as_slice(), target, Direction::Outgoing);
                let ghost known = tags@;
                if !has_tag(&tags, &tag) {
                    tags.push(tag);
                    assert(models(tags@) =~= models(known).push(tag@));
                }
                j = j + 1;
            }
            assert(bytes.take(j as int) =~= bytes);
            assert(self.targets@.take(i + 1).drop_last() =~= self.targets@.take(i as int));
            i = i + 1;
        }
        assert(self.targets@.take(i as int) =~= self.targets@);
        tags
    }

    /// Returns the local address from which a link is connected: the first
    /// suitable address of its interface, with port zero.
    pub fn connect_from(interfaces: &[NetworkInterface], tag: &UdpLinkTag) -> (r: Result<
        SocketAddr,
        UdpConnectError,
    >)
        ensures
            r == (match interface_named(interfaces@, tag.interface@) {
                None => Err(UdpConnectError::InterfaceNotFound),
                Some(interface) => match first_suitable(interface.addr@, tag.remote) {
                    None => Err(UdpConnectError::NoSuitableAddress),
                    Some(ip) => Ok(SocketAddr::of(ip, 0)),
                },
            }),
    {
        let mut i: usize = 0;
        assert(interfaces@.skip(0) =~= interfaces@);
        while i < interfaces.len()
            invariant
                i <= interfaces@.len(),
                interface_named(interfaces@.skip(i as int), tag.interface@) == interface_named(
                    interfaces@,
                    tag.interface@,
                ),
            decreases interfaces@.len() - i,
        {
            assert(interfaces@.skip(i as int)[0] == interfaces@[i as int]);
            assert(interfaces@.skip(i as int).drop_first() =~= interfaces@.skip(i + 1));
            if same_bytes(interfaces[i].name.as_str().as_bytes(), tag.interface.as_slice()) {
                return match local_ip_for_target(&interfaces[i], tag.remote) {
                    Some(ip) => Ok(SocketAddr::new(ip, 0)),
                    None => Err(UdpConnectError::NoSuitableAddress),
                };
            }
            i = i + 1;
        }
        Err(UdpConnectError::InterfaceNotFound)
    }

    /// Returns whether a new link is wanted: it is not if there is a link with
    /// the same interface and target. Links of other transports do not count,
    /// and are always wanted.
    pub fn link_filter(new: &Option<UdpLinkTag>, existing: &[Option<UdpLinkTag>]) -> (wanted: bool)
        ensures
            wanted == (match *new {
                None => true,
                Some(tag) => forall|i: int|
                    0 <= i < existing@.len() ==> ((#[trigger] existing@[i]) matches Some(other)
                        ==> other.interface@ != tag.interface@ || other.remote != tag.remote),
            }),
    {
        let tag = match new {
            Some(tag) => tag,
            None => return true,
        };
        let mut i: usize = 0;
        while i < existing.len()
            invariant
                i <= existing@.len(),
                *new == Some(*tag),
                forall|j: int|
                    0 <= j < i ==> ((#[trigger] existing@[j]) matches Some(other) ==> other.interface@
                        != tag.interface@ || other.remote != tag.remote),
            decreases existing@.len() - i,
        {
            if let Some(other) = &existing[i] {
                if same_bytes(other.interface.as_slice(), tag.interface.as_slice()) && other.remote
                    == tag.remote {
                    assert(existing@[i as int] is Some);
                    return false;
                }
            }
            i = i + 1;
        }
        true
    }
}

fn has_tag(tags: &Vec<UdpLinkTag>, tag: &UdpLinkTag) -> (r: bool)
    ensures
        r == models(tags@).contains(tag@),
{
    let mut i: usize = 0;
    while i < tags.len()
        invariant
            i <= tags@.len(),
            forall|j: int| 0 <= j < i ==> (#[trigger] models(tags@)[j]) != tag@,
        decreases tags@.len() - i,
    {
        assert(models(tags@)[i as int] == tags@[i as int]@);
        if tags[i].same_tag(tag) {
            return true;
        }
        i = i + 1;
    }
    false
}

/// Both lists hold the same tags.
pub open spec fn same_tags(a: Seq<UdpTagModel>, b: Seq<UdpTagModel>) -> bool {
    forall|t: UdpTagModel| a.contains(t) <==> b.contains(t)
}

fn has_all(a: &Vec<UdpLinkTag>, b: &Vec<UdpLinkTag>) -> (r: bool)
    ensures
        r == (forall|t: UdpTagModel| models(b@).contains(t) ==> models(a@).contains(t)),
{
    let mut i: usize = 0;
    while i < b.len()
        invariant
            i <= b@.len(),
            forall|k: int| 0 <= k < i ==> models(a@).contains(#[trigger] models(b@)[k]),
        decreases b@.len() - i,
    {
        assert(models(b@)[i as int] == b@[i as int]@);
        if !has_tag(a, &b[i]) {
            assert(models(b@).contains(b@[i as int]@));
            return false;
        }
        i = i + 1;
    }
    true
}

/// Returns whether the set of link tags has changed.
pub fn tags_changed(old_tags: &Vec<UdpLinkTag>, new_tags: &Vec<UdpLinkTag>) -> (r: bool)
    ensures
        r == !same_tags(models(old_tags@), models(new_tags@)),
{
    !(has_all(old_tags, new_tags) && has_all(new_tags, old_tags))
}

proof fn tags_for_no_duplicates(before: Seq<UdpTagModel>, target: SocketAddr, names: Seq<Seq<u8>>)
    requires
        before.no_duplicates(),
    ensures
        tags_for(before, target, names).no_duplicates(),
    decreases names.len(),
{
    if names.len() > 0 {
        tags_for_no_duplicates(before, target, names.drop_last());
    }
}

/// No link is proposed twice.
pub proof fn all_tags_no_duplicates(
    targets: Seq<SocketAddr>,
    interfaces: Seq<NetworkInterface>,
)
    ensures
        all_tags(targets, interfaces).no_duplicates(),
    decreases targets.len(),
{
    if targets.len() > 0 {
        all_tags_no_duplicates(targets.drop_last(), interfaces);
        tags_for_no_duplicates(
            all_tags(targets.drop_last(), interfaces),
            targets.last(),
            names_for(interfaces, targets.last()),
        );
    }
}

proof fn push_members<A>(s: Seq<A>, last: A, a: A)
    ensures
        s.push(last).contains(a) <==> s.contains(a) || a == last,
{
    let all = s.push(last);
    assert(all[s.len() as int] == last);
    if s.contains(a) {
        let i = choose|i: int| 0 <= i < s.len() && s[i] == a;
        assert(all[i] == a);
    }
    if all.contains(a) {
        let i = choose|i: int| 0 <= i < all.len() && all[i] == a;
        if i < s.len() {
            assert(s[i] == a);
        }
    }
}

proof fn tags_for_members(
    before: Seq<UdpTagModel>,
    target: SocketAddr,
    names: Seq<Seq<u8>>,
    tag: UdpTagModel,
)
    ensures
        tags_for(before, target, names).contains(tag) <==> before.contains(tag) || tag.remote
            == target && tag.direction == Direction::Outgoing && names.contains(tag.interface),
    decreases names.len(),
{
    if names.len() > 0 {
        let rest = names.drop_last();
        let front = tags_for(before, target, rest);
        let last = UdpTagModel {
            interface: names.last(),
            remote: target,
            direction: Direction::Outgoing,
        };
        tags_for_members(before, target, rest, tag);
        push_members(front, last, tag);
        push_members(rest, names.last(), tag.interface);
        assert(rest.push(names.last()) =~= names);
        if tag.interface == names.last() && tag.remote == target && tag.direction
            == Direction::Outgoing {
            assert(tag == last);
        }
    }
}

/// A link is proposed exactly if it leads to one of the targets over an interface from
/// which that can be reached.
pub proof fn all_tags_members(
    targets: Seq<SocketAddr>,
    interfaces: Seq<NetworkInterface>,
    tag: UdpTagModel,
)
    ensures
        all_tags(targets, interfaces).contains(tag) <==> targets.contains(tag.remote)
            && tag.direction == Direction::Outgoing && names_for(interfaces, tag.remote).contains(
            tag.interface,
        ),
    decreases targets.len(),
{
    if targets.len() > 0 {
        let rest = targets.drop_last();
        let last = targets.last();
        all_tags_members(rest, interfaces, tag);
        tags_for_members(all_tags(rest, interfaces), last, names_for(interfaces, last), tag);
        push_members(rest, last, tag.remote);
        assert(rest.push(last) =~= targets);
    }
}

proof fn names_for_members(interfaces: Seq<NetworkInterface>, target: SocketAddr, name: Seq<u8>)
    requires
        names_for(interfaces, target).contains(name),
    ensures
        exists|i: int|
            0 <= i < interfaces.len() && utf8::encode_utf8((#[trigger] interfaces[i]).name@) == name
                && first_suitable(interfaces[i].addr@, target) is Some,
    decreases interfaces.len(),
{
    if interfaces.len() > 0 {
        let rest = interfaces.drop_last();
        let last = interfaces.last();
        push_members(names_for(rest, target), utf8::encode_utf8(last.name@), name);
        if names_for(rest, target).contains(name) {
            names_for_members(rest, target, name);
            let i = choose|i: int|
                0 <= i < rest.len() && utf8::encode_utf8((#[trigger] rest[i]).name@) == name
                    && first_suitable(rest[i].addr@, target) is Some;
            assert(interfaces[i] == rest[i]);
        } else {
            assert(interfaces[interfaces.len() - 1] == last);
        }
    }
}

proof fn named_is_first(interfaces: Seq<NetworkInterface>, name: Seq<u8>, i: int)
    requires
        0 <= i < interfaces.len(),
        utf8::encode_utf8(interfaces[i].name@) == name,
        forall|j: int| 0 <= j < i ==> utf8::encode_utf8((#[trigger] interfaces[j]).name@) != name,
    ensures
        interface_named(interfaces, name) == Some(interfaces[i]),
    decreases i,
{
    if i > 0 {
        let rest = interfaces.drop_first();
        assert(utf8::encode_utf8(interfaces[0].name@) != name);
        assert forall|j: int| 0 <= j < i - 1 implies utf8::encode_utf8((#[trigger] rest[j]).name@)
            != name by {
            assert(rest[j] == interfaces[j + 1]);
        }
        named_is_first(rest, name, i - 1);
    }
}

/// Where interfaces have different names, every proposed link has an address from which
/// it can be connected.
pub proof fn proposed_links_can_connect(
    targets: Seq<SocketAddr>,
    interfaces: Seq<NetworkInterface>,
    tag: UdpTagModel,
)
    requires
        all_tags(targets, interfaces).contains(tag),
        forall|i: int, j: int|
            0 <= i < j < interfaces.len() ==> utf8::encode_utf8((#[trigger] interfaces[i]).name@)
                != utf8::encode_utf8((#[trigger] interfaces[j]).name@),
    ensures
        interface_named(interfaces, tag.interface) matches Some(interface) && first_suitable(
            interface.addr@,
            tag.remote,
        ) is Some,
{
    all_tags_members(targets, interfaces, tag);
    names_for_members(interfaces, tag.remote, tag.interface);
    let i = choose|i: int|
        0 <= i < interfaces.len() && utf8::encode_utf8((#[trigger] interfaces[i]).name@)
            == tag.interface && first_suitable(interfaces[i].addr@, tag.remote) is Some;
    assert forall|j: int| 0 <= j < i implies utf8::encode_utf8((#[trigger] interfaces[j]).name@)
        != tag.interface by {
        assert(utf8::encode_utf8(interfaces[j].name@) != utf8::encode_utf8(interfaces[i].name@));
    }
    named_is_first(interfaces, tag.interface, i);
}

} // verus!
