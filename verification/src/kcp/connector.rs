//! Outgoing KCP links.
use crate::addr::{IpAddr, Ipv4Addr, Ipv6Addr, SocketAddr};
use crate::kcp::config::KcpConfig;
use crate::kcp::filter::KcpLinkFilter;
use crate::kcp::link_tag::{Direction, KcpLinkTag};
use crate::kcp::plan;
use crate::kcp::plan::Link;
use crate::kcp::util;
use crate::kcp::util::{InvalidInput, NetworkInterface};
use crate::time::Duration;
use vstd::prelude::*;
use vstd::slice::slice_to_vec;

verus! {

/// KCP transport for outgoing connections to several targets.
#[derive(Debug, Clone)]
pub struct KcpConnector {
    targets: Vec<SocketAddr>,
    cfg: KcpConfig,
    filter: KcpLinkFilter,
    resolve_interval: Duration,
}

/// How a link is connected.
#[derive(Debug, Clone, Copy, PartialEq, Eq, Structural)]
pub enum ConnectMode {
    /// Without binding to a local address.
    Direct,
    /// From a socket bound to the local address.
    Bound(SocketAddr),
}

/// The unspecified address for each target.
pub open spec fn unspecified_locals(targets: Seq<SocketAddr>) -> Seq<SocketAddr> {
    targets.map_values(|t: SocketAddr| util::unspecified_like(t.host()))
}

/// The specified addresses, with port zero.
pub open spec fn specified_locals(ips: Seq<IpAddr>) -> Seq<SocketAddr>
    decreases ips.len(),
{
    if ips.len() == 0 {
        Seq::empty()
    } else if ips.last().unspecified() {
        specified_locals(ips.drop_last())
    } else {
        specified_locals(ips.drop_last()).push(SocketAddr::of(ips.last(), 0))
    }
}

/// The links as outgoing link tags.
pub open spec fn outgoing_tags(links: Seq<Link>) -> Seq<KcpLinkTag> {
    links.map_values(
        |l: Link| KcpLinkTag { local: l.0, remote: l.1, direction: Direction::Outgoing },
    )
}

impl KcpConnector {
    /// The target addresses.
    pub closed spec fn target_addrs(&self) -> Seq<SocketAddr> {
        self.targets@
    }

    /// The configuration.
    pub closed spec fn cfg(&self) -> KcpConfig {
        self.cfg
    }

    /// The link filter.
    pub closed spec fn link_filter(&self) -> KcpLinkFilter {
        self.filter
    }

    /// How often network interfaces are checked.
    pub closed spec fn interval(&self) -> Duration {
        self.resolve_interval
    }

    /// The local addresses that links may start from.
    pub open spec fn locals(&self, interfaces: Seq<NetworkInterface>) -> Seq<SocketAddr> {
        match self.link_filter() {
            KcpLinkFilter::NoFilter => unspecified_locals(self.target_addrs()),
            _ => if specified_locals(util::all_ips(interfaces)).len() == 0 {
                seq![
                    util::unspecified_like(IpAddr::V4(Ipv4Addr { bits: 0 })),
                    util::unspecified_like(IpAddr::V6(Ipv6Addr { bits: 0 })),
                ]
            } else {
                specified_locals(util::all_ips(interfaces))
            },
        }
    }

    /// Creates a transport for outgoing connections, which does not filter links
    /// and checks network interfaces every ten seconds.
    pub fn new(cfg: KcpConfig, targets: Vec<SocketAddr>) -> (c: KcpConnector)
        ensures
            c.cfg() == cfg,
            c.target_addrs() == targets@,
            c.link_filter() == KcpLinkFilter::NoFilter,
            c.interval().nanos == 10_000_000_000,
    {
        KcpConnector {
            targets,
            cfg,
            filter: KcpLinkFilter::default(),
            resolve_interval: Duration::from_secs(10),
        }
    }

    /// Returns the configuration.
    pub fn config(&self) -> (cfg: &KcpConfig)
        ensures
            *cfg == self.cfg(),
    {
        &self.cfg
    }

    /// Returns the target addresses.
    pub fn targets(&self) -> (targets: &[SocketAddr])
        ensures
            targets@ == self.target_addrs(),
    {
        self.targets.as_slice()
    }

    /// Returns how often network interfaces are checked.
    pub fn resolve_interval(&self) -> (interval: Duration)
        ensures
            interval == self.interval(),
    {
        self.resolve_interval
    }

    /// Sets the link filter method.
    pub fn set_filter(&mut self, filter: KcpLinkFilter)
        ensures
            final(self).link_filter() == filter,
            final(self).cfg() == old(self).cfg(),
            final(self).target_addrs() == old(self).target_addrs(),
            final(self).interval() == old(self).interval(),
    {
        self.filter = filter;
    }

    /// Sets how often network interfaces are checked.
    pub fn set_resolve_interval(&mut self, resolve_interval: Duration)
        ensures
            final(self).interval() == resolve_interval,
            final(self).cfg() == old(self).cfg(),
            final(self).target_addrs() == old(self).target_addrs(),
            final(self).link_filter() == old(self).link_filter(),
    {
        self.resolve_interval = resolve_interval;
    }

    /// Returns the name of the transport.
    pub fn name(&self) -> (name: &'static str)
        ensures
            name@ == "kcp"@,
    {
        "kcp"
    }

    fn local_addresses(&self, interfaces: &[NetworkInterface]) -> (locals: Vec<SocketAddr>)
        ensures
            locals@ == self.locals(interfaces@),
    {
        let mut locals: Vec<SocketAddr> = Vec::new();
        match self.filter {
            KcpLinkFilter::NoFilter => {
                let mut i: usize = 0;
                while i < self.targets.len()
                    invariant
                        i <= self.targets@.len(),
                        locals@.len() == i,
                        forall|j: int|
                            0 <= j < i ==> #[trigger] locals@[j] == util::unspecified_like(
                                self.targets@[j].host(),
                            ),
                    decreases self.targets@.len() - i,
                {
                    locals.push(util::unspecified_for(self.targets[i].ip()));
                    i = i + 1;
                }
                assert(locals@ =~= unspecified_locals(self.targets@));
            },
            KcpLinkFilter::InterfaceIp | KcpLinkFilter::InterfaceName => {
                let ips = util::interface_ips(interfaces);
                let mut i: usize = 0;
                assert(ips@.take(0) =~= Seq::empty());
                while i < ips.len()
                    invariant
                        i <= ips@.len(),
                        locals@ == specified_locals(ips@.take(i as int)),
                    decreases ips@.len() - i,
                {
                    assert(ips@.take(i + 1).drop_last() =~= ips@.take(i as int));
                    if !ips[i].is_unspecified() {
                        locals.push(SocketAddr::new(ips[i], 0));
                    }
                    i = i + 1;
                }
                assert(ips@.take(i as int) =~= ips@);
                if locals.len() == 0 {
                    locals.push(util::unspecified_for(IpAddr::V4(Ipv4Addr { bits: 0 })));
                    locals.push(util::unspecified_for(IpAddr::V6(Ipv6Addr { bits: 0 })));
                    assert(locals@ =~= self.locals(interfaces@));
                }
            },
        }
        locals
    }

    /// Returns the tags of the links to be established, given the network
    /// interfaces of this machine. No tag occurs twice.
    pub fn link_tags(&self, interfaces: &[NetworkInterface]) -> (tags: Vec<KcpLinkTag>)
        ensures
            tags@ == outgoing_tags(
                plan::limited(
                    plan::candidates(
                        self.link_filter(),
                        self.locals(interfaces@),
                        self.target_addrs(),
                        interfaces@,
                    ),
                ),
            ),
            tags@.no_duplicates(),
    {
        let locals = self.local_addresses(interfaces);
        let links = plan::plan_links(
            self.filter,
            locals.as_slice(),
            self.targets.as_slice(),
            interfaces,
        );
        let mut tags: Vec<KcpLinkTag> = Vec::new();
        let mut i: usize = 0;
        while i < links.len()
            invariant
                i <= links@.len(),
                tags@.len() == i,
                forall|j: int|
                    0 <= j < i ==> #[trigger] tags@[j] == (KcpLinkTag {
                        local: links@[j].0,
                        remote: links@[j].1,
                        direction: Direction::Outgoing,
                    }),
            decreases links@.len() - i,
        {
            tags.push(KcpLinkTag::new(links[i].0, links[i].1, Direction::Outgoing));
            i = i + 1;
        }
        proof {
            assert(tags@ =~= outgoing_tags(links@));
            plan::limited_is_fair(
                plan::candidates(
                    self.link_filter(),
                    self.locals(interfaces@),
                    self.target_addrs(),
                    interfaces@,
                ),
            );
            assert forall|i: int, j: int|
                0 <= i < tags@.len() && 0 <= j < tags@.len() && i != j implies tags@[i]
                != tags@[j] by {
                assert(links@[i] != links@[j]);
            }
        }
        tags
    }

    /// Returns how a link is connected: from its local address, unless that is
    /// unspecified.
    pub fn connect_mode(tag: &KcpLinkTag) -> (mode: ConnectMode)
        ensures
            mode == (if tag.local.host().unspecified() {
                ConnectMode::Direct
            } else {
                ConnectMode::Bound(tag.local)
            }),
    {
        if tag.local.ip().is_unspecified() {
            ConnectMode::Direct
        } else {
            ConnectMode::Bound(tag.local)
        }
    }
}

/// Both lists hold the same tags.
pub open spec fn same_tags(a: Seq<KcpLinkTag>, b: Seq<KcpLinkTag>) -> bool {
    forall|t: KcpLinkTag| a.contains(t) <==> b.contains(t)
}

fn includes(a: &[KcpLinkTag], b: &[KcpLinkTag]) -> (r: bool)
    ensures
        r == (forall|t: KcpLinkTag| b@.contains(t) ==> a@.contains(t)),
{
    let mut i: usize = 0;
    while i < b.len()
        invariant
            i <= b@.len(),
            forall|k: int| 0 <= k < i ==> a@.contains(#[trigger] b@[k]),
        decreases b@.len() - i,
    {
        let mut found = false;
        let mut j: usize = 0;
        while j < a.len()
            invariant
                j <= a@.len(),
                i < b@.len(),
                found == (exists|k: int| 0 <= k < j && a@[k] == b@[i as int]),
            decreases a@.len() - j,
        {
            if a[j] == b[i] {
                assert(a@[j as int] == b@[i as int]);
                found = true;
            }
            j = j + 1;
        }
        if !found {
            assert(b@.contains(b@[i as int]) && !a@.contains(b@[i as int]));
            return false;
        }
        i = i + 1;
    }
    true
}

/// Returns whether the set of link tags has changed.
pub fn tags_changed(old_tags: &[KcpLinkTag], new_tags: &[KcpLinkTag]) -> (r: bool)
    ensures
        r == !same_tags(old_tags@, new_tags@),
{
    !(includes(old_tags, new_tags) && includes(new_tags, old_tags))
}

/// Checks that there is at least one listener.
pub fn check_listeners(listeners: usize) -> (r: Result<(), InvalidInput>)
    ensures
        r == (if listeners == 0 {
            Err(InvalidInput::NoListener)
        } else {
            Ok(())
        }),
{
    if listeners == 0 {
        Err(InvalidInput::NoListener)
    } else {
        Ok(())
    }
}

} // verus!
