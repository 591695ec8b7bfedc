//! Choice of the link that carries the next packet.
use crate::link_state::UnorderedLinkState;
use crate::time::{Duration, Instant};
use crate::turns;
use crate::unordered_cfg::{LoadBalanceStrategy, NodeRole};
use crate::unordered_msg::LinkId;
use crate::vec_map;
use crate::vec_map::VecMap;
use vstd::prelude::*;

verus! {

/// A measured quantity, by its rank among all such quantities: zero has rank
/// zero, and a larger quantity has a larger rank. What is not a number has no
/// rank and compares with nothing.
///
/// The rank of a positive double-precision number is its bit pattern read as an
/// integer; that of a negative one is minus the rank of its absolute value.
#[derive(Debug, Clone, Copy, PartialEq, Eq, Structural)]
pub struct Measure {
    /// The rank.
    pub rank: Option<i64>,
}

/// Performance metrics for a link.
#[derive(Debug, Clone, Copy, PartialEq, Eq, Structural)]
pub struct LinkMetrics {
    /// Average round-trip time in whole milliseconds.
    pub avg_rtt: u128,
    /// Sending bandwidth.
    pub send_bandwidth: Measure,
    /// Receiving bandwidth.
    pub recv_bandwidth: Measure,
    /// Last update.
    pub last_update: Instant,
}

/// Outcome of drawing a number below the sum of all weights and taking away
/// the weight of one healthy link after the other.
#[derive(Debug, Clone)]
pub struct WeightedDraw {
    /// Whether the sum of all weights is zero.
    pub no_weight: bool,
    /// For each healthy link: whether nothing is left after its weight has
    /// been taken away.
    pub used_up: Vec<bool>,
}

/// What the weight of a link is based on.
#[derive(Debug, Clone, Copy, PartialEq, Eq, Structural)]
pub enum BandwidthBase {
    /// Nothing was measured: one.
    Unmeasured,
    /// The receiving bandwidth.
    Receive,
    /// The sending bandwidth.
    Send,
    /// The mean of both.
    Mean,
}

/// The identifiers of the healthy links, in their order.
pub open spec fn healthy_ids(links: Seq<(LinkId, UnorderedLinkState)>) -> Seq<LinkId>
    decreases links.len(),
{
    if links.len() == 0 {
        Seq::empty()
    } else if links.last().1.is_healthy {
        healthy_ids(links.drop_last()).push(links.last().0)
    } else {
        healthy_ids(links.drop_last())
    }
}

/// The rank of a link's sending bandwidth, if it is above zero.
pub open spec fn bandwidth_rank(metrics: Seq<(LinkId, LinkMetrics)>, id: LinkId) -> Option<i64> {
    match vec_map::value(metrics, id) {
        Some(m) => match m.send_bandwidth.rank {
            Some(r) => if r > 0 {
                Some(r)
            } else {
                None
            },
            None => None,
        },
        None => None,
    }
}

/// A link's round-trip time in milliseconds, if it was measured.
pub open spec fn rtt_of(metrics: Seq<(LinkId, LinkMetrics)>, id: LinkId) -> Option<u128> {
    match vec_map::value(metrics, id) {
        Some(m) => Some(m.avg_rtt),
        None => None,
    }
}

/// Among the first `n` links, the one at `i` is the first of those with the
/// largest bandwidth; it is the first link if none has a bandwidth.
pub open spec fn widest(
    ids: Seq<LinkId>,
    metrics: Seq<(LinkId, LinkMetrics)>,
    n: int,
    i: int,
) -> bool {
    match bandwidth_rank(metrics, ids[i]) {
        Some(best) => {
            &&& 0 <= i < n
            &&& forall|j: int|
                0 <= j < n ==> (bandwidth_rank(metrics, #[trigger] ids[j]) matches Some(r) ==> r < best
                    || r == best && i <= j)
        },
        None => i == 0 && forall|j: int|
            0 <= j < n ==> bandwidth_rank(metrics, #[trigger] ids[j]) is None,
    }
}

/// Among the first `n` links, the one at `i` is the first of those with the
/// smallest round-trip time; it is the first link if none has one.
pub open spec fn fastest(
    ids: Seq<LinkId>,
    metrics: Seq<(LinkId, LinkMetrics)>,
    n: int,
    i: int,
) -> bool {
    match rtt_of(metrics, ids[i]) {
        Some(best) => {
            &&& 0 <= i < n
            &&& forall|j: int|
                0 <= j < n ==> (rtt_of(metrics, #[trigger] ids[j]) matches Some(r) ==> best < r || r
                    == best && i <= j)
        },
        None => i == 0 && forall|j: int|
            0 <= j < n ==> rtt_of(metrics, #[trigger] ids[j]) is None,
    }
}

/// The draw falls on the link at `i` of `n`: the first whose weight used up
/// the drawn number, or the last. Without any weight it is the first.
pub open spec fn drawn(draw: WeightedDraw, n: int, i: int) -> bool {
    if draw.no_weight {
        i == 0
    } else {
        &&& 0 <= i < n
        &&& forall|j: int| 0 <= j < i && j < draw.used_up@.len() ==> !#[trigger] draw.used_up@[j]
        &&& i < n - 1 ==> i < draw.used_up@.len() && draw.used_up@[i]
    }
}

/// The strategy picks the healthy link at `i`.
pub open spec fn picks(
    strategy: LoadBalanceStrategy,
    index: usize,
    metrics: Seq<(LinkId, LinkMetrics)>,
    ids: Seq<LinkId>,
    draw: WeightedDraw,
    i: int,
) -> bool {
    match strategy {
        LoadBalanceStrategy::PacketRoundRobin => i == index as int % ids.len() as int,
        LoadBalanceStrategy::WeightedByBandwidth => widest(ids, metrics, ids.len() as int, i),
        LoadBalanceStrategy::FastestFirst => fastest(ids, metrics, ids.len() as int, i),
        LoadBalanceStrategy::WeightedByPacketLoss => drawn(draw, ids.len() as int, i),
        LoadBalanceStrategy::DynamicAdaptive => drawn(draw, ids.len() as int, i),
    }
}

/// `choice` is the link that the balancer chooses: one that its strategy picks
/// among the healthy links; the first link if none is healthy; none if there
/// are no links.
pub open spec fn chooses(
    strategy: LoadBalanceStrategy,
    index: usize,
    metrics: Seq<(LinkId, LinkMetrics)>,
    links: Seq<(LinkId, UnorderedLinkState)>,
    draw: WeightedDraw,
    choice: Option<LinkId>,
) -> bool {
    let ids = healthy_ids(links);
    if links.len() == 0 {
        choice is None
    } else if ids.len() == 0 {
        choice == Some(links[0].0)
    } else {
        exists|i: int|
            0 <= i < ids.len() && choice == Some(ids[i]) && #[trigger] picks(
                strategy,
                index,
                metrics,
                ids,
                draw,
                i,
            )
    }
}

/// Load balancer for unordered aggregation.
#[derive(Debug, Clone)]
pub struct UnorderedLoadBalancer {
    strategy: LoadBalanceStrategy,
    round_robin_index: usize,
    link_metrics: VecMap<LinkId, LinkMetrics>,
    node_role: NodeRole,
}

impl UnorderedLoadBalancer {
    /// The strategy in use.
    pub closed spec fn strategy(&self) -> LoadBalanceStrategy {
        self.strategy
    }

    /// How many round-robin choices were made, modulo the number of values of
    /// a counter.
    pub closed spec fn index(&self) -> usize {
        self.round_robin_index
    }

    /// What was measured of each link.
    pub closed spec fn metrics(&self) -> Seq<(LinkId, LinkMetrics)> {
        self.link_metrics@
    }

    /// The role of the node.
    pub closed spec fn role(&self) -> NodeRole {
        self.node_role
    }

    /// Every link has been measured at most once.
    pub closed spec fn wf(&self) -> bool {
        self.link_metrics.wf()
    }

    /// `choice` is the link that this balancer chooses among `links`.
    pub open spec fn would_choose(
        &self,
        links: Seq<(LinkId, UnorderedLinkState)>,
        draw: WeightedDraw,
        choice: Option<LinkId>,
    ) -> bool {
        chooses(self.strategy(), self.index(), self.metrics(), links, draw, choice)
    }

    /// `after` is this balancer once it has chosen among `links`: a round-robin
    /// choice among healthy links counts, and nothing else changes.
    pub open spec fn advanced(
        &self,
        after: UnorderedLoadBalancer,
        links: Seq<(LinkId, UnorderedLinkState)>,
    ) -> bool {
        &&& after.strategy() == self.strategy()
        &&& after.metrics() == self.metrics()
        &&& after.role() == self.role()
        &&& after.index() == (if self.strategy() == LoadBalanceStrategy::PacketRoundRobin
            && healthy_ids(links).len() > 0 {
            turns::later(self.index(), 1)
        } else {
            self.index()
        })
    }

    /// What the weight of a link is based on.
    pub open spec fn base(&self, link_id: LinkId) -> BandwidthBase {
        if !vec_map::has(self.metrics(), link_id) {
            BandwidthBase::Unmeasured
        } else {
            match self.role() {
                NodeRole::Client => BandwidthBase::Receive,
                NodeRole::Server => BandwidthBase::Send,
                NodeRole::Balanced => BandwidthBase::Mean,
            }
        }
    }

    /// Creates a load balancer.
    pub fn new(strategy: LoadBalanceStrategy, node_role: NodeRole) -> (b: UnorderedLoadBalancer)
        ensures
            b.wf(),
            b.strategy() == strategy,
            b.role() == node_role,
            b.index() == 0,
            b.metrics() == Seq::<(LinkId, LinkMetrics)>::empty(),
    {
        UnorderedLoadBalancer {
            strategy,
            round_robin_index: 0,
            link_metrics: VecMap::new(),
            node_role,
        }
    }

    /// Stores what was measured of a link.
    pub fn update_link_metrics(
        &mut self,
        link_id: LinkId,
        rtt: Duration,
        send: Measure,
        recv: Measure,
        now: Instant,
    )
        requires
            old(self).wf(),
        ensures
            final(self).wf(),
            final(self).strategy() == old(self).strategy(),
            final(self).role() == old(self).role(),
            final(self).index() == old(self).index(),
            final(self).metrics() == vec_map::with(
                old(self).metrics(),
                link_id,
                (LinkMetrics {
                    avg_rtt: rtt.millis() as u128,
                    send_bandwidth: send,
                    recv_bandwidth: recv,
                    last_update: now,
                }),
            ),
    {
        self.link_metrics.insert(
            link_id,
            LinkMetrics {
                avg_rtt: rtt.as_millis(),
                send_bandwidth: send,
                recv_bandwidth: recv,
                last_update: now,
            },
        );
    }

    /// Stores what was measured of a link with the same bandwidth in both
    /// directions.
    pub fn update_link_metrics_simple(
        &mut self,
        link_id: LinkId,
        rtt: Duration,
        bandwidth: Measure,
        now: Instant,
    )
        requires
            old(self).wf(),
        ensures
            final(self).wf(),
            final(self).strategy() == old(self).strategy(),
            final(self).role() == old(self).role(),
            final(self).index() == old(self).index(),
            final(self).metrics() == vec_map::with(
                old(self).metrics(),
                link_id,
                (LinkMetrics {
                    avg_rtt: rtt.millis() as u128,
                    send_bandwidth: bandwidth,
                    recv_bandwidth: bandwidth,
                    last_update: now,
                }),
            ),
    {
        self.update_link_metrics(link_id, rtt, bandwidth, bandwidth, now);
    }

    /// Returns what was measured of a link.
    pub fn link_metrics(&self, link_id: LinkId) -> (measured: Option<LinkMetrics>)
        ensures
            measured == vec_map::value(self.metrics(), link_id),
    {
        match self.link_metrics.get(&link_id) {
            Some(m) => Some(*m),
            None => None,
        }
    }

    /// Returns what the weight of a link is based on: the direction that counts
    /// for the role of the node.
    pub fn bandwidth_base(&self, link_id: LinkId) -> (base: BandwidthBase)
        ensures
            base == self.base(link_id),
    {
        if !self.link_metrics.contains_key(&link_id) {
            BandwidthBase::Unmeasured
        } else {
            match self.node_role {
                NodeRole::Client => BandwidthBase::Receive,
                NodeRole::Server => BandwidthBase::Send,
                NodeRole::Balanced => BandwidthBase::Mean,
            }
        }
    }

    fn widest_link(&self, ids: &Vec<LinkId>) -> (best: usize)
        requires
            ids@.len() > 0,
        ensures
            best < ids@.len(),
            widest(ids@, self.metrics(), ids@.len() as int, best as int),
    {
        let mut best: usize = 0;
        let mut best_rank: i64 = 0;
        let mut i: usize = 0;
        while i < ids.len()
            invariant
                i <= ids@.len(),
                best < ids@.len(),
                i == 0 ==> best == 0 && best_rank == 0,
                best_rank >= 0,
                i > 0 ==> widest(ids@, self.metrics(), i as int, best as int),
                best_rank > 0 ==> bandwidth_rank(self.metrics(), ids@[best as int]) == Some(
                    best_rank,
                ),
                best_rank == 0 ==> best == 0 && forall|j: int|
                    0 <= j < i ==> bandwidth_rank(self.metrics(), #[trigger] ids@[j]) is None,
            decreases ids@.len() - i,
        {
            match self.link_metrics.get(&ids[i]) {
                Some(m) => match m.send_bandwidth.rank {
                    Some(r) => {
                        if r > best_rank {
                            best_rank = r;
                            best = i;
                        }
                    },
                    None => {},
                },
                None => {},
            }
            i = i + 1;
        }
        best
    }

    fn fastest_link(&self, ids: &Vec<LinkId>) -> (best: usize)
        requires
            ids@.len() > 0,
        ensures
            best < ids@.len(),
            fastest(ids@, self.metrics(), ids@.len() as int, best as int),
    {
        let mut best: usize = 0;
        let mut best_rtt: Option<u128> = None;
        let mut i: usize = 0;
        while i < ids.len()
            invariant
                i <= ids@.len(),
                best < ids@.len(),
                i == 0 ==> best == 0 && best_rtt is None,
                i > 0 ==> fastest(ids@, self.metrics(), i as int, best as int),
                best_rtt is Some ==> rtt_of(self.metrics(), ids@[best as int]) == best_rtt,
                best_rtt is None ==> best == 0 && forall|j: int|
                    0 <= j < i ==> rtt_of(self.metrics(), #[trigger] ids@[j]) is None,
            decreases ids@.len() - i,
        {
            match self.link_metrics.get(&ids[i]) {
                Some(m) => {
                    let better = match best_rtt {
                        Some(rtt) => m.avg_rtt < rtt,
                        None => true,
                    };
                    if better {
                        best_rtt = Some(m.avg_rtt);
                        best = i;
                    }
                },
                None => {},
            }
            i = i + 1;
        }
        best
    }

    /// Selects a link for sending data.
    ///
    /// The outcome of the weighted draw counts for the weighted strategies
    /// only.
    pub fn select_link(
        &mut self,
        links: &VecMap<LinkId, UnorderedLinkState>,
        draw: &WeightedDraw,
    ) -> (choice: Option<LinkId>)
        requires
            old(self).wf(),
        ensures
            final(self).wf(),
            old(self).would_choose(links@, *draw, choice),
            old(self).advanced(*final(self), links@),
    {
        let ids = healthy_links(links);
        if ids.len() == 0 {
            if links.is_empty() {
                return None;
            }
            return Some(*links.key_at(0));
        }
        let at: usize = match self.strategy {
            LoadBalanceStrategy::PacketRoundRobin => {
                let index: usize = self.round_robin_index;
                proof {
                    turns::next_turn(index);
                }
                self.round_robin_index = index.wrapping_add(1);
                index % ids.len()
            },
            LoadBalanceStrategy::WeightedByBandwidth => self.widest_link(&ids),
            LoadBalanceStrategy::FastestFirst => self.fastest_link(&ids),
            LoadBalanceStrategy::WeightedByPacketLoss => drawn_link(draw, ids.len()),
            LoadBalanceStrategy::DynamicAdaptive => drawn_link(draw, ids.len()),
        };
        assert(picks(
            old(self).strategy(),
            old(self).index(),
            old(self).metrics(),
            ids@,
            *draw,
            at as int,
        ));
        Some(ids[at])
    }

    /// Selects a link for sending data of a session. Sessions have no link of
    /// their own: every packet is balanced by itself.
    pub fn select_link_with_session(
        &mut self,
        links: &VecMap<LinkId, UnorderedLinkState>,
        draw: &WeightedDraw,
        _session_id: u64,
    ) -> (choice: Option<LinkId>)
        requires
            old(self).wf(),
        ensures
            final(self).wf(),
            old(self).would_choose(links@, *draw, choice),
            old(self).advanced(*final(self), links@),
    {
        self.select_link(links, draw)
    }
}

/// Returns the identifiers of the healthy links, in their order.
pub fn healthy_links(links: &VecMap<LinkId, UnorderedLinkState>) -> (ids: Vec<LinkId>)
    ensures
        ids@ == healthy_ids(links@),
{
    let mut ids: Vec<LinkId> = Vec::new();
    let n: usize = links.len();
    let mut i: usize = 0;
    assert(links@.take(0) =~= Seq::empty());
    while i < n
        invariant
            i <= n,
            n == links@.len(),
            ids@ == healthy_ids(links@.take(i as int)),
        decreases n - i,
    {
        assert(links@.take(i + 1).drop_last() =~= links@.take(i as int));
        if links.value_at(i).is_healthy {
            ids.push(*links.key_at(i));
        }
        i = i + 1;
    }
    assert(links@.take(n as int) =~= links@);
    ids
}

fn drawn_link(draw: &WeightedDraw, n: usize) -> (i: usize)
    requires
        n > 0,
    ensures
        i < n,
        drawn(*draw, n as int, i as int),
{
    if draw.no_weight {
        return 0;
    }
    let mut i: usize = 0;
    while i < n - 1
        invariant
            i <= n - 1,
            !draw.no_weight,
            forall|j: int| 0 <= j < i && j < draw.used_up@.len() ==> !#[trigger] draw.used_up@[j],
        decreases n - i,
    {
        if i < draw.used_up.len() && draw.used_up[i] {
            return i;
        }
        i = i + 1;
    }
    i
}

/// A healthy link comes from a link of the aggregation that is healthy.
pub proof fn healthy_ids_are_healthy(links: Seq<(LinkId, UnorderedLinkState)>, i: int)
    requires
        0 <= i < healthy_ids(links).len(),
    ensures
        exists|j: int|
            0 <= j < links.len() && (#[trigger] links[j]).0 == healthy_ids(links)[i]
                && links[j].1.is_healthy,
    decreases links.len(),
{
    let front = links.drop_last();
    if i < healthy_ids(front).len() {
        healthy_ids_are_healthy(front, i);
        let j = choose|j: int|
            0 <= j < front.len() && (#[trigger] front[j]).0 == healthy_ids(front)[i]
                && front[j].1.is_healthy;
        assert(links[j] == front[j]);
    } else {
        assert(links[links.len() - 1] == links.last());
    }
}

/// Every healthy link is among the healthy links.
pub proof fn healthy_ids_complete(links: Seq<(LinkId, UnorderedLinkState)>, j: int)
    requires
        0 <= j < links.len(),
        links[j].1.is_healthy,
    ensures
        healthy_ids(links).contains(links[j].0),
    decreases links.len(),
{
    let front = links.drop_last();
    let all = healthy_ids(links);
    if j < front.len() {
        healthy_ids_complete(front, j);
        let i = choose|i: int| 0 <= i < healthy_ids(front).len() && healthy_ids(front)[i] == links[j].0;
        assert(all[i] == links[j].0);
    } else {
        assert(all[all.len() - 1] == links[j].0);
    }
}

/// Where there is a healthy link, the chosen link is a healthy one; where there
/// is any link, one is chosen.
pub proof fn choice_is_healthy(
    strategy: LoadBalanceStrategy,
    index: usize,
    metrics: Seq<(LinkId, LinkMetrics)>,
    links: Seq<(LinkId, UnorderedLinkState)>,
    draw: WeightedDraw,
    choice: Option<LinkId>,
)
    requires
        chooses(strategy, index, metrics, links, draw, choice),
    ensures
        links.len() > 0 <==> choice is Some,
        choice is Some ==> exists|j: int|
            0 <= j < links.len() && (#[trigger] links[j]).0 == choice->0 && ((exists|k: int|
                0 <= k < links.len() && (#[trigger] links[k]).1.is_healthy) ==> links[j].1.is_healthy),
{
    let ids = healthy_ids(links);
    if links.len() > 0 {
        if ids.len() == 0 {
            assert forall|k: int| 0 <= k < links.len() implies !(#[trigger] links[k]).1.is_healthy by {
                if links[k].1.is_healthy {
                    healthy_ids_complete(links, k);
                }
            }
            assert(links[0].0 == choice->0);
        } else {
            let i = choose|i: int|
                0 <= i < ids.len() && choice == Some(ids[i]) && #[trigger] picks(
                    strategy,
                    index,
                    metrics,
                    ids,
                    draw,
                    i,
                );
            healthy_ids_are_healthy(links, i);
        }
    }
}

/// The choice is determined: a strategy picks one healthy link only.
pub proof fn pick_is_unique(
    strategy: LoadBalanceStrategy,
    index: usize,
    metrics: Seq<(LinkId, LinkMetrics)>,
    ids: Seq<LinkId>,
    draw: WeightedDraw,
    i: int,
    j: int,
)
    requires
        0 <= i < ids.len(),
        0 <= j < ids.len(),
        picks(strategy, index, metrics, ids, draw, i),
        picks(strategy, index, metrics, ids, draw, j),
    ensures
        i == j,
{
}

/// As many consecutive round-robin choices as there are healthy links reach every
/// one of them, unless the counter starts again from zero among them and its
/// number of values is no multiple of the number of healthy links.
pub proof fn round_robin_reaches_all(
    index: usize,
    metrics: Seq<(LinkId, LinkMetrics)>,
    ids: Seq<LinkId>,
    draw: WeightedDraw,
    target: int,
) -> (k: int)
    requires
        0 <= target < ids.len(),
        index + ids.len() - 1 <= usize::MAX || turns::usize_values() % (ids.len() as int) == 0,
    ensures
        0 <= k < ids.len(),
        picks(
            LoadBalanceStrategy::PacketRoundRobin,
            turns::later(index, k),
            metrics,
            ids,
            draw,
            target,
        ),
{
    turns::turns_reach_all(index, ids.len() as int, target)
}

/// Links with different identifiers have different identifiers among the healthy ones
/// too.
pub proof fn healthy_ids_are_distinct(links: Seq<(LinkId, UnorderedLinkState)>)
    requires
        vec_map::distinct(links),
    ensures
        healthy_ids(links).no_duplicates(),
    decreases links.len(),
{
    if links.len() > 0 {
        let front = links.drop_last();
        assert forall|i: int, j: int| 0 <= i < j < front.len() implies (#[trigger] front[i]).0
            != (#[trigger] front[j]).0 by {
            assert(links[i].0 != links[j].0);
        }
        healthy_ids_are_distinct(front);
        let ids = healthy_ids(front);
        assert forall|i: int| 0 <= i < ids.len() implies ids[i] != links.last().0 by {
            healthy_ids_are_healthy(front, i);
            let j = choose|j: int|
                0 <= j < front.len() && (#[trigger] front[j]).0 == ids[i] && front[j].1.is_healthy;
            assert(links[j].0 != links[links.len() - 1].0);
        }
    }
}

/// `states` is what a balancer went through while it made `choices` among the same
/// links, one after the other.
pub open spec fn choosing(
    states: Seq<UnorderedLoadBalancer>,
    links: Seq<(LinkId, UnorderedLinkState)>,
    draws: Seq<WeightedDraw>,
    choices: Seq<Option<LinkId>>,
) -> bool {
    &&& states.len() == choices.len() + 1
    &&& draws.len() == choices.len()
    &&& forall|i: int|
        #![trigger choices[i]]
        0 <= i < choices.len() ==> states[i].would_choose(links, draws[i], choices[i])
            && states[i].advanced(states[i + 1], links)
}

proof fn round_robin_state(
    states: Seq<UnorderedLoadBalancer>,
    links: Seq<(LinkId, UnorderedLinkState)>,
    draws: Seq<WeightedDraw>,
    choices: Seq<Option<LinkId>>,
    i: int,
)
    requires
        choosing(states, links, draws, choices),
        states[0].strategy() == LoadBalanceStrategy::PacketRoundRobin,
        healthy_ids(links).len() > 0,
        0 <= i <= choices.len(),
    ensures
        states[i].strategy() == LoadBalanceStrategy::PacketRoundRobin,
        states[i].index() == turns::later(states[0].index(), i),
    decreases i,
{
    let start = states[0].index();
    if i == 0 {
        turns::stays(start);
    } else {
        round_robin_state(states, links, draws, choices, i - 1);
        assert(states[i - 1].would_choose(links, draws[i - 1], choices[i - 1]));
        turns::turns_add_up(start, i - 1);
    }
}

/// The round-robin choices go through the healthy links in their order, again and
/// again, from the place that the counter is at.
pub proof fn round_robin_choice(
    states: Seq<UnorderedLoadBalancer>,
    links: Seq<(LinkId, UnorderedLinkState)>,
    draws: Seq<WeightedDraw>,
    choices: Seq<Option<LinkId>>,
    i: int,
)
    requires
        choosing(states, links, draws, choices),
        states[0].strategy() == LoadBalanceStrategy::PacketRoundRobin,
        healthy_ids(links).len() > 0,
        0 <= i < choices.len(),
        states[0].index() + choices.len() - 1 <= usize::MAX || turns::usize_values()
            % (healthy_ids(links).len() as int) == 0,
    ensures
        0 <= (states[0].index() + i) % (healthy_ids(links).len() as int) < healthy_ids(links).len(),
        choices[i] == Some(
            healthy_ids(links)[(states[0].index() + i) % (healthy_ids(links).len() as int)],
        ),
{
    let n = healthy_ids(links).len() as int;
    round_robin_state(states, links, draws, choices, i);
    turns::place_of_turn(states[0].index(), n, i);
    assert(states[i].would_choose(links, draws[i], choices[i]));
    assert(links.len() > 0);
    vstd::arithmetic::div_mod::lemma_mod_bound(states[0].index() + i, n);
}

/// Round-robin is fair: of `k` times as many choices as there are healthy links, each
/// healthy link gets exactly `k`, and nothing else gets any. Any run of choices that is
/// no longer than the number of healthy links goes to different links. This holds
/// unless the counter starts again from zero among the choices and its number of
/// values is no multiple of the number of healthy links.
pub proof fn round_robin_is_fair(
    states: Seq<UnorderedLoadBalancer>,
    links: Seq<(LinkId, UnorderedLinkState)>,
    draws: Seq<WeightedDraw>,
    choices: Seq<Option<LinkId>>,
    k: int,
)
    requires
        vec_map::distinct(links),
        choosing(states, links, draws, choices),
        states[0].strategy() == LoadBalanceStrategy::PacketRoundRobin,
        healthy_ids(links).len() > 0,
        0 <= k,
        choices.len() == k * healthy_ids(links).len(),
        states[0].index() + choices.len() - 1 <= usize::MAX || turns::usize_values()
            % (healthy_ids(links).len() as int) == 0,
    ensures
        forall|choice: Option<LinkId>| #[trigger]
            choices.to_multiset().count(choice) == (if choice is Some && healthy_ids(
                links,
            ).contains(choice->0) {
                k
            } else {
                0
            }),
        forall|l: int|
            0 <= l < links.len() ==> choices.to_multiset().count(Some((#[trigger] links[l]).0)) == (
            if links[l].1.is_healthy {
                k
            } else {
                0
            }),
        forall|i: int, j: int|
            0 <= i < j < i + healthy_ids(links).len() && j < choices.len() ==> #[trigger] choices[i]
                != #[trigger] choices[j],
{
    let ids = healthy_ids(links);
    let n = ids.len() as int;
    let start = states[0].index() as int;
    healthy_ids_are_distinct(links);
    assert forall|i: int, j: int|
        0 <= i < j < i + n && j < choices.len() implies #[trigger] choices[i]
        != #[trigger] choices[j] by {
        round_robin_choice(states, links, draws, choices, i);
        round_robin_choice(states, links, draws, choices, j);
        turns::window_has_no_repeats(start + i, start + j, n);
    }
    choices.to_multiset_ensures();
    assert forall|choice: Option<LinkId>| #[trigger]
        choices.to_multiset().count(choice) == (if choice is Some && ids.contains(choice->0) {
            k
        } else {
            0
        }) by {
        if choice is Some && ids.contains(choice->0) {
            let target = choose|t: int| 0 <= t < n && ids[t] == choice->0;
            assert forall|a: int| 0 <= a && a + n <= choices.len() implies (
            #[trigger] choices.subrange(a, a + n)).contains(choice) by {
                let j = turns::window_reaches_all(start + a, n, target);
                round_robin_choice(states, links, draws, choices, a + j);
                assert(choices.subrange(a, a + n)[j] == choice);
            }
            turns::counted_by_windows(choices, choice, n, k);
        } else if choices.contains(choice) {
            let i = choose|i: int| 0 <= i < choices.len() && choices[i] == choice;
            round_robin_choice(states, links, draws, choices, i);
        }
    }
    assert forall|l: int| 0 <= l < links.len() implies choices.to_multiset().count(
        Some((#[trigger] links[l]).0),
    ) == (if links[l].1.is_healthy {
        k
    } else {
        0
    }) by {
        if links[l].1.is_healthy {
            healthy_ids_complete(links, l);
        } else if ids.contains(links[l].0) {
            let i = choose|i: int| 0 <= i < n && ids[i] == links[l].0;
            healthy_ids_are_healthy(links, i);
            let m = choose|m: int|
                0 <= m < links.len() && (#[trigger] links[m]).0 == ids[i] && links[m].1.is_healthy;
            assert(l < m ==> links[l].0 != links[m].0);
            assert(m < l ==> links[m].0 != links[l].0);
        }
    }
}

/// No healthy link is excluded from the weighted choice: for each there is a draw
/// that falls on it.
pub proof fn weighted_choice_reaches_all(
    strategy: LoadBalanceStrategy,
    index: usize,
    metrics: Seq<(LinkId, LinkMetrics)>,
    ids: Seq<LinkId>,
    used_up: Vec<bool>,
    target: int,
)
    requires
        strategy == LoadBalanceStrategy::WeightedByPacketLoss || strategy
            == LoadBalanceStrategy::DynamicAdaptive,
        0 <= target < ids.len(),
        used_up@ == Seq::new(ids.len(), |i: int| i == target),
    ensures
        picks(strategy, index, metrics, ids, (WeightedDraw { no_weight: false, used_up }), target),
{
}

} // verus!
