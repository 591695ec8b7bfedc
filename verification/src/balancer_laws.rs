//! What callers of the load balancer can rely on.
use crate::link_state::UnorderedLinkState;
use crate::load_balancer;
use crate::load_balancer::{
    BandwidthBase, LinkMetrics, Measure, UnorderedLoadBalancer, WeightedDraw,
};
use crate::time::{Duration, Instant};
use crate::turns;
use crate::unordered_cfg::{LoadBalanceStrategy, NodeRole};
use crate::unordered_msg::LinkId;
use crate::vec_map;
use crate::vec_map::VecMap;
use vstd::prelude::*;

verus! {

/// The balancer was asked for a link, with or without a session, and chose this one.
pub open spec fn asked(
    b: &mut UnorderedLoadBalancer,
    links: &VecMap<LinkId, UnorderedLinkState>,
    draw: &WeightedDraw,
    session: Option<u64>,
    choice: Option<LinkId>,
) -> bool {
    match session {
        None => call_ensures(UnorderedLoadBalancer::select_link, (b, links, draw), choice),
        Some(id) => call_ensures(
            UnorderedLoadBalancer::select_link_with_session,
            (b, links, draw, id),
            choice,
        ),
    }
}

/// The identifiers of the links that are healthy, in the order of the links.
pub open spec fn healthy(links: Seq<(LinkId, UnorderedLinkState)>) -> Seq<LinkId> {
    links.filter(|link: (LinkId, UnorderedLinkState)| link.1.is_healthy).map_values(
        |link: (LinkId, UnorderedLinkState)| link.0,
    )
}

pub(crate) proof fn healthy_alike(links: Seq<(LinkId, UnorderedLinkState)>)
    ensures
        load_balancer::healthy_ids(links) == healthy(links),
    decreases links.len(),
{
    reveal(Seq::filter);
    let keep = |link: (LinkId, UnorderedLinkState)| link.1.is_healthy;
    let id = |link: (LinkId, UnorderedLinkState)| link.0;
    if links.len() > 0 {
        let rest = links.drop_last();
        healthy_alike(rest);
        if links.last().1.is_healthy {
            assert(links.filter(keep) == rest.filter(keep).push(links.last()));
            assert(links.filter(keep).map_values(id) =~= rest.filter(keep).map_values(id).push(
                links.last().0,
            ));
        }
    }
    assert(load_balancer::healthy_ids(links) =~= healthy(links));
}

/// The healthy links are listed in the order of the links, without any other.
pub proof fn healthy_links_are_listed(
    links: &VecMap<LinkId, UnorderedLinkState>,
    ids: Vec<LinkId>,
)
    requires
        call_ensures(load_balancer::healthy_links, (links,), ids),
    ensures
        ids@ == healthy(links@),
{
    healthy_alike(links@);
}

/// Whatever the strategy: with a healthy link a healthy link is chosen, else the first
/// link, and none only if there is none.
pub proof fn a_healthy_link_is_chosen(
    b: &mut UnorderedLoadBalancer,
    links: &VecMap<LinkId, UnorderedLinkState>,
    draw: &WeightedDraw,
    session: Option<u64>,
    choice: Option<LinkId>,
)
    requires
        asked(b, links, draw, session, choice),
    ensures
        if links@.len() == 0 {
            choice is None
        } else if healthy(links@).len() == 0 {
            choice == Some(links@[0].0)
        } else {
            choice matches Some(id) && healthy(links@).contains(id)
        },
{
    healthy_alike(links@);
}

/// A weighted choice falls on the first healthy link whose weight uses up the drawn number,
/// whatever is said of the links after it; on the last one if no weight does; and on the
/// first one if there is no weight at all.
pub proof fn first_used_up_link_is_chosen(
    b: &mut UnorderedLoadBalancer,
    links: &VecMap<LinkId, UnorderedLinkState>,
    draw: &WeightedDraw,
    session: Option<u64>,
    choice: Option<LinkId>,
    i: int,
)
    requires
        old(b).strategy() == LoadBalanceStrategy::WeightedByPacketLoss || old(b).strategy()
            == LoadBalanceStrategy::DynamicAdaptive,
        asked(b, links, draw, session, choice),
        draw.used_up@.len() == healthy(links@).len(),
        0 <= i < draw.used_up@.len(),
        forall|j: int| 0 <= j < i ==> !#[trigger] draw.used_up@[j],
        draw.used_up@[i] || i == draw.used_up@.len() - 1,
    ensures
        choice == Some(
            if draw.no_weight {
                healthy(links@)[0]
            } else {
                healthy(links@)[i]
            },
        ),
{
    healthy_alike(links@);
    let ids = load_balancer::healthy_ids(links@);
    if links@.len() == 0 {
        assert(ids.len() == 0);
    }
    let k = choose|k: int|
        0 <= k < ids.len() && choice == Some(ids[k]) && #[trigger] load_balancer::picks(
            old(b).strategy(),
            old(b).index(),
            old(b).metrics(),
            ids,
            *draw,
            k,
        );
    if !draw.no_weight && k != i {
        if k < i {
            assert(!draw.used_up@[k]);
        } else {
            assert(draw.used_up@[i]);
        }
    }
}

/// So every link is chosen for exactly the drawn numbers within its own weight: if the
/// weights before it leave something of the number, and its own weight does not, it is
/// chosen, and it is not chosen otherwise, unless it is the last one.
pub proof fn weights_decide(
    b: &mut UnorderedLoadBalancer,
    links: &VecMap<LinkId, UnorderedLinkState>,
    draw: &WeightedDraw,
    session: Option<u64>,
    choice: Option<LinkId>,
    weights: Seq<int>,
    number: int,
    i: int,
)
    requires
        old(b).strategy() == LoadBalanceStrategy::WeightedByPacketLoss || old(b).strategy()
            == LoadBalanceStrategy::DynamicAdaptive,
        vec_map::distinct(links@),
        asked(b, links, draw, session, choice),
        weights.len() == healthy(links@).len(),
        forall|j: int| 0 <= j < weights.len() ==> 0 <= #[trigger] weights[j],
        0 < number <= sum(weights),
        !draw.no_weight,
        draw.used_up@.len() == weights.len(),
        forall|j: int|
            0 <= j < weights.len() ==> #[trigger] draw.used_up@[j] == (number - sum(
                weights.take(j + 1),
            ) <= 0),
        0 <= i < weights.len(),
    ensures
        choice == Some(healthy(links@)[i]) <==> sum(weights.take(i)) < number <= sum(
            weights.take(i + 1),
        ),
{
    let n = weights.len() as int;
    assert(weights.take(n) =~= weights);
    let first = first_within(weights, number, n - 1);
    assert forall|j: int| 0 <= j < first implies !#[trigger] draw.used_up@[j] by {
        sum_grows(weights, j + 1, first);
    }
    assert(draw.used_up@[first]);
    first_used_up_link_is_chosen(b, links, draw, session, choice, first);
    healthy_alike(links@);
    load_balancer::healthy_ids_are_distinct(links@);
    if i < first {
        sum_grows(weights, i + 1, first);
    } else if first < i {
        sum_grows(weights, first + 1, i);
    }
}

/// The sum of weights.
pub open spec fn sum(weights: Seq<int>) -> int
    decreases weights.len(),
{
    if weights.len() == 0 {
        0
    } else {
        sum(weights.drop_last()) + weights.last()
    }
}

proof fn sum_step(weights: Seq<int>, i: int)
    requires
        0 <= i < weights.len(),
    ensures
        sum(weights.take(i + 1)) == sum(weights.take(i)) + weights[i],
{
    assert(weights.take(i + 1).drop_last() =~= weights.take(i));
}

proof fn sum_grows(weights: Seq<int>, i: int, j: int)
    requires
        0 <= i <= j <= weights.len(),
        forall|k: int| 0 <= k < weights.len() ==> 0 <= #[trigger] weights[k],
    ensures
        sum(weights.take(i)) <= sum(weights.take(j)),
    decreases j - i,
{
    if i < j {
        sum_grows(weights, i, j - 1);
        sum_step(weights, j - 1);
    }
}

proof fn first_within(weights: Seq<int>, number: int, i: int) -> (first: int)
    requires
        0 <= i < weights.len(),
        forall|k: int| 0 <= k < weights.len() ==> 0 <= #[trigger] weights[k],
        0 < number <= sum(weights.take(i + 1)),
    ensures
        0 <= first <= i,
        sum(weights.take(first)) < number <= sum(weights.take(first + 1)),
    decreases i,
{
    if sum(weights.take(i)) < number {
        i
    } else {
        if i == 0 {
            assert(weights.take(0) =~= Seq::empty());
        }
        first_within(weights, number, i - 1)
    }
}

/// By bandwidth: no healthy link has a larger sending bandwidth than the chosen one, and an
/// earlier one has a smaller one. What is not above zero, or not a number, does not count.
pub proof fn widest_link_is_chosen(
    b: &mut UnorderedLoadBalancer,
    links: &VecMap<LinkId, UnorderedLinkState>,
    draw: &WeightedDraw,
    session: Option<u64>,
    choice: Option<LinkId>,
    other: int,
    m: LinkMetrics,
    rank: i64,
)
    requires
        old(b).strategy() == LoadBalanceStrategy::WeightedByBandwidth,
        asked(b, links, draw, session, choice),
        0 <= other < healthy(links@).len(),
        vec_map::value(old(b).metrics(), healthy(links@)[other]) == Some(m),
        m.send_bandwidth.rank == Some(rank),
        rank > 0,
    ensures
        exists|i: int|
            0 <= i < healthy(links@).len() && choice == Some(#[trigger] healthy(links@)[i]) && (
            vec_map::value(old(b).metrics(), healthy(links@)[i]) matches Some(best) && (
            best.send_bandwidth.rank matches Some(largest) && (rank < largest || rank == largest && i
                <= other))),
{
    healthy_alike(links@);
    let ids = load_balancer::healthy_ids(links@);
    if links@.len() == 0 {
        assert(ids.len() == 0);
    }
    let i = choose|i: int|
        0 <= i < ids.len() && choice == Some(ids[i]) && #[trigger] load_balancer::picks(
            old(b).strategy(),
            old(b).index(),
            old(b).metrics(),
            ids,
            *draw,
            i,
        );
    assert(load_balancer::bandwidth_rank(old(b).metrics(), ids[other]) == Some(rank));
    assert(choice == Some(healthy(links@)[i]));
}

/// By latency: no healthy link has a shorter round-trip time than the chosen one, and an
/// earlier one has a longer one. Links that were not measured do not count.
pub proof fn fastest_link_is_chosen(
    b: &mut UnorderedLoadBalancer,
    links: &VecMap<LinkId, UnorderedLinkState>,
    draw: &WeightedDraw,
    session: Option<u64>,
    choice: Option<LinkId>,
    other: int,
    m: LinkMetrics,
)
    requires
        old(b).strategy() == LoadBalanceStrategy::FastestFirst,
        asked(b, links, draw, session, choice),
        0 <= other < healthy(links@).len(),
        vec_map::value(old(b).metrics(), healthy(links@)[other]) == Some(m),
    ensures
        exists|i: int|
            0 <= i < healthy(links@).len() && choice == Some(#[trigger] healthy(links@)[i]) && (
            vec_map::value(old(b).metrics(), healthy(links@)[i]) matches Some(best) && (best.avg_rtt
                < m.avg_rtt || best.avg_rtt == m.avg_rtt && i <= other)),
{
    healthy_alike(links@);
    let ids = load_balancer::healthy_ids(links@);
    if links@.len() == 0 {
        assert(ids.len() == 0);
    }
    let i = choose|i: int|
        0 <= i < ids.len() && choice == Some(ids[i]) && #[trigger] load_balancer::picks(
            old(b).strategy(),
            old(b).index(),
            old(b).metrics(),
            ids,
            *draw,
            i,
        );
    assert(load_balancer::rtt_of(old(b).metrics(), ids[other]) == Some(m.avg_rtt));
    assert(choice == Some(healthy(links@)[i]));
}

/// Without any measurement of a healthy link, both take the first healthy link.
pub proof fn unmeasured_links_are_taken_first(
    b: &mut UnorderedLoadBalancer,
    links: &VecMap<LinkId, UnorderedLinkState>,
    draw: &WeightedDraw,
    session: Option<u64>,
    choice: Option<LinkId>,
)
    requires
        old(b).strategy() == LoadBalanceStrategy::FastestFirst || old(b).strategy()
            == LoadBalanceStrategy::WeightedByBandwidth,
        asked(b, links, draw, session, choice),
        healthy(links@).len() > 0,
        forall|i: int|
            0 <= i < healthy(links@).len() ==> vec_map::value(
                old(b).metrics(),
                #[trigger] healthy(links@)[i],
            ) is None,
    ensures
        choice == Some(healthy(links@)[0]),
{
    healthy_alike(links@);
    let ids = load_balancer::healthy_ids(links@);
    if links@.len() == 0 {
        assert(ids.len() == 0);
    }
    let i = choose|i: int|
        0 <= i < ids.len() && choice == Some(ids[i]) && #[trigger] load_balancer::picks(
            old(b).strategy(),
            old(b).index(),
            old(b).metrics(),
            ids,
            *draw,
            i,
        );
    assert(vec_map::value(old(b).metrics(), healthy(links@)[i]) is None);
}

/// In turn: two requests in a row go to two healthy links that follow each other, the first
/// following the last, as long as the counter does not start again from zero.
pub proof fn next_link_is_next(
    b1: &mut UnorderedLoadBalancer,
    b2: &mut UnorderedLoadBalancer,
    links: &VecMap<LinkId, UnorderedLinkState>,
    d1: &WeightedDraw,
    d2: &WeightedDraw,
    s1: Option<u64>,
    s2: Option<u64>,
    first: Option<LinkId>,
    second: Option<LinkId>,
)
    requires
        old(b1).strategy() == LoadBalanceStrategy::PacketRoundRobin,
        healthy(links@).len() > 0,
        old(b1).index() < usize::MAX,
        asked(b1, links, d1, s1, first),
        *old(b2) == *final(b1),
        asked(b2, links, d2, s2, second),
    ensures
        exists|i: int|
            0 <= i < healthy(links@).len() && first == Some(#[trigger] healthy(links@)[i]) && second
                == Some(
                healthy(links@)[if i + 1 < healthy(links@).len() {
                    i + 1
                } else {
                    0
                }],
            ),
{
    healthy_alike(links@);
    let ids = load_balancer::healthy_ids(links@);
    let n = ids.len() as int;
    let index = old(b1).index();
    if links@.len() == 0 {
        assert(n == 0);
    }
    let i = index as int % n;
    let j = (index + 1) % n;
    turns::next_turn(index);
    vstd::arithmetic::div_mod::lemma_mod_bound(index as int, n);
    vstd::arithmetic::div_mod::lemma_fundamental_div_mod(index as int, n);
    let q = index as int / n;
    assert(n * q == q * n && (q + 1) * n == q * n + n) by (nonlinear_arith);
    if i + 1 < n {
        vstd::arithmetic::div_mod::lemma_fundamental_div_mod_converse(index + 1, n, q, i + 1);
    } else {
        vstd::arithmetic::div_mod::lemma_fundamental_div_mod_converse(index + 1, n, q + 1, 0);
    }
    assert(first == Some(healthy(links@)[i]));
    assert(second == Some(healthy(links@)[j]));
}

/// In turn: the first request to a new balancer goes to the first healthy link.
pub proof fn turns_start_with_the_first_link(
    role: NodeRole,
    created: UnorderedLoadBalancer,
    b: &mut UnorderedLoadBalancer,
    links: &VecMap<LinkId, UnorderedLinkState>,
    draw: &WeightedDraw,
    session: Option<u64>,
    choice: Option<LinkId>,
)
    requires
        call_ensures(
            UnorderedLoadBalancer::new,
            (LoadBalanceStrategy::PacketRoundRobin, role),
            created,
        ),
        *old(b) == created,
        healthy(links@).len() > 0,
        asked(b, links, draw, session, choice),
    ensures
        choice == Some(healthy(links@)[0]),
{
    healthy_alike(links@);
    let ids = load_balancer::healthy_ids(links@);
    assert(old(b).index() == 0);
    vstd::arithmetic::div_mod::lemma_small_mod(0, ids.len());
    if links@.len() == 0 {
        assert(ids.len() == 0);
    }
    assert(choice == Some(ids[0]));
}

/// Choosing a link changes nothing that was measured, and not the strategy.
pub proof fn choosing_keeps_measurements(
    b: &mut UnorderedLoadBalancer,
    links: &VecMap<LinkId, UnorderedLinkState>,
    draw: &WeightedDraw,
    session: Option<u64>,
    choice: Option<LinkId>,
    id: LinkId,
    before: Option<LinkMetrics>,
    after: Option<LinkMetrics>,
)
    requires
        asked(b, links, draw, session, choice),
        call_ensures(UnorderedLoadBalancer::link_metrics, (&*old(b), id), before),
        call_ensures(UnorderedLoadBalancer::link_metrics, (&*final(b), id), after),
    ensures
        before == after,
        final(b).strategy() == old(b).strategy(),
        final(b).role() == old(b).role(),
{
}

/// What is stored of a link is what is given back of it, with the round-trip time in whole
/// milliseconds; nothing changes for other links, nor for the turn.
pub proof fn measurements_are_kept(
    b: &mut UnorderedLoadBalancer,
    id: LinkId,
    rtt: Duration,
    send: Measure,
    recv: Measure,
    now: Instant,
    other: LinkId,
    measured: Option<LinkMetrics>,
    before: Option<LinkMetrics>,
    after: Option<LinkMetrics>,
)
    requires
        old(b).wf(),
        vec_map::distinct(old(b).metrics()),
        call_ensures(
            UnorderedLoadBalancer::update_link_metrics,
            (b, id, rtt, send, recv, now),
            (),
        ) || send == recv && call_ensures(
            UnorderedLoadBalancer::update_link_metrics_simple,
            (b, id, rtt, send, now),
            (),
        ),
        call_ensures(UnorderedLoadBalancer::link_metrics, (&*final(b), id), measured),
        call_ensures(UnorderedLoadBalancer::link_metrics, (&*old(b), other), before),
        call_ensures(UnorderedLoadBalancer::link_metrics, (&*final(b), other), after),
    ensures
        measured matches Some(m) && m.avg_rtt == rtt.nanos / 1_000_000 && m.send_bandwidth == send
            && m.recv_bandwidth == recv && m.last_update == now,
        other != id ==> after == before,
        final(b).index() == old(b).index(),
        final(b).strategy() == old(b).strategy(),
{
    vec_map::with_stores(
        old(b).metrics(),
        id,
        (LinkMetrics {
            avg_rtt: (rtt.nanos / 1_000_000) as u128,
            send_bandwidth: send,
            recv_bandwidth: recv,
            last_update: now,
        }),
    );
}

/// The weight of a measured link is based on the direction that counts for the role of the
/// node: what a client receives, what a server sends, and both for a balanced node.
pub proof fn weight_follows_role(
    b: UnorderedLoadBalancer,
    id: LinkId,
    base: BandwidthBase,
)
    requires
        call_ensures(UnorderedLoadBalancer::bandwidth_base, (&b, id), base),
    ensures
        base is Unmeasured <==> vec_map::value(b.metrics(), id) is None,
        base is Receive ==> b.role() == NodeRole::Client,
        base is Send ==> b.role() == NodeRole::Server,
        base is Mean ==> b.role() == NodeRole::Balanced,
{
}

/// A new balancer follows the strategy and the role it was made for, and has measured
/// nothing.
pub proof fn new_balancer_is_as_told(
    strategy: LoadBalanceStrategy,
    role: NodeRole,
    b: UnorderedLoadBalancer,
    link_id: LinkId,
    measured: Option<LinkMetrics>,
    base: BandwidthBase,
)
    requires
        call_ensures(UnorderedLoadBalancer::new, (strategy, role), b),
        call_ensures(UnorderedLoadBalancer::link_metrics, (&b, link_id), measured),
        call_ensures(UnorderedLoadBalancer::bandwidth_base, (&b, link_id), base),
    ensures
        b.strategy() == strategy,
        b.role() == role,
        b.index() == 0,
        measured is None,
        base is Unmeasured,
{
    vec_map::place_is_first(b.metrics(), link_id);
}

} // verus!
