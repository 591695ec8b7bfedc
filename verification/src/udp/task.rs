//! Distribution of packets over sockets by weight.
use crate::load_balancer::Measure;
use vstd::prelude::*;

verus! {

/// `a` is larger than `b`. What has no rank is not larger than anything, and
/// nothing is larger than it.
pub open spec fn larger(a: Measure, b: Measure) -> bool {
    match (a.rank, b.rank) {
        (Some(x), Some(y)) => x > y,
        _ => false,
    }
}

/// Going through the deficits in order, the place of the one that is kept: each
/// replaces the one kept before it, unless that is larger.
pub open spec fn kept(deficits: Seq<Measure>) -> int
    decreases deficits.len(),
{
    if deficits.len() <= 1 {
        0
    } else {
        let before = kept(deficits.drop_last());
        if larger(deficits[before], deficits.last()) {
            before
        } else {
            deficits.len() - 1
        }
    }
}

fn is_larger(a: Measure, b: Measure) -> (r: bool)
    ensures
        r == larger(a, b),
{
    match (a.rank, b.rank) {
        (Some(x), Some(y)) => x > y,
        _ => false,
    }
}

/// Returns the place of the socket that sends the next packet: the last of
/// those with the largest deficit.
pub fn select_socket(deficits: &[Measure]) -> (place: Option<usize>)
    ensures
        match place {
            Some(i) => deficits@.len() > 0 && i == kept(deficits@) && i < deficits@.len(),
            None => deficits@.len() == 0,
        },
{
    if deficits.len() == 0 {
        return None;
    }
    let mut best: usize = 0;
    let mut i: usize = 1;
    while i < deficits.len()
        invariant
            1 <= i <= deficits@.len(),
            best < i,
            best == kept(deficits@.take(i as int)),
        decreases deficits@.len() - i,
    {
        proof {
            let longer = deficits@.take(i + 1);
            assert(longer.drop_last() =~= deficits@.take(i as int));
            assert(longer[best as int] == deficits@[best as int]);
        }
        if !is_larger(deficits[best], deficits[i]) {
            best = i;
        }
        i = i + 1;
    }
    assert(deficits@.take(i as int) =~= deficits@);
    Some(best)
}

/// Where every deficit has a rank, the selected one is the last of the largest.
pub proof fn kept_is_last_largest(deficits: Seq<Measure>)
    requires
        deficits.len() > 0,
        forall|i: int| 0 <= i < deficits.len() ==> (#[trigger] deficits[i]).rank is Some,
    ensures
        0 <= kept(deficits) < deficits.len(),
        forall|i: int|
            0 <= i < deficits.len() ==> (#[trigger] deficits[i]).rank->0
                <= deficits[kept(deficits)].rank->0,
        forall|i: int|
            kept(deficits) < i < deficits.len() ==> (#[trigger] deficits[i]).rank->0
                < deficits[kept(deficits)].rank->0,
    decreases deficits.len(),
{
    if deficits.len() > 1 {
        let front = deficits.drop_last();
        assert forall|i: int| 0 <= i < front.len() implies (#[trigger] front[i]).rank is Some by {
            assert(front[i] == deficits[i]);
        }
        kept_is_last_largest(front);
        assert forall|i: int| 0 <= i < front.len() implies front[i] == deficits[i] by {}
        let k = kept(front);
        assert(deficits[k] == front[k]);
        assert forall|i: int| 0 <= i < deficits.len() implies (#[trigger] deficits[i]).rank->0
            <= deficits[kept(deficits)].rank->0 by {
            if i < front.len() {
                assert(front[i].rank->0 <= front[k].rank->0);
            }
        }
        assert forall|i: int| kept(deficits) < i < deficits.len() implies (
        #[trigger] deficits[i]).rank->0 < deficits[kept(deficits)].rank->0 by {
            if i < front.len() {
                assert(front[i].rank->0 < front[k].rank->0);
            }
        }
    }
}

/// For each socket, whether its given weight stands: there is one weight for each
/// socket, and it is not zero or less.
pub open spec fn standing(weights: Seq<Measure>, sockets: nat) -> Seq<bool> {
    Seq::new(
        sockets,
        |i: int| weights.len() == sockets && !(weights[i].rank matches Some(r) && r <= 0),
    )
}

/// Returns, for each socket, whether its given weight stands. Where it does not,
/// the weight of the socket is one.
pub fn weights_kept(weights: &[Measure], sockets: usize) -> (kept: Vec<bool>)
    ensures
        kept@ == standing(weights@, sockets as nat),
{
    let mut kept: Vec<bool> = Vec::new();
    let given = weights.len() == sockets;
    let mut i: usize = 0;
    while i < sockets
        invariant
            i <= sockets,
            given == (weights@.len() == sockets),
            kept@ == standing(weights@, sockets as nat).take(i as int),
        decreases sockets - i,
    {
        let stands = given && match weights[i].rank {
            Some(r) => r > 0,
            None => true,
        };
        kept.push(stands);
        i = i + 1;
    }
    kept
}

} // verus!
