//! Choice of a link by its share of the packets.
use vstd::arithmetic::div_mod::lemma_small_mod;
use vstd::prelude::*;

verus! {

/// The sum of all shares.
pub open spec fn total(shares: Seq<u32>) -> nat
    decreases shares.len(),
{
    if shares.len() == 0 {
        0
    } else {
        total(shares.drop_last()) + shares.last() as nat
    }
}

/// The shares as they count: if all are zero, every link has the same share.
pub open spec fn leveled(shares: Seq<u32>) -> Seq<u32> {
    if total(shares) == 0 {
        Seq::new(shares.len(), |i: int| 1u32)
    } else {
        shares
    }
}

/// A drawn number falls on the link at `i`: the links have as many numbers as their
/// shares say, one link after the other.
pub open spec fn falls_on(shares: Seq<u32>, draw: u64, i: int) -> bool {
    let counted = leveled(shares);
    let at = draw as int % total(counted) as int;
    &&& 0 <= i < shares.len()
    &&& total(counted.take(i)) <= at < total(counted.take(i + 1))
}

proof fn total_step(shares: Seq<u32>, i: int)
    requires
        0 <= i < shares.len(),
    ensures
        total(shares.take(i + 1)) == total(shares.take(i)) + shares[i],
{
    assert(shares.take(i + 1).drop_last() =~= shares.take(i));
}

proof fn total_grows(shares: Seq<u32>, i: int, j: int)
    requires
        0 <= i <= j <= shares.len(),
    ensures
        total(shares.take(i)) <= total(shares.take(j)),
    decreases j - i,
{
    if i < j {
        total_grows(shares, i, j - 1);
        total_step(shares, j - 1);
    }
}

proof fn total_of_ones(n: nat, i: int)
    requires
        0 <= i <= n,
    ensures
        total(Seq::new(n, |k: int| 1u32).take(i)) == i,
    decreases i,
{
    let ones = Seq::new(n, |k: int| 1u32);
    if i > 0 {
        total_of_ones(n, i - 1);
        total_step(ones, i - 1);
    }
}

/// Returns the place of the link on which a drawn number falls.
pub fn place_of(shares: &Vec<u32>, draw: u64) -> (place: usize)
    requires
        shares@.len() > 0,
    ensures
        falls_on(shares@, draw, place as int),
{
    let n: usize = shares.len();
    let mut sum: u128 = 0;
    let mut i: usize = 0;
    assert(shares@.take(0) =~= Seq::empty());
    while i < n
        invariant
            i <= n,
            n == shares@.len(),
            sum == total(shares@.take(i as int)),
            sum <= i * 0xFFFF_FFFF,
        decreases n - i,
    {
        proof {
            total_step(shares@, i as int);
        }
        sum = sum + shares[i] as u128;
        i = i + 1;
    }
    assert(shares@.take(n as int) =~= shares@);
    let ghost counted = leveled(shares@);
    if sum == 0 {
        let place: usize = (draw % (n as u64)) as usize;
        proof {
            assert(counted.take(n as int) =~= counted);
            total_of_ones(n as nat, n as int);
            total_of_ones(n as nat, place as int);
            total_of_ones(n as nat, place + 1);
        }
        return place;
    }
    let at: u128 = (draw as u128) % sum;
    let mut place: usize = 0;
    let mut end: u128 = shares[0] as u128;
    proof {
        total_step(shares@, 0);
    }
    while at >= end
        invariant
            place < n,
            n == shares@.len(),
            end == total(shares@.take(place + 1)),
            end <= (place + 1) * 0xFFFF_FFFF,
            total(shares@.take(place as int)) <= at < total(shares@),
            shares@.take(n as int) == shares@,
        decreases n - place,
    {
        proof {
            total_step(shares@, place + 1);
        }
        place = place + 1;
        end = end + shares[place] as u128;
    }
    place
}

/// Every drawn number falls on exactly one link.
pub proof fn falls_on_one(shares: Seq<u32>, draw: u64, i: int, j: int)
    requires
        falls_on(shares, draw, i),
        falls_on(shares, draw, j),
    ensures
        i == j,
{
    let counted = leveled(shares);
    if i < j {
        total_grows(counted, i + 1, j);
    } else if j < i {
        total_grows(counted, j + 1, i);
    }
}

/// Of as many consecutive numbers as the sum of the shares, counted from zero, exactly
/// those fall on a link that lie within its share.
pub proof fn shares_are_kept(shares: Seq<u32>, draw: u64, i: int)
    requires
        0 <= i < shares.len(),
        draw < total(leveled(shares)),
    ensures
        falls_on(shares, draw, i) <==> total(leveled(shares).take(i)) <= draw < total(
            leveled(shares).take(i),
        ) + leveled(shares)[i],
        total(leveled(shares)) > 0,
{
    let counted = leveled(shares);
    total_step(counted, i);
    lemma_small_mod(draw as nat, total(counted));
}

} // verus!
