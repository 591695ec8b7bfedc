//! Turns counted by a counter that wraps around.
use vstd::arithmetic::div_mod::{
    lemma_add_mod_noop, lemma_fundamental_div_mod, lemma_fundamental_div_mod_converse,
    lemma_mod_mod, lemma_mod_self_0, lemma_mod_twice, lemma_small_mod,
};
use vstd::prelude::*;

verus! {

/// How many values a `usize` has.
pub open spec fn usize_values() -> int {
    usize::MAX + 1
}

/// The counter at `index`, `k` turns later. It starts again from zero after the
/// last value.
pub open spec fn later(index: usize, k: int) -> usize {
    ((index + k) % usize_values()) as usize
}

/// No turn later the counter is where it was.
pub proof fn stays(index: usize)
    ensures
        later(index, 0) == index,
{
    lemma_small_mod(index as nat, usize_values() as nat);
}

/// One turn later the counter is one higher, or zero after its last value.
pub proof fn next_turn(index: usize)
    ensures
        later(index, 1) == index.wrapping_add(1),
{
    if index < usize::MAX {
        lemma_small_mod((index + 1) as nat, usize_values() as nat);
    } else {
        lemma_mod_self_0(usize_values());
    }
}

/// The place that has its turn when the counter has gone on by `k`, unless the
/// counter starts again from zero on the way and its number of values is no multiple
/// of the number of places.
pub proof fn place_of_turn(index: usize, n: int, k: int)
    requires
        0 < n,
        0 <= k,
        index + k <= usize::MAX || usize_values() % n == 0,
    ensures
        later(index, k) as int % n == (index + k) % n,
{
    if index + k <= usize::MAX {
        lemma_small_mod((index + k) as nat, usize_values() as nat);
    } else {
        let m = usize_values() / n;
        lemma_fundamental_div_mod(usize_values(), n);
        assert(m > 0) by (nonlinear_arith)
            requires
                n * m == usize_values(),
                usize_values() > 0,
                n > 0,
        ;
        lemma_mod_mod(index + k, n, m);
    }
}

/// Among as many consecutive numbers as there are places, one falls on each place.
pub proof fn window_reaches_all(start: int, n: int, target: int) -> (k: int)
    requires
        0 <= target < n,
    ensures
        0 <= k < n,
        (start + k) % n == target,
{
    let r = start % n;
    let q = start / n;
    lemma_fundamental_div_mod(start, n);
    assert(n * q == q * n && (q + 1) * n == q * n + n) by (nonlinear_arith);
    if target >= r {
        let k = target - r;
        lemma_fundamental_div_mod_converse(start + k, n, q, target);
        k
    } else {
        let k = target - r + n;
        lemma_fundamental_div_mod_converse(start + k, n, q + 1, target);
        k
    }
}

/// Numbers that lie closer together than there are places fall on different places.
pub proof fn window_has_no_repeats(a: int, b: int, n: int)
    requires
        0 < b - a < n,
    ensures
        a % n != b % n,
{
    lemma_fundamental_div_mod(a, n);
    lemma_fundamental_div_mod(b, n);
    if a % n == b % n {
        let d = b / n - a / n;
        assert(n * (b / n) - n * (a / n) == n * d) by (nonlinear_arith)
            requires
                d == b / n - a / n,
        ;
        assert(n * d <= 0 || n * d >= n) by (nonlinear_arith)
            requires
                n > 0,
        ;
    }
}

/// As many consecutive turns as there are places reach every place, unless the
/// counter starts again from zero among them and its number of values is no
/// multiple of the number of places.
pub proof fn turns_reach_all(index: usize, n: int, target: int) -> (k: int)
    requires
        0 <= target < n,
        index + n - 1 <= usize::MAX || usize_values() % n == 0,
    ensures
        0 <= k < n,
        later(index, k) as int % n == target,
{
    let k = window_reaches_all(index as int, n, target);
    place_of_turn(index, n, k);
    k
}

/// One turn after `k` turns are `k + 1` turns.
pub proof fn turns_add_up(index: usize, k: int)
    requires
        0 <= k,
    ensures
        later(later(index, k), 1) == later(index, k + 1),
{
    lemma_add_mod_noop(index + k, 1, usize_values());
    lemma_add_mod_noop((index + k) % usize_values(), 1, usize_values());
    lemma_mod_twice(index + k, usize_values());
}

/// Where every window of `n` items holds `x` exactly once, `k` times `n` items hold it
/// `k` times.
pub proof fn counted_by_windows<T>(s: Seq<T>, x: T, n: int, k: int)
    requires
        0 < n,
        0 <= k,
        s.len() == k * n,
        forall|i: int, j: int|
            0 <= i < j < i + n && j < s.len() ==> #[trigger] s[i] != #[trigger] s[j],
        forall|a: int|
            0 <= a && a + n <= s.len() ==> (#[trigger] s.subrange(a, a + n)).contains(x),
    ensures
        s.to_multiset().count(x) == k,
    decreases k,
{
    s.to_multiset_ensures();
    if k == 0 {
        assert(s.len() == 0) by (nonlinear_arith)
            requires
                s.len() == k * n,
                k == 0,
        ;
        assert(!s.contains(x));
    } else {
        assert((k - 1) * n == k * n - n && (k - 1) * n >= 0) by (nonlinear_arith)
            requires
                k >= 1,
                n > 0,
        ;
        let a = (k - 1) * n;
        let front = s.take(a);
        let last = s.subrange(a, a + n);
        assert(s =~= front + last);
        assert forall|b: int| 0 <= b && b + n <= front.len() implies (#[trigger] front.subrange(
            b,
            b + n,
        )).contains(x) by {
            assert(front.subrange(b, b + n) =~= s.subrange(b, b + n));
        }
        counted_by_windows(front, x, n, k - 1);
        assert(last.no_duplicates());
        last.lemma_multiset_has_no_duplicates();
        last.to_multiset_ensures();
        vstd::seq_lib::lemma_multiset_commutative(front, last);
    }
}

/// A `u64` counter that is read as a `usize` runs through the values of a
/// `usize` in turn.
pub proof fn narrowed_counter(counter: u64, k: nat)
    ensures
        ((counter as nat + k) % 0x1_0000_0000_0000_0000) as u64 as usize == later(
            counter as usize,
            k as int,
        ),
{
    narrow(counter);
    let sum = counter as int + k;
    let wide = (sum % 0x1_0000_0000_0000_0000) as u64;
    narrow(wide);
    let p = usize_values();
    let m: int = if p == 0x1_0000_0000 {
        0x1_0000_0000
    } else {
        1
    };
    assert(p * m == 0x1_0000_0000_0000_0000int) by (nonlinear_arith)
        requires
            p == 0x1_0000_0000 && m == 0x1_0000_0000 || p == 0x1_0000_0000_0000_0000 && m == 1,
    ;
    lemma_mod_mod(sum, p, m);
    lemma_add_mod_noop(counter as int, k as int, p);
    lemma_add_mod_noop(counter as int % p, k as int, p);
    lemma_mod_twice(counter as int, p);
}

proof fn narrow(x: u64)
    ensures
        x as usize as int == x as int % usize_values(),
{
    if usize::BITS == 64 {
        assert(x as usize == x) by (bit_vector)
            requires
                usize::BITS == 64,
        ;
        lemma_small_mod(x as nat, usize_values() as nat);
    } else {
        assert(x as usize == x % 0x1_0000_0000u64) by (bit_vector)
            requires
                usize::BITS == 32,
        ;
    }
}

} // verus!
