//! What callers can rely on of maps, counts and spans of time.
use crate::num::NonZeroUsize;
use crate::time::{Duration, Instant};
use crate::vec_map;
use crate::vec_map::{MapKey, VecMap};
use vstd::prelude::*;

verus! {

/// What is stored under a key is found there and replaces what was there before; nothing
/// else changes, and the map grows exactly if the key is new.
pub proof fn stored_values_are_found<K: MapKey, V>(
    map: &mut VecMap<K, V>,
    k: K,
    v: V,
    other: &K,
    found: Option<&V>,
    other_before: Option<&V>,
    other_after: Option<&V>,
    known: bool,
    before: usize,
    after: usize,
)
    requires
        old(map).wf(),
        call_ensures(VecMap::<K, V>::len, (&*old(map),), before),
        call_ensures(VecMap::<K, V>::contains_key, (&*old(map), &k), known),
        call_ensures(VecMap::<K, V>::get, (&*old(map), other), other_before),
        call_ensures(VecMap::<K, V>::insert, (map, k, v), ()),
        call_ensures(VecMap::<K, V>::get, (&*final(map), &k), found),
        call_ensures(VecMap::<K, V>::get, (&*final(map), other), other_after),
        call_ensures(VecMap::<K, V>::len, (&*final(map),), after),
    ensures
        found matches Some(w) && *w == v,
        other.model() != k.model() ==> match (other_before, other_after) {
            (Some(x), Some(y)) => *x == *y,
            (None, None) => true,
            _ => false,
        },
        after == before + (if known {
            0int
        } else {
            1
        }),
{
    vec_map::with_stores(old(map)@, k.model(), v);
    vec_map::place_is_first(old(map)@, k.model());
}

/// What is removed is handed back and no longer found; nothing else changes.
pub proof fn removed_values_are_gone<K: MapKey, V>(
    map: &mut VecMap<K, V>,
    k: &K,
    other: &K,
    removed: Option<V>,
    stored: Option<&V>,
    found: Option<&V>,
    other_before: Option<&V>,
    other_after: Option<&V>,
)
    requires
        old(map).wf(),
        call_ensures(VecMap::<K, V>::get, (&*old(map), k), stored),
        call_ensures(VecMap::<K, V>::get, (&*old(map), other), other_before),
        call_ensures(VecMap::<K, V>::remove, (map, k), removed),
        call_ensures(VecMap::<K, V>::get, (&*final(map), k), found),
        call_ensures(VecMap::<K, V>::get, (&*final(map), other), other_after),
    ensures
        found is None,
        match (stored, removed) {
            (Some(x), Some(y)) => *x == y,
            (None, None) => true,
            _ => false,
        },
        other.model() != k.model() ==> match (other_before, other_after) {
            (Some(x), Some(y)) => *x == *y,
            (None, None) => true,
            _ => false,
        },
{
    vec_map::without_removes(old(map)@, k.model());
}

/// Entries keep the places in which they were added: a new key comes last, and a known one
/// stays where it is.
pub proof fn entries_keep_their_places<K: MapKey, V>(
    map: &mut VecMap<K, V>,
    k: K,
    v: V,
    at: usize,
    n: usize,
    empty: bool,
    before: usize,
)
    requires
        old(map).wf(),
        call_ensures(VecMap::<K, V>::is_empty, (&*old(map),), empty),
        call_ensures(VecMap::<K, V>::len, (&*old(map),), n),
        call_ensures(VecMap::<K, V>::position, (&*old(map), &k), before),
        call_ensures(VecMap::<K, V>::insert, (map, k, v), ()),
        call_ensures(VecMap::<K, V>::position, (&*final(map), &k), at),
    ensures
        at == before,
        empty <==> n == 0,
        before <= n,
        forall|i: int| 0 <= i < n && i != before ==> #[trigger] final(map)@[i] == old(map)@[i],
{
    vec_map::place_is_first(old(map)@, k.model());
    vec_map::place_found(final(map)@, k.model(), before as int);
}

/// A second has a thousand milliseconds, and whole milliseconds are given back.
pub proof fn spans_are_measured(ms: u64, secs: u64, a: Duration, b: Duration, back: u128)
    requires
        call_ensures(Duration::from_millis, (ms,), a),
        call_ensures(Duration::from_secs, (secs,), b),
        call_ensures(Duration::as_millis, (&a,), back),
    ensures
        back == ms,
        ms == 1000 * secs ==> a == b,
        b.nanos == secs * 1_000_000_000,
{
}

/// The time between two points is what has to be added to the earlier one to get the later
/// one, and nothing if they are the wrong way round.
pub proof fn time_passes(a: Instant, b: Instant, forth: Duration, back: Duration)
    requires
        call_ensures(Instant::duration_since, (&b, a), forth),
        call_ensures(Instant::duration_since, (&a, b), back),
    ensures
        a.nanos <= b.nanos ==> a.nanos + forth.nanos == b.nanos && back.nanos == 0,
{
}

/// Every number but zero is kept.
pub proof fn zero_is_no_count(n: usize, r: Option<NonZeroUsize>, back: usize)
    requires
        call_ensures(NonZeroUsize::new, (n,), r),
        r matches Some(q) ==> call_ensures(NonZeroUsize::get, (q,), back),
    ensures
        r is Some <==> n != 0,
        r is Some ==> back == n,
{
}

/// Where an entry is removed, the entries behind it move up and keep their order.
pub proof fn entries_move_up<K: MapKey, V>(
    map: &mut VecMap<K, V>,
    k: &K,
    at: usize,
    removed: Option<V>,
)
    requires
        call_ensures(VecMap::<K, V>::position, (&*old(map), k), at),
        call_ensures(VecMap::<K, V>::remove, (map, k), removed),
    ensures
        removed is None ==> final(map)@ == old(map)@,
        removed is Some ==> final(map)@.len() == old(map)@.len() - 1 && forall|i: int|
            0 <= i < final(map)@.len() ==> #[trigger] final(map)@[i] == (if i < at {
                old(map)@[i]
            } else {
                old(map)@[i + 1]
            }),
{
    vec_map::place_is_first(old(map)@, k.model());
}

} // verus!
