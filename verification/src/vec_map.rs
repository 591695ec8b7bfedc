//! A map that keeps its entries in the order in which their keys were added.
use crate::addr::{IpAddr, SocketAddr};
use crate::text;
use crate::unordered_msg::LinkId;
use vstd::prelude::*;

verus! {

/// What can be the key of a map.
pub trait MapKey: Sized {
    /// What the key says.
    type Model;

    /// What this key says.
    spec fn model(&self) -> Self::Model;

    /// Returns whether two keys say the same.
    fn same_key(&self, other: &Self) -> (r: bool)
        ensures
            r == (self.model() == other.model()),
    ;
}

impl MapKey for LinkId {
    type Model = LinkId;

    open spec fn model(&self) -> LinkId {
        *self
    }

    fn same_key(&self, other: &Self) -> (r: bool) {
        *self == *other
    }
}

impl MapKey for SocketAddr {
    type Model = SocketAddr;

    open spec fn model(&self) -> SocketAddr {
        *self
    }

    fn same_key(&self, other: &Self) -> (r: bool) {
        *self == *other
    }
}

impl MapKey for IpAddr {
    type Model = IpAddr;

    open spec fn model(&self) -> IpAddr {
        *self
    }

    fn same_key(&self, other: &Self) -> (r: bool) {
        *self == *other
    }
}

impl MapKey for usize {
    type Model = usize;

    open spec fn model(&self) -> usize {
        *self
    }

    fn same_key(&self, other: &Self) -> (r: bool) {
        *self == *other
    }
}

impl MapKey for String {
    type Model = Seq<char>;

    open spec fn model(&self) -> Seq<char> {
        self@
    }

    fn same_key(&self, other: &Self) -> (r: bool) {
        text::same(self.as_str(), other.as_str())
    }
}

/// The place of the first entry with key `k`, or the number of entries.
pub open spec fn place<K, V>(s: Seq<(K, V)>, k: K) -> int
    decreases s.len(),
{
    if s.len() == 0 {
        0
    } else if s[0].0 == k {
        0
    } else {
        1 + place(s.drop_first(), k)
    }
}

/// There is an entry with key `k`.
pub open spec fn has<K, V>(s: Seq<(K, V)>, k: K) -> bool {
    place(s, k) < s.len()
}

/// The value stored under `k`.
pub open spec fn value<K, V>(s: Seq<(K, V)>, k: K) -> Option<V> {
    if has(s, k) {
        Some(s[place(s, k)].1)
    } else {
        None
    }
}

/// The entries after storing `v` under `k`: in place of the old value, or at
/// the end.
pub open spec fn with<K, V>(s: Seq<(K, V)>, k: K, v: V) -> Seq<(K, V)> {
    if has(s, k) {
        s.update(place(s, k), (k, v))
    } else {
        s.push((k, v))
    }
}

/// The entries after removing the one with key `k`.
pub open spec fn without<K, V>(s: Seq<(K, V)>, k: K) -> Seq<(K, V)> {
    if has(s, k) {
        s.remove(place(s, k))
    } else {
        s
    }
}

/// No two entries have the same key.
pub open spec fn distinct<K, V>(s: Seq<(K, V)>) -> bool {
    forall|i: int, j: int|
        0 <= i < j < s.len() ==> (#[trigger] s[i]).0 != (#[trigger] s[j]).0
}

/// `place` is the first index with that key.
pub proof fn place_is_first<K, V>(s: Seq<(K, V)>, k: K)
    ensures
        0 <= place(s, k) <= s.len(),
        place(s, k) < s.len() ==> s[place(s, k)].0 == k,
        forall|i: int| 0 <= i < place(s, k) ==> (#[trigger] s[i]).0 != k,
    decreases s.len(),
{
    if s.len() > 0 && s[0].0 != k {
        let t = s.drop_first();
        place_is_first(t, k);
        assert forall|i: int| 0 <= i < place(s, k) implies (#[trigger] s[i]).0 != k by {
            if i > 0 {
                assert(t[i - 1] == s[i]);
            }
        }
    }
}

/// The first index with a key is its place.
pub proof fn place_found<K, V>(s: Seq<(K, V)>, k: K, i: int)
    requires
        0 <= i <= s.len(),
        i < s.len() ==> s[i].0 == k,
        forall|j: int| 0 <= j < i ==> (#[trigger] s[j]).0 != k,
    ensures
        place(s, k) == i,
{
    place_is_first(s, k);
}

/// After storing under a key, that key has the new value, every other key
/// keeps its own, and keys stay distinct.
pub proof fn with_stores<K, V>(s: Seq<(K, V)>, k: K, v: V)
    requires
        distinct(s),
    ensures
        distinct(with(s, k, v)),
        value(with(s, k, v), k) == Some(v),
        forall|j: K| j != k ==> value(with(s, k, v), j) == #[trigger] value(s, j),
{
    place_is_first(s, k);
    let t = with(s, k, v);
    place_found(t, k, place(s, k));
    assert forall|j: K| j != k implies value(t, j) == #[trigger] value(s, j) by {
        place_is_first(s, j);
        if place(s, j) < s.len() {
            place_found(t, j, place(s, j));
        } else {
            place_found(t, j, t.len() as int);
        }
    }
}

/// After removing a key it has no value, every other key keeps its own, and
/// keys stay distinct.
pub proof fn without_removes<K, V>(s: Seq<(K, V)>, k: K)
    requires
        distinct(s),
    ensures
        distinct(without(s, k)),
        value(without(s, k), k) is None,
        forall|j: K| j != k ==> value(without(s, k), j) == #[trigger] value(s, j),
{
    place_is_first(s, k);
    let t = without(s, k);
    let p = place(s, k);
    if p < s.len() {
        assert forall|i: int| 0 <= i < t.len() implies (#[trigger] t[i]) == s[if i < p {
            i
        } else {
            i + 1
        }] by {}
        place_found(t, k, t.len() as int);
        assert forall|j: K| j != k implies value(t, j) == #[trigger] value(s, j) by {
            place_is_first(s, j);
            let q = place(s, j);
            if q < p {
                place_found(t, j, q);
            } else if q < s.len() {
                place_found(t, j, q - 1);
            } else {
                place_found(t, j, t.len() as int);
            }
        }
    }
}

/// A map that keeps its entries in the order in which their keys were added.
#[derive(Debug, Clone)]
pub struct VecMap<K, V> {
    entries: Vec<(K, V)>,
}

impl<K: MapKey, V> View for VecMap<K, V> {
    type V = Seq<(K::Model, V)>;

    closed spec fn view(&self) -> Seq<(K::Model, V)> {
        Seq::new(self.entries@.len(), |i: int| (self.entries@[i].0.model(), self.entries@[i].1))
    }
}

impl<K: MapKey, V> VecMap<K, V> {
    /// No key occurs twice.
    pub open spec fn wf(&self) -> bool {
        distinct(self@)
    }

    /// Creates an empty map.
    pub fn new() -> (map: VecMap<K, V>)
        ensures
            map@ == Seq::<(K::Model, V)>::empty(),
            map.wf(),
    {
        let map = VecMap { entries: Vec::new() };
        assert(map@ =~= Seq::empty());
        map
    }

    /// Returns the number of entries.
    pub fn len(&self) -> (n: usize)
        ensures
            n == self@.len(),
    {
        self.entries.len()
    }

    /// Returns whether there are no entries.
    pub fn is_empty(&self) -> (r: bool)
        ensures
            r == (self@.len() == 0),
    {
        self.entries.len() == 0
    }

    /// Returns the key of the entry at `i`.
    pub fn key_at(&self, i: usize) -> (k: &K)
        requires
            i < self@.len(),
        ensures
            k.model() == self@[i as int].0,
    {
        &self.entries[i].0
    }

    /// Returns the value of the entry at `i`.
    pub fn value_at(&self, i: usize) -> (v: &V)
        requires
            i < self@.len(),
        ensures
            *v == self@[i as int].1,
    {
        &self.entries[i].1
    }

    /// Returns the place of `k`, or the number of entries if it is not there.
    pub fn position(&self, k: &K) -> (i: usize)
        ensures
            i == place(self@, k.model()),
            i <= self@.len(),
            i < self@.len() ==> self@[i as int].0 == k.model(),
    {
        let n: usize = self.entries.len();
        let mut i: usize = 0;
        while i < n
            invariant
                i <= n,
                n == self@.len(),
                n == self.entries@.len(),
                forall|j: int| 0 <= j < i ==> (#[trigger] self@[j]).0 != k.model(),
            decreases n - i,
        {
            if self.entries[i].0.same_key(k) {
                proof {
                    place_found(self@, k.model(), i as int);
                }
                return i;
            }
            i = i + 1;
        }
        proof {
            place_found(self@, k.model(), n as int);
        }
        n
    }

    /// Returns whether there is an entry with key `k`.
    pub fn contains_key(&self, k: &K) -> (r: bool)
        ensures
            r == has(self@, k.model()),
    {
        self.position(k) < self.entries.len()
    }

    /// Returns the value stored under `k`.
    pub fn get(&self, k: &K) -> (v: Option<&V>)
        ensures
            match v {
                Some(v) => value(self@, k.model()) == Some(*v),
                None => value(self@, k.model()) is None,
            },
    {
        let i: usize = self.position(k);
        if i < self.entries.len() {
            Some(&self.entries[i].1)
        } else {
            None
        }
    }

    /// Gives access to the value of the entry at `i`.
    pub fn value_at_mut(&mut self, i: usize) -> (v: &mut V)
        requires
            i < old(self)@.len(),
        ensures
            *v == old(self)@[i as int].1,
            final(self)@ == old(self)@.update(i as int, (old(self)@[i as int].0, *final(v))),
    {
        &mut self.entries[i].1
    }

    /// Stores `v` under `k`.
    pub fn insert(&mut self, k: K, v: V)
        ensures
            final(self)@ == with(old(self)@, k.model(), v),
            old(self).wf() ==> final(self).wf(),
    {
        proof {
            if self.wf() {
                with_stores(self@, k.model(), v);
            }
        }
        let i: usize = self.position(&k);
        if i < self.entries.len() {
            self.entries[i] = (k, v);
        } else {
            self.entries.push((k, v));
        }
        assert(self@ =~= with(old(self)@, k.model(), v));
    }

    /// Removes the entry with key `k` and returns its value.
    pub fn remove(&mut self, k: &K) -> (v: Option<V>)
        ensures
            v == value(old(self)@, k.model()),
            final(self)@ == without(old(self)@, k.model()),
            old(self).wf() ==> final(self).wf(),
    {
        proof {
            if self.wf() {
                without_removes(self@, k.model());
            }
        }
        let i: usize = self.position(k);
        if i < self.entries.len() {
            let e = self.entries.remove(i);
            assert(self@ =~= without(old(self)@, k.model()));
            Some(e.1)
        } else {
            None
        }
    }
}

} // verus!
