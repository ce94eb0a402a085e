//! Position-key sets: the on-path set and the bounded transposition table
//! (closed set of positions searched out without a win).
//!
//! Keys are grouped in buckets of a `HashMap` by a 64-bit bucket number, and
//! compared exactly within a bucket, so hash collisions are resolved properly.
//! The transposition table only evicts when it actually reaches its entry cap —
//! at which point it clears (a generational reset) to stay within bound.
//! Dropping entries loses nothing: a forgotten position is searched again if
//! reached again.
use std::collections::HashMap;
use vstd::prelude::*;

use crate::model::state::{GameModel, GameState};
use crate::solver::encode::{encode, encode_spec, PositionKey};
use crate::solver::zobrist::{zobrist, zobrist_spec};

verus! {

broadcast use vstd::std_specs::hash::group_hash_axioms;

/// A position key the search can store: it falls in a bucket determined by its
/// value, can be compared exactly, and can be copied.
pub trait SearchKey: Sized + View {
    /// The bucket of a key whose value is `v`.
    spec fn bucket_of(v: Self::V) -> u64;

    /// The bucket of this key.
    fn bucket(&self) -> (b: u64)
        ensures
            b == Self::bucket_of(self@),
    ;

    /// Whether two keys are equal.
    fn same(&self, other: &Self) -> (b: bool)
        ensures
            b == (self@ == other@),
    ;

    /// An independent copy of this key.
    fn duplicate(&self) -> (k: Self)
        ensures
            k@ == self@,
    ;

    /// The key of a position.
    spec fn key_of(m: GameModel) -> Self::V;

    /// The key of `state`'s position.
    fn of_state(state: &GameState) -> (k: Self)
        ensures
            k@ == Self::key_of(state@),
    ;
}

impl SearchKey for u128 {
    open spec fn bucket_of(v: u128) -> u64 {
        v as u64
    }

    fn bucket(&self) -> (b: u64) {
        *self as u64
    }

    fn same(&self, other: &u128) -> (b: bool) {
        *self == *other
    }

    fn duplicate(&self) -> (k: u128) {
        *self
    }

    open spec fn key_of(m: GameModel) -> u128 {
        zobrist_spec(m)
    }

    fn of_state(state: &GameState) -> (k: u128) {
        zobrist(state)
    }
}

/// The FNV-1a offset basis.
pub const FNV_OFFSET: u64 = 0xcbf2_9ce4_8422_2325;

/// The FNV-1a prime.
pub const FNV_PRIME: u64 = 0x0000_0100_0000_01b3;

/// The FNV-1a hash of the first `n` bytes of `s`.
pub open spec fn fnv1a(s: Seq<u8>, n: int) -> u64
    decreases n,
{
    if n <= 0 {
        FNV_OFFSET
    } else {
        vstd::wrapping::u64_specs::wrapping_mul(fnv1a(s, n - 1) ^ (s[n - 1] as u64), FNV_PRIME)
    }
}

impl SearchKey for PositionKey {
    open spec fn bucket_of(v: Seq<u8>) -> u64 {
        fnv1a(v, v.len() as int)
    }

    fn bucket(&self) -> (b: u64) {
        let bytes = self.bytes();
        let mut h: u64 = FNV_OFFSET;
        let mut i: usize = 0;
        while i < bytes.len()
            invariant
                i <= bytes@.len(),
                bytes@ == self@,
                h == fnv1a(self@, i as int),
            decreases bytes@.len() - i,
        {
            h = (h ^ (bytes[i] as u64)).wrapping_mul(FNV_PRIME);
            i = i + 1;
        }
        h
    }

    fn same(&self, other: &PositionKey) -> (b: bool) {
        PositionKey::same(self, other)
    }

    fn duplicate(&self) -> (k: PositionKey) {
        PositionKey::duplicate(self)
    }

    open spec fn key_of(m: GameModel) -> Seq<u8> {
        encode_spec(m)
    }

    fn of_state(state: &GameState) -> (k: PositionKey) {
        encode(state)
    }
}

/// A finite set of keys, bucketed by [`SearchKey::bucket`].
pub struct KeySet<K: SearchKey> {
    buckets: HashMap<u64, Vec<K>>,
    count: usize,
    contents: Ghost<Set<K::V>>,
}

impl<K: SearchKey> View for KeySet<K> {
    type V = Set<K::V>;

    closed spec fn view(&self) -> Set<K::V> {
        self.contents@
    }
}

impl<K: SearchKey> KeySet<K> {
    /// The buckets hold exactly the keys of the set, each in its own bucket,
    /// and the count is the set's size.
    pub closed spec fn wf(&self) -> bool {
        &&& forall|b: u64, i: int|
            #![trigger self.buckets@[b]@[i]]
            self.buckets@.contains_key(b) && 0 <= i < self.buckets@[b]@.len() ==> {
                &&& K::bucket_of(self.buckets@[b]@[i]@) == b
                &&& self.contents@.contains(self.buckets@[b]@[i]@)
            }
        &&& forall|v: K::V| #[trigger]
            self.contents@.contains(v) ==> {
                &&& self.buckets@.contains_key(K::bucket_of(v))
                &&& exists|i: int|
                    0 <= i < self.buckets@[K::bucket_of(v)]@.len() && (#[trigger] self.buckets@[K::bucket_of(
                        v,
                    )]@[i])@ == v
            }
        &&& forall|b: u64, i: int, j: int|
            #![trigger self.buckets@[b]@[i], self.buckets@[b]@[j]]
            self.buckets@.contains_key(b) && 0 <= i < j < self.buckets@[b]@.len() ==> self.buckets@[b]@[i]@
                != self.buckets@[b]@[j]@
        &&& self.contents@.finite()
        &&& self.count == self.contents@.len()
    }

    /// An empty set.
    pub fn new() -> (s: KeySet<K>)
        ensures
            s.wf(),
            s@ == Set::<K::V>::empty(),
    {
        KeySet { buckets: HashMap::new(), count: 0, contents: Ghost(Set::empty()) }
    }

    /// Number of keys in the set.
    pub fn len(&self) -> (n: usize)
        requires
            self.wf(),
        ensures
            n == self@.len(),
    {
        self.count
    }

    /// A well-formed set holds finitely many keys.
    pub proof fn lemma_finite(&self)
        requires
            self.wf(),
        ensures
            self@.finite(),
    {
    }

    /// Whether `key` is in the set.
    pub fn contains(&self, key: &K) -> (b: bool)
        requires
            self.wf(),
        ensures
            b == self@.contains(key@),
    {
        let b = key.bucket();
        match self.buckets.get(&b) {
            None => {
                proof {
                    if self@.contains(key@) {
                        assert(self.buckets@.contains_key(K::bucket_of(key@)));
                    }
                }
                false
            },
            Some(v) => {
                let found = position_of(v, key);
                proof {
                    match found {
                        Some(i) => {
                            assert(self.buckets@[b]@[i as int]@ == key@);
                        },
                        None => {
                            if self@.contains(key@) {
                                let j = choose|j: int|
                                    0 <= j < self.buckets@[K::bucket_of(key@)]@.len() && (
                                    #[trigger] self.buckets@[K::bucket_of(key@)]@[j])@ == key@;
                                assert(v@[j]@ == key@);
                            }
                        },
                    }
                }
                found.is_some()
            },
        }
    }

    /// Add `key` to the set.
    pub fn insert(&mut self, key: K)
        requires
            old(self).wf(),
            old(self)@.len() < usize::MAX,
        ensures
            final(self).wf(),
            final(self)@ == old(self)@.insert(key@),
    {
        let b = key.bucket();
        let mut v: Vec<K> = match self.buckets.remove(&b) {
            Some(v) => v,
            None => Vec::new(),
        };
        let ghost old_bucket = v@;
        proof {
            assert(old(self).buckets@.contains_key(b) ==> old_bucket == old(self).buckets@[b]@);
            assert(!old(self).buckets@.contains_key(b) ==> old_bucket.len() == 0);
        }
        let found = position_of(&v, &key);
        let ghost old_s = old(self).contents@;
        proof {
            if found.is_none() && old_s.contains(key@) {
                let j = choose|j: int|
                    0 <= j < old(self).buckets@[K::bucket_of(key@)]@.len() && (#[trigger] old(
                        self,
                    ).buckets@[K::bucket_of(key@)]@[j])@ == key@;
                assert(old_bucket[j]@ == key@);
            }
            self.contents@ = old_s.insert(key@);
        }
        if found.is_none() {
            v.push(key);
            self.count = self.count + 1;
        }
        self.buckets.insert(b, v);
        proof {
            let s = self.contents@;
            assert forall|bb: u64, k: int|
                #![trigger self.buckets@[bb]@[k]]
                self.buckets@.contains_key(bb) && 0 <= k < self.buckets@[bb]@.len() implies {
                &&& K::bucket_of(self.buckets@[bb]@[k]@) == bb
                &&& s.contains(self.buckets@[bb]@[k]@)
            } by {
                if bb != b {
                    assert(old(self).buckets@[bb]@[k] == self.buckets@[bb]@[k]);
                } else if k < old_bucket.len() {
                    assert(old(self).buckets@[bb]@[k] == self.buckets@[bb]@[k]);
                }
            }
            assert forall|bb: u64, k: int, l: int|
                #![trigger self.buckets@[bb]@[k], self.buckets@[bb]@[l]]
                self.buckets@.contains_key(bb) && 0 <= k < l < self.buckets@[bb]@.len() implies self.buckets@[bb]@[k]@
                != self.buckets@[bb]@[l]@ by {
                if bb != b || l < old_bucket.len() {
                    assert(old(self).buckets@[bb]@[k] == self.buckets@[bb]@[k]);
                    assert(old(self).buckets@[bb]@[l] == self.buckets@[bb]@[l]);
                } else {
                    assert(self.buckets@[bb]@[l]@ == key@);
                    assert(old_bucket[k] == self.buckets@[bb]@[k]);
                }
            }
            assert forall|x: K::V| #[trigger] s.contains(x) implies {
                &&& self.buckets@.contains_key(K::bucket_of(x))
                &&& exists|k: int|
                    0 <= k < self.buckets@[K::bucket_of(x)]@.len() && (#[trigger] self.buckets@[K::bucket_of(
                        x,
                    )]@[k])@ == x
            } by {
                if x == key@ {
                    match found {
                        Some(i) => {
                            assert(self.buckets@[b]@[i as int]@ == x);
                        },
                        None => {
                            assert(self.buckets@[b]@[old_bucket.len() as int]@ == x);
                        },
                    }
                } else {
                    assert(old_s.contains(x));
                    let k = choose|k: int|
                        0 <= k < old(self).buckets@[K::bucket_of(x)]@.len() && (#[trigger] old(
                            self,
                        ).buckets@[K::bucket_of(x)]@[k])@ == x;
                    assert(self.buckets@[K::bucket_of(x)]@[k]@ == x);
                }
            }
        }
    }

    /// Remove `key` from the set (no effect when absent).
    pub fn remove(&mut self, key: &K)
        requires
            old(self).wf(),
        ensures
            final(self).wf(),
            final(self)@ == old(self)@.remove(key@),
    {
        let b = key.bucket();
        let ghost old_map = self.buckets@;
        let mut v: Vec<K> = match self.buckets.remove(&b) {
            Some(v) => v,
            None => {
                proof {
                    assert(self.buckets@ =~= old_map);
                    if old(self)@.contains(key@) {
                        assert(old(self).buckets@.contains_key(K::bucket_of(key@)));
                    }
                    assert(old(self)@.remove(key@) =~= old(self)@);
                }
                return ;
            },
        };
        let ghost old_bucket = v@;
        let found = position_of(&v, key);
        let ghost old_s = old(self).contents@;
        proof {
            match found {
                Some(i) => {
                    assert(old_bucket[i as int]@ == key@);
                    assert(old_s.contains(key@));
                },
                None => {
                    if old_s.contains(key@) {
                        let j = choose|j: int|
                            0 <= j < old(self).buckets@[K::bucket_of(key@)]@.len() && (
                            #[trigger] old(self).buckets@[K::bucket_of(key@)]@[j])@ == key@;
                        assert(old_bucket[j]@ == key@);
                    }
                },
            }
            self.contents@ = old_s.remove(key@);
        }
        match found {
            Some(i) => {
                v.remove(i);
                self.count = self.count - 1;
            },
            None => {},
        }
        self.buckets.insert(b, v);
        proof {
            let s = self.contents@;
            let i: int = match found {
                Some(i) => i as int,
                None => old_bucket.len() as int,
            };
            assert forall|bb: u64, k: int|
                #![trigger self.buckets@[bb]@[k]]
                self.buckets@.contains_key(bb) && 0 <= k < self.buckets@[bb]@.len() implies {
                &&& K::bucket_of(self.buckets@[bb]@[k]@) == bb
                &&& s.contains(self.buckets@[bb]@[k]@)
            } by {
                if bb != b {
                    assert(old(self).buckets@[bb]@[k] == self.buckets@[bb]@[k]);
                    assert(self.buckets@[bb]@[k]@ != key@);
                } else if found.is_some() {
                    if k < i {
                        assert(old_bucket[k] == self.buckets@[bb]@[k]);
                        assert(old(self).buckets@[bb]@[k]@ != old(self).buckets@[bb]@[i]@);
                    } else {
                        assert(old_bucket[k + 1] == self.buckets@[bb]@[k]);
                        assert(old(self).buckets@[bb]@[i]@ != old(self).buckets@[bb]@[k + 1]@);
                    }
                } else {
                    assert(old(self).buckets@[bb]@[k] == self.buckets@[bb]@[k]);
                }
            }
            assert forall|bb: u64, k: int, l: int|
                #![trigger self.buckets@[bb]@[k], self.buckets@[bb]@[l]]
                self.buckets@.contains_key(bb) && 0 <= k < l < self.buckets@[bb]@.len() implies self.buckets@[bb]@[k]@
                != self.buckets@[bb]@[l]@ by {
                if bb != b {
                    assert(old(self).buckets@[bb]@[k] == self.buckets@[bb]@[k]);
                    assert(old(self).buckets@[bb]@[l] == self.buckets@[bb]@[l]);
                } else if found.is_some() {
                    let k0 = if k < i {
                        k
                    } else {
                        k + 1
                    };
                    let l0 = if l < i {
                        l
                    } else {
                        l + 1
                    };
                    assert(old_bucket[k0] == self.buckets@[bb]@[k]);
                    assert(old_bucket[l0] == self.buckets@[bb]@[l]);
                    assert(old(self).buckets@[bb]@[k0]@ != old(self).buckets@[bb]@[l0]@);
                } else {
                    assert(old(self).buckets@[bb]@[k] == self.buckets@[bb]@[k]);
                    assert(old(self).buckets@[bb]@[l] == self.buckets@[bb]@[l]);
                }
            }
            assert forall|x: K::V| #[trigger] s.contains(x) implies {
                &&& self.buckets@.contains_key(K::bucket_of(x))
                &&& exists|k: int|
                    0 <= k < self.buckets@[K::bucket_of(x)]@.len() && (#[trigger] self.buckets@[K::bucket_of(
                        x,
                    )]@[k])@ == x
            } by {
                assert(old_s.contains(x));
                let k = choose|k: int|
                    0 <= k < old(self).buckets@[K::bucket_of(x)]@.len() && (#[trigger] old(
                        self,
                    ).buckets@[K::bucket_of(x)]@[k])@ == x;
                if K::bucket_of(x) != b {
                    assert(self.buckets@[K::bucket_of(x)]@[k]@ == x);
                } else if found.is_some() {
                    if k < i {
                        assert(self.buckets@[b]@[k]@ == x);
                    } else {
                        assert(k != i);
                        assert(self.buckets@[b]@[k - 1]@ == x);
                    }
                } else {
                    assert(self.buckets@[b]@[k]@ == x);
                }
            }
        }
    }

    /// Remove every key.
    pub fn clear(&mut self)
        ensures
            final(self).wf(),
            final(self)@ == Set::<K::V>::empty(),
    {
        self.buckets.clear();
        self.count = 0;
        proof {
            self.contents@ = Set::empty();
        }
    }
}

/// The position of `key` in `v`, if it is there.
fn position_of<K: SearchKey>(v: &Vec<K>, key: &K) -> (r: Option<usize>)
    ensures
        match r {
            Some(i) => i < v@.len() && v@[i as int]@ == key@,
            None => forall|j: int| 0 <= j < v@.len() ==> (#[trigger] v@[j])@ != key@,
        },
{
    let mut i: usize = 0;
    while i < v.len()
        invariant
            i <= v@.len(),
            forall|j: int| 0 <= j < i ==> (#[trigger] v@[j])@ != key@,
        decreases v@.len() - i,
    {
        if v[i].same(key) {
            return Some(i);
        }
        i = i + 1;
    }
    None
}

/// A capped closed set of keys of positions searched out without a win. Below the cap it never
/// evicts; at the cap it clears to make room. Generic over the key type `K` (a
/// 128-bit Zobrist hash by default, or the exact byte encoding).
pub struct ClosedTable<K: SearchKey> {
    set: KeySet<K>,
    capacity: usize,
    peak: usize,
    evictions: u64,
}

impl<K: SearchKey> View for ClosedTable<K> {
    type V = Set<K::V>;

    /// The keys currently recorded.
    closed spec fn view(&self) -> Set<K::V> {
        self.set@
    }
}

impl<K: SearchKey> ClosedTable<K> {
    /// The table holds at most its capacity, which is at least one, and its
    /// peak is at least its current size and at most its capacity.
    pub closed spec fn wf(&self) -> bool {
        &&& self.set.wf()
        &&& self.capacity >= 1
        &&& self.set@.len() <= self.peak <= self.capacity
    }

    /// The most entries the table retains.
    pub closed spec fn capacity_spec(&self) -> usize {
        self.capacity
    }

    /// The largest number of entries held at once so far.
    pub closed spec fn peak_spec(&self) -> usize {
        self.peak
    }

    /// The number of entries dropped by clearing so far.
    pub closed spec fn evictions_spec(&self) -> u64 {
        self.evictions
    }

    /// Number of entries currently recorded, which is within the peak and the
    /// capacity.
    pub fn len(&self) -> (n: usize)
        requires
            self.wf(),
        ensures
            n == self@.len(),
            self@.finite(),
            n <= self.peak_spec() <= self.capacity_spec(),
            self.capacity_spec() >= 1,
    {
        self.set.len()
    }

    /// Create a table holding at most `capacity` entries (at least one).
    pub fn with_capacity(capacity: usize) -> (t: ClosedTable<K>)
        ensures
            t.wf(),
            t@ == Set::<K::V>::empty(),
            t.capacity_spec() == if capacity >= 1 {
                capacity
            } else {
                1
            },
            t.peak_spec() == 0,
            t.evictions_spec() == 0,
    {
        let capacity = if capacity >= 1 {
            capacity
        } else {
            1
        };
        ClosedTable { set: KeySet::new(), capacity, peak: 0, evictions: 0 }
    }

    /// Whether this position is currently recorded as winless.
    pub fn contains(&self, key: &K) -> (b: bool)
        requires
            self.wf(),
        ensures
            b == self@.contains(key@),
    {
        self.set.contains(key)
    }

    /// Record a position searched out without a win. At capacity, clear the
    /// table first.
    pub fn insert(&mut self, key: K)
        requires
            old(self).wf(),
        ensures
            final(self).wf(),
            final(self).capacity_spec() == old(self).capacity_spec(),
            old(self)@.contains(key@) ==> {
                &&& final(self)@ == old(self)@
                &&& final(self).evictions_spec() == old(self).evictions_spec()
            },
            !old(self)@.contains(key@) && old(self)@.len() < old(self).capacity_spec() ==> {
                &&& final(self)@ == old(self)@.insert(key@)
                &&& final(self).evictions_spec() == old(self).evictions_spec()
            },
            !old(self)@.contains(key@) && old(self)@.len() >= old(self).capacity_spec() ==> {
                &&& final(self)@ == Set::<K::V>::empty().insert(key@)
                &&& final(self).evictions_spec() == if old(self).evictions_spec() + old(self)@.len()
                    > u64::MAX {
                    u64::MAX as int
                } else {
                    old(self).evictions_spec() + old(self)@.len()
                }
            },
            final(self).peak_spec() == if final(self)@.len() > old(self).peak_spec() {
                final(self)@.len()
            } else {
                old(self).peak_spec() as nat
            },
    {
        if self.set.contains(&key) {
            return ;
        }
        let n = self.set.len();
        if n >= self.capacity {
            self.evictions = self.evictions.saturating_add(n as u64);
            self.set.clear();
        }
        self.set.insert(key);
        let m = self.set.len();
        if m > self.peak {
            self.peak = m;
        }
        proof {
            assert(old(self)@.len() >= old(self).capacity_spec() ==> self.set@ =~= Set::<
                K::V,
            >::empty().insert(key@));
        }
    }

    /// Peak number of entries retained.
    pub fn peak_entries(&self) -> (n: usize)
        ensures
            n == self.peak_spec(),
    {
        self.peak
    }

    /// Number of entries dropped via clear-on-full (0 while under the cap).
    pub fn evictions(&self) -> (n: u64)
        ensures
            n == self.evictions_spec(),
    {
        self.evictions
    }
}

} // verus!
