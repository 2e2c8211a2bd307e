//! The keyed store: a small verified association map.
//!
//! Every engine keeps its persistent state in instances of [`KeyedMap`],
//! one per storage item, keyed by a club id, by a composite (club, item)
//! pair, or by a composite (club, item, account) triple.  The store performs
//! no business logic itself; it only promises exact map semantics, which the
//! engines' contracts build on.

use vstd::prelude::*;
use vstd::pervasive::VecAdditionalExecFns;

verus! {

/// A key of the keyed store.  `same` is the executable equality test and is
/// required to agree with mathematical equality, so the store can promise
/// map semantics over its keys.
pub trait StoreKey: Copy {
    fn same(&self, other: &Self) -> (r: bool)
        ensures
            r <==> *self == *other,
    ;
}

impl StoreKey for u64 {
    fn same(&self, other: &Self) -> (r: bool)
        ensures
            r <==> *self == *other,
    {
        *self == *other
    }
}

/// An element-wise copy of a vector of plain values.
pub fn copy_vec<T: Copy>(v: &Vec<T>) -> (r: Vec<T>)
    ensures
        r@ == v@,
{
    let mut r: Vec<T> = Vec::new();
    let n = v.len();
    let mut i: usize = 0;
    while i < n
        invariant
            n == v@.len(),
            0 <= i <= n,
            r@ == v@.subrange(0, i as int),
        decreases n - i,
    {
        r.push(v[i]);
        proof {
            assert(r@ =~= v@.subrange(0, i + 1));
        }
        i += 1;
    }
    proof {
        assert(r@ =~= v@);
    }
    r
}

/// An association map with unique keys, backed by a vector of pairs.
///
/// The mathematical view is a `Map<K, V>`; the underlying sequence of pairs
/// is also exposed (as `kvs`), because some engine invariants are sums over
/// all stored values.
pub struct KeyedMap<K, V> {
    pairs: Vec<(K, V)>,
}

impl<K, V> View for KeyedMap<K, V> {
    type V = Map<K, V>;

    open spec fn view(&self) -> Map<K, V> {
        Map::new(|k: K| self.has(k), |k: K| self.kvs()[self.index_of(k)].1)
    }
}

impl<K, V> KeyedMap<K, V> {
    /// The stored pairs, in insertion order.
    pub closed spec fn kvs(self) -> Seq<(K, V)> {
        self.pairs@
    }

    /// No key occurs twice.
    pub open spec fn wf(self) -> bool {
        forall|i: int, j: int|
            0 <= i < j < self.kvs().len() ==> (#[trigger] self.kvs()[i]).0 != (
            #[trigger] self.kvs()[j]).0
    }

    /// Some pair carries the key `k`.
    pub open spec fn has(self, k: K) -> bool {
        exists|i: int| 0 <= i < self.kvs().len() && (#[trigger] self.kvs()[i]).0 == k
    }

    /// The position of the pair carrying `k` (meaningful only when `has(k)`).
    pub open spec fn index_of(self, k: K) -> int {
        choose|i: int| 0 <= i < self.kvs().len() && (#[trigger] self.kvs()[i]).0 == k
    }

    proof fn lemma_index_unique(self, k: K, i: int)
        requires
            self.wf(),
            0 <= i < self.kvs().len(),
            self.kvs()[i].0 == k,
        ensures
            self.index_of(k) == i,
            self.has(k),
    {
        assert(self.has(k));
        let j = self.index_of(k);
        if i < j {
            assert(self.kvs()[i].0 != self.kvs()[j].0);
        } else if j < i {
            assert(self.kvs()[j].0 != self.kvs()[i].0);
        }
    }

    /// An empty store.
    pub fn new() -> (r: KeyedMap<K, V>)
        ensures
            r.wf(),
            r@ == Map::<K, V>::empty(),
            r.kvs() == Seq::<(K, V)>::empty(),
    {
        let r = KeyedMap { pairs: Vec::new() };
        proof {
            assert(r@ =~= Map::<K, V>::empty());
            assert(r.kvs() =~= Seq::<(K, V)>::empty());
        }
        r
    }
}

impl<K: StoreKey, V: Copy> KeyedMap<K, V> {
    /// The other read semantic: the bound value, or `default` when `k` is
    /// unbound.
    pub fn get_or(&self, k: K, default: V) -> (r: V)
        requires
            self.wf(),
        ensures
            r == if self@.contains_key(k) {
                self@[k]
            } else {
                default
            },
    {
        match self.get(k) {
            Some(v) => *v,
            None => default,
        }
    }
}

impl<K: StoreKey, V> KeyedMap<K, V> {
    /// Absent keys are a distinct outcome: `None` exactly when `k` is unbound.
    pub fn get(&self, k: K) -> (r: Option<&V>)
        requires
            self.wf(),
        ensures
            match r {
                Some(v) => self@.contains_key(k) && *v == self@[k],
                None => !self@.contains_key(k),
            },
    {
        let n = self.pairs.len();
        let mut i: usize = 0;
        while i < n
            invariant
                n == self.kvs().len(),
                0 <= i <= n,
                self.wf(),
                forall|j: int| 0 <= j < i ==> (#[trigger] self.kvs()[j]).0 != k,
            decreases n - i,
        {
            if self.pairs[i].0.same(&k) {
                proof {
                    self.lemma_index_unique(k, i as int);
                }
                return Some(&self.pairs[i].1);
            }
            i += 1;
        }
        proof {
            assert(!self.has(k));
        }
        None
    }

    /// Whether `k` is bound.
    pub fn contains(&self, k: K) -> (r: bool)
        requires
            self.wf(),
        ensures
            r == self@.contains_key(k),
    {
        self.get(k).is_some()
    }

    /// Bind `k` to `v`, replacing any earlier binding.
    ///
    /// Besides the map-level effect, the contract pins the pair-level effect
    /// (update in place, or append), which sum-based invariants rely on.
    pub fn insert(&mut self, k: K, v: V)
        requires
            old(self).wf(),
        ensures
            final(self).wf(),
            final(self)@ == old(self)@.insert(k, v),
            old(self).has(k) ==> final(self).kvs() == old(self).kvs().update(
                old(self).index_of(k),
                (k, v),
            ),
            !old(self).has(k) ==> final(self).kvs() == old(self).kvs().push((k, v)),
    {
        let ghost prior = *self;
        let n = self.pairs.len();
        let mut i: usize = 0;
        while i < n
            invariant
                *self == prior,
                prior == *old(self),
                n == self.kvs().len(),
                0 <= i <= n,
                self.wf(),
                forall|j: int| 0 <= j < i ==> (#[trigger] self.kvs()[j]).0 != k,
            decreases n - i,
        {
            if self.pairs[i].0.same(&k) {
                proof {
                    self.lemma_index_unique(k, i as int);
                }
                self.pairs.set(i, (k, v));
                proof {
                    self.lemma_post_update(prior, k, v, i as int);
                }
                return ;
            }
            i += 1;
        }
        proof {
            assert(!prior.has(k));
        }
        self.pairs.push((k, v));
        proof {
            self.lemma_post_push(prior, k, v);
        }
    }

    /// Unbind `k`; a no-op when `k` is unbound.
    pub fn remove(&mut self, k: K)
        requires
            old(self).wf(),
        ensures
            final(self).wf(),
            final(self)@ == old(self)@.remove(k),
            old(self).has(k) ==> final(self).kvs() == old(self).kvs().remove(
                old(self).index_of(k),
            ),
            !old(self).has(k) ==> final(self).kvs() == old(self).kvs(),
    {
        let ghost prior = *self;
        let n = self.pairs.len();
        let mut i: usize = 0;
        while i < n
            invariant
                *self == prior,
                prior == *old(self),
                n == self.kvs().len(),
                0 <= i <= n,
                self.wf(),
                forall|j: int| 0 <= j < i ==> (#[trigger] self.kvs()[j]).0 != k,
            decreases n - i,
        {
            if self.pairs[i].0.same(&k) {
                proof {
                    self.lemma_index_unique(k, i as int);
                }
                self.pairs.remove(i);
                proof {
                    self.lemma_post_remove(prior, k, i as int);
                }
                return ;
            }
            i += 1;
        }
        proof {
            assert(!prior.has(k));
            assert(final(self)@ =~= prior@.remove(k)) by {
                assert(forall|j: K| self.has(j) ==> j != k);
            }
        }
    }

    proof fn lemma_post_update(self, prior: KeyedMap<K, V>, k: K, v: V, i: int)
        requires
            prior.wf(),
            0 <= i < prior.kvs().len(),
            prior.kvs()[i].0 == k,
            prior.index_of(k) == i,
            self.kvs() == prior.kvs().update(i, (k, v)),
        ensures
            self.wf(),
            self@ == prior@.insert(k, v),
    {
        assert forall|j: K| #[trigger] self.has(j) implies prior@.insert(k, v).contains_key(j) by {
            let x = choose|x: int|
                0 <= x < self.kvs().len() && (#[trigger] self.kvs()[x]).0 == j;
            if x != i {
                assert(prior.kvs()[x].0 == j);
            }
        };
        assert forall|j: K| prior@.insert(k, v).contains_key(j) implies #[trigger] self.has(j) by {
            if j == k {
                assert(self.kvs()[i].0 == j);
            } else {
                let x = choose|x: int|
                    0 <= x < prior.kvs().len() && (#[trigger] prior.kvs()[x]).0 == j;
                assert(self.kvs()[x].0 == j);
            }
        };
        assert forall|j: K| #[trigger] self.has(j) implies self.kvs()[self.index_of(j)].1
            == prior@.insert(k, v)[j] by {
            let x = self.index_of(j);
            if j == k {
                self.lemma_index_unique(k, i);
            } else {
                assert(prior.kvs()[x].0 == j);
                prior.lemma_index_unique(j, x);
            }
        };
        assert(self@ =~= prior@.insert(k, v));
    }

    proof fn lemma_post_push(self, prior: KeyedMap<K, V>, k: K, v: V)
        requires
            prior.wf(),
            !prior.has(k),
            self.kvs() == prior.kvs().push((k, v)),
        ensures
            self.wf(),
            self@ == prior@.insert(k, v),
    {
        let n = prior.kvs().len() as int;
        assert(self.kvs()[n] == (k, v));
        assert forall|i: int, j: int|
            0 <= i < j < self.kvs().len() implies (#[trigger] self.kvs()[i]).0 != (
        #[trigger] self.kvs()[j]).0 by {
            if j < n {
                assert(prior.kvs()[i].0 != prior.kvs()[j].0);
            } else {
                assert(self.kvs()[i] == prior.kvs()[i]);
                assert(!(prior.kvs()[i].0 == k)) by {
                    if prior.kvs()[i].0 == k {
                        assert(prior.has(k));
                    }
                }
            }
        };
        assert forall|j: K| #[trigger] self.has(j) implies prior@.insert(k, v).contains_key(j) by {
            let x = choose|x: int|
                0 <= x < self.kvs().len() && (#[trigger] self.kvs()[x]).0 == j;
            if x < n {
                assert(prior.kvs()[x].0 == j);
            }
        };
        assert forall|j: K| prior@.insert(k, v).contains_key(j) implies #[trigger] self.has(j) by {
            if j == k {
                assert(self.kvs()[n].0 == j);
            } else {
                let x = choose|x: int|
                    0 <= x < prior.kvs().len() && (#[trigger] prior.kvs()[x]).0 == j;
                assert(self.kvs()[x].0 == j);
            }
        };
        assert forall|j: K| #[trigger] self.has(j) implies self.kvs()[self.index_of(j)].1
            == prior@.insert(k, v)[j] by {
            if j == k {
                self.lemma_index_unique(k, n);
            } else {
                let x = choose|x: int|
                    0 <= x < prior.kvs().len() && (#[trigger] prior.kvs()[x]).0 == j;
                assert(self.kvs()[x].0 == j);
                self.lemma_index_unique(j, x);
                prior.lemma_index_unique(j, x);
            }
        };
        assert(self@ =~= prior@.insert(k, v));
    }

    proof fn lemma_post_remove(self, prior: KeyedMap<K, V>, k: K, i: int)
        requires
            prior.wf(),
            0 <= i < prior.kvs().len(),
            prior.kvs()[i].0 == k,
            prior.index_of(k) == i,
            self.kvs() == prior.kvs().remove(i),
        ensures
            self.wf(),
            self@ == prior@.remove(k),
    {
        let n = prior.kvs().len() as int;
        assert forall|x: int, y: int|
            0 <= x < y < self.kvs().len() implies (#[trigger] self.kvs()[x]).0 != (
        #[trigger] self.kvs()[y]).0 by {
            let px: int = if x < i { x } else { x + 1 };
            let py: int = if y < i { y } else { y + 1 };
            assert(self.kvs()[x] == prior.kvs()[px]);
            assert(self.kvs()[y] == prior.kvs()[py]);
        };
        assert forall|j: K| #[trigger] self.has(j) implies prior@.remove(k).contains_key(j) by {
            let x = choose|x: int|
                0 <= x < self.kvs().len() && (#[trigger] self.kvs()[x]).0 == j;
            let px: int = if x < i { x } else { x + 1 };
            assert(prior.kvs()[px].0 == j);
            if j == k {
                prior.lemma_index_unique(k, px);
            }
        };
        assert forall|j: K| prior@.remove(k).contains_key(j) implies #[trigger] self.has(j) by {
            let x = choose|x: int|
                0 <= x < prior.kvs().len() && (#[trigger] prior.kvs()[x]).0 == j;
            if x < i {
                assert(self.kvs()[x].0 == j);
            } else {
                assert(x != i);
                assert(self.kvs()[x - 1].0 == j);
            }
        };
        assert forall|j: K| #[trigger] self.has(j) implies self.kvs()[self.index_of(j)].1
            == prior@.remove(k)[j] by {
            let x = self.index_of(j);
            let px: int = if x < i { x } else { x + 1 };
            assert(prior.kvs()[px].0 == j);
            prior.lemma_index_unique(j, px);
        };
        assert(self@ =~= prior@.remove(k));
    }
}

} // verus!
