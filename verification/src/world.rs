//! The world's solver toggles and the cache of arbiters, keyed by body
//! pair and kept in insertion order so solver results are reproducible.

use vstd::prelude::*;
use vstd::map::*;
use crate::arbiter::ArbiterKey;

verus! {

/// The three solver feature toggles, mutable by the caller between steps.
#[derive(Debug, Clone, Copy, PartialEq, Eq)]
pub struct WorldContext {
    pub accumulate_impulse: bool,
    pub warm_starting: bool,
    pub position_correction: bool,
}

impl Default for WorldContext {
    /// The toggles a fresh world starts with: impulses accumulate and
    /// positions are corrected, warm starting is off.
    fn default() -> (r: Self)
        ensures
            r.accumulate_impulse,
            !r.warm_starting,
            r.position_correction,
    {
        Self { accumulate_impulse: true, warm_starting: false, position_correction: true }
    }
}

/// The world's cache of arbiters: one entry per unordered body pair,
/// kept in insertion order so that iterating the cache — and with it the
/// order-sensitive solver arithmetic — is reproducible.
#[verifier::reject_recursive_types(T)]
pub struct ArbiterCache<T> {
    keys: Vec<ArbiterKey>,
    values: Vec<T>,
}

impl<T> ArbiterCache<T> {
    /// The cached keys, oldest first.
    pub closed spec fn keys_in_order(&self) -> Seq<ArbiterKey> {
        self.keys@
    }

    /// The cached entries, aligned with the keys.
    pub closed spec fn values_in_order(&self) -> Seq<T> {
        self.values@
    }

    /// One entry per key, and no key twice.
    pub open spec fn wf(&self) -> bool {
        &&& self.keys_in_order().len() == self.values_in_order().len()
        &&& forall|i: int, j: int|
            0 <= i < j < self.keys_in_order().len() ==> self.keys_in_order()[i]
                != self.keys_in_order()[j]
    }

    pub open spec fn spec_contains(&self, key: ArbiterKey) -> bool {
        self.keys_in_order().contains(key)
    }

    pub open spec fn spec_value(&self, key: ArbiterKey) -> T {
        self.values_in_order()[self.keys_in_order().index_of(key)]
    }

    /// The cache seen as a map from body pair to cached entry.
    pub open spec fn as_map(&self) -> Map<ArbiterKey, T> {
        Map::new(|k: ArbiterKey| self.spec_contains(k), |k: ArbiterKey| self.spec_value(k))
    }

    /// In a well-formed cache a key occurs at most once, so any position
    /// holding it is the position the spec functions speak of.
    proof fn lemma_key_at(&self, key: ArbiterKey, i: int)
        requires
            self.wf(),
            0 <= i < self.keys_in_order().len(),
            self.keys_in_order()[i] == key,
        ensures
            self.spec_contains(key),
            self.keys_in_order().index_of(key) == i,
            self.spec_value(key) == self.values_in_order()[i],
    {
        assert(self.spec_contains(key));
        let j = self.keys_in_order().index_of(key);
        assert(0 <= j < self.keys_in_order().len() && self.keys_in_order()[j] == key);
        if i < j {
            assert(self.keys_in_order()[i] != self.keys_in_order()[j]);
        } else if j < i {
            assert(self.keys_in_order()[j] != self.keys_in_order()[i]);
        }
    }

    /// An empty cache.
    pub fn new() -> (r: Self)
        ensures
            r.wf(),
            r.keys_in_order() == Seq::<ArbiterKey>::empty(),
            r.as_map() == Map::<ArbiterKey, T>::empty(),
    {
        let r = ArbiterCache { keys: Vec::new(), values: Vec::new() };
        proof {
            assert(r.keys_in_order() =~= Seq::<ArbiterKey>::empty());
            assert(r.as_map() =~= Map::<ArbiterKey, T>::empty());
        }
        r
    }

    /// The number of cached pairs.
    pub fn len(&self) -> (n: usize)
        ensures
            n == self.keys_in_order().len(),
    {
        self.keys.len()
    }

    /// The position of `key` in the cache, if it is present.
    pub fn index_of(&self, key: &ArbiterKey) -> (r: Option<usize>)
        requires
            self.wf(),
        ensures
            match r {
                Some(i) => i < self.keys_in_order().len() && self.keys_in_order()[i as int] == *key
                    && self.spec_contains(*key) && self.keys_in_order().index_of(*key) == i,
                None => !self.spec_contains(*key),
            },
    {
        let mut i: usize = 0;
        while i < self.keys.len()
            invariant
                self.wf(),
                i <= self.keys_in_order().len(),
                forall|k: int| 0 <= k < i ==> self.keys_in_order()[k] != *key,
            decreases self.keys_in_order().len() - i,
        {
            if self.keys[i] == *key {
                proof {
                    self.lemma_key_at(*key, i as int);
                }
                return Some(i);
            }
            i = i + 1;
        }
        None
    }

    /// The cached entry for `key`, if the pair is present.
    pub fn get(&self, key: &ArbiterKey) -> (r: Option<&T>)
        requires
            self.wf(),
        ensures
            match r {
                Some(v) => self.spec_contains(*key) && *v == self.spec_value(*key) && *v
                    == self.as_map()[*key],
                None => !self.spec_contains(*key) && !self.as_map().contains_key(*key),
            },
    {
        match self.index_of(key) {
            Some(i) => Some(&self.values[i]),
            None => None,
        }
    }

    /// The key at position `i`.
    pub fn key_at(&self, i: usize) -> (k: ArbiterKey)
        requires
            i < self.keys_in_order().len(),
        ensures
            k == self.keys_in_order()[i as int],
    {
        self.keys[i]
    }

    /// The entry at position `i`.
    pub fn value_at(&self, i: usize) -> (v: &T)
        requires
            self.wf(),
            i < self.keys_in_order().len(),
        ensures
            *v == self.values_in_order()[i as int],
            *v == self.spec_value(self.keys_in_order()[i as int]),
    {
        proof {
            self.lemma_key_at(self.keys_in_order()[i as int], i as int);
        }
        &self.values[i]
    }

    /// Swaps the entry at position `i` for `value` and hands back the old
    /// entry; the keys and their order are untouched.
    pub fn replace_value_at(&mut self, i: usize, value: T) -> (prev: T)
        requires
            old(self).wf(),
            i < old(self).keys_in_order().len(),
        ensures
            final(self).wf(),
            final(self).keys_in_order() == old(self).keys_in_order(),
            prev == old(self).values_in_order()[i as int],
            final(self).values_in_order() == old(self).values_in_order().update(i as int, value),
            final(self).as_map() == old(self).as_map().insert(
                old(self).keys_in_order()[i as int],
                value,
            ),
    {
        let prev = self.values.remove(i);
        self.values.insert(i, value);
        proof {
            assert(self.values@ =~= old(self).values@.update(i as int, value));
            let key = self.keys_in_order()[i as int];
            self.lemma_key_at(key, i as int);
            assert_maps_equal!(
                self.as_map(), old(self).as_map().insert(key, value),
                k => {
                    if self.spec_contains(k) || old(self).spec_contains(k) || k == key {
                        let j = old(self).keys_in_order().index_of(k);
                        assert(0 <= j < old(self).keys_in_order().len()
                            && old(self).keys_in_order()[j] == k);
                        if k == key {
                            assert(self.spec_value(k) == value);
                        } else {
                            old(self).lemma_key_at(k, j);
                            self.lemma_key_at(k, j);
                            assert(j != i);
                        }
                    }
                }
            );
        }
        prev
    }

    /// Caches `value` for `key`: replaces the pair's entry if the pair is
    /// already present, otherwise appends the pair behind every older one.
    pub fn insert(&mut self, key: ArbiterKey, value: T)
        requires
            old(self).wf(),
        ensures
            final(self).wf(),
            final(self).as_map() == old(self).as_map().insert(key, value),
            final(self).keys_in_order() == (if old(self).spec_contains(key) {
                old(self).keys_in_order()
            } else {
                old(self).keys_in_order().push(key)
            }),
            final(self).spec_contains(key),
            final(self).spec_value(key) == value,
            forall|k: ArbiterKey|
                k != key ==> (final(self).spec_contains(k) <==> old(self).spec_contains(k)),
            forall|k: ArbiterKey|
                k != key && old(self).spec_contains(k) ==> final(self).spec_value(k) == old(
                    self,
                ).spec_value(k),
    {
        match self.index_of(&key) {
            Some(i) => {
                let _ = self.replace_value_at(i, value);
                proof {
                    self.lemma_key_at(key, i as int);
                    assert forall|k: ArbiterKey|
                        k != key && old(self).spec_contains(k) implies self.spec_value(k) == old(
                        self,
                    ).spec_value(k) by {
                        let j = old(self).keys_in_order().index_of(k);
                        assert(0 <= j < old(self).keys_in_order().len() && old(
                            self,
                        ).keys_in_order()[j] == k);
                        old(self).lemma_key_at(k, j);
                        self.lemma_key_at(k, j);
                        assert(j != i);
                    }
                }
            }
            None => {
                self.keys.push(key);
                self.values.push(value);
                proof {
                    let n = old(self).keys_in_order().len() as int;
                    assert forall|i: int, j: int|
                        0 <= i < j < self.keys_in_order().len() implies self.keys_in_order()[i]
                        != self.keys_in_order()[j] by {
                        if j < n {
                            assert(old(self).keys_in_order()[i] != old(self).keys_in_order()[j]);
                        } else {
                            assert(self.keys_in_order()[j] == key);
                            assert(self.keys_in_order()[i] == old(self).keys_in_order()[i]);
                            assert(!old(self).spec_contains(key));
                        }
                    }
                    self.lemma_key_at(key, n);
                    assert(self.spec_value(key) == value);
                    assert forall|k: ArbiterKey|
                        k != key implies (self.spec_contains(k) <==> old(self).spec_contains(
                        k,
                    )) by {
                        if old(self).spec_contains(k) {
                            let j = old(self).keys_in_order().index_of(k);
                            assert(0 <= j < n && old(self).keys_in_order()[j] == k);
                            assert(self.keys_in_order()[j] == k);
                            assert(self.spec_contains(k));
                        }
                        if self.spec_contains(k) {
                            let j = self.keys_in_order().index_of(k);
                            assert(0 <= j < n + 1 && self.keys_in_order()[j] == k);
                            assert(j != n);
                            assert(old(self).keys_in_order()[j] == k);
                            assert(old(self).spec_contains(k));
                        }
                    }
                    assert forall|k: ArbiterKey|
                        k != key && old(self).spec_contains(k) implies self.spec_value(k) == old(
                        self,
                    ).spec_value(k) by {
                        let j = old(self).keys_in_order().index_of(k);
                        assert(0 <= j < n && old(self).keys_in_order()[j] == k);
                        old(self).lemma_key_at(k, j);
                        self.lemma_key_at(k, j);
                    }
                    assert_maps_equal!(
                        self.as_map(), old(self).as_map().insert(key, value),
                        k => {
                            if k == key {
                                assert(self.spec_contains(k));
                                assert(self.spec_value(k) == value);
                            } else {
                                if old(self).spec_contains(k) {
                                    let j = old(self).keys_in_order().index_of(k);
                                    assert(0 <= j < n && old(self).keys_in_order()[j] == k);
                                    old(self).lemma_key_at(k, j);
                                    self.lemma_key_at(k, j);
                                }
                                if self.spec_contains(k) {
                                    let j = self.keys_in_order().index_of(k);
                                    assert(0 <= j < n + 1 && self.keys_in_order()[j] == k);
                                    assert(j != n);
                                    assert(old(self).keys_in_order()[j] == k);
                                    assert(old(self).spec_contains(k));
                                }
                            }
                        }
                    );
                }
            }
        }
    }

    /// Drops the pair's entry from the cache, discarding the accumulated
    /// impulse state it carried.  A pair that is not cached is left alone.
    pub fn remove(&mut self, key: &ArbiterKey)
        requires
            old(self).wf(),
        ensures
            final(self).wf(),
            final(self).as_map() == old(self).as_map().remove(*key),
            final(self).keys_in_order() == old(self).keys_in_order().remove_value(*key),
            !final(self).spec_contains(*key),
            forall|k: ArbiterKey|
                k != *key ==> (final(self).spec_contains(k) <==> old(self).spec_contains(k)),
            forall|k: ArbiterKey|
                k != *key && old(self).spec_contains(k) ==> final(self).spec_value(k) == old(
                    self,
                ).spec_value(k),
    {
        match self.index_of(key) {
            Some(i) => {
                self.keys.remove(i);
                self.values.remove(i);
                proof {
                    let n = old(self).keys_in_order().len() as int;
                    let okeys = old(self).keys_in_order();
                    assert(self.keys_in_order() =~= okeys.remove(i as int));
                    assert(self.values_in_order() =~= old(self).values_in_order().remove(i as int));
                    assert forall|a: int|
                        0 <= a < self.keys_in_order().len() implies self.keys_in_order()[a] == (
                    if a < i { okeys[a] } else { okeys[a + 1] }) by {}
                    assert forall|a: int, b: int|
                        0 <= a < b < self.keys_in_order().len() implies self.keys_in_order()[a]
                        != self.keys_in_order()[b] by {}
                    // the scan found the first occurrence, so `remove_value`
                    // removes exactly position i
                    okeys.index_of_first_ensures(*key);
                    match okeys.index_of_first(*key) {
                        Some(f) => {
                            old(self).lemma_key_at(*key, f);
                            assert(f == i as int);
                        }
                        None => {
                            assert(okeys.contains(*key));
                        }
                    }
                    assert(self.keys_in_order() =~= okeys.remove_value(*key));
                    assert forall|k: ArbiterKey| k != *key && self.spec_contains(k) implies old(
                        self,
                    ).spec_contains(k) && self.spec_value(k) == old(self).spec_value(k) by {
                        let j = self.keys_in_order().index_of(k);
                        assert(0 <= j < self.keys_in_order().len() && self.keys_in_order()[j] == k);
                        let oj: int = if j < i { j } else { j + 1 };
                        assert(okeys[oj] == k);
                        old(self).lemma_key_at(k, oj);
                        self.lemma_key_at(k, j);
                    }
                    assert forall|k: ArbiterKey| k != *key && old(self).spec_contains(k) implies self
                        .spec_contains(k) by {
                        let j = okeys.index_of(k);
                        assert(0 <= j < n && okeys[j] == k);
                        assert(j != i);
                        let nj: int = if j < i { j } else { j - 1 };
                        assert(self.keys_in_order()[nj] == k);
                        self.lemma_key_at(k, nj);
                    }
                    assert forall|k: ArbiterKey| #[trigger] self.spec_contains(k) implies k != *key by {
                        if k == *key {
                            let j = self.keys_in_order().index_of(k);
                            assert(0 <= j < self.keys_in_order().len()
                                && self.keys_in_order()[j] == k);
                            let oj: int = if j < i { j } else { j + 1 };
                            assert(okeys[oj] == *key);
                            old(self).lemma_key_at(*key, oj);
                        }
                    }
                    assert(!self.spec_contains(*key));
                    assert_maps_equal!(
                        self.as_map(), old(self).as_map().remove(*key),
                        k => {}
                    );
                }
            }
            None => {
                proof {
                    let okeys = old(self).keys_in_order();
                    okeys.index_of_first_ensures(*key);
                    match okeys.index_of_first(*key) {
                        Some(f) => {
                            assert(okeys.contains(*key));
                        }
                        None => {}
                    }
                    assert(self.keys_in_order() =~= okeys.remove_value(*key));
                    assert_maps_equal!(
                        self.as_map(), old(self).as_map().remove(*key),
                        k => {}
                    );
                }
            }
        }
    }
}

/// The arbiter cache after one broad-phase frame settled a body pair: a
/// frame whose narrow phase produced at least one contact caches the
/// merged arbiter, a frame without contact drops the pair's entry.
pub open spec fn frame_applied<T>(
    cache: Map<ArbiterKey, T>,
    key: ArbiterKey,
    overlap: bool,
    merged: T,
) -> Map<ArbiterKey, T> {
    if overlap {
        cache.insert(key, merged)
    } else {
        cache.remove(key)
    }
}

/// The arbiter lifecycle: a pair's key is present after a frame with
/// overlap, absent after a later frame in which the pair produced no
/// contact, and a pairing after that starts from whatever arbiter that
/// frame merges — nothing of the removed entry's impulse state survives.
pub proof fn lemma_arbiter_lifecycle<T>(
    cache: Map<ArbiterKey, T>,
    key: ArbiterKey,
    merged: T,
    later: T,
)
    ensures
        frame_applied(cache, key, true, merged).contains_key(key),
        frame_applied(cache, key, true, merged)[key] == merged,
        !frame_applied(frame_applied(cache, key, true, merged), key, false, merged).contains_key(
            key,
        ),
        frame_applied(
            frame_applied(frame_applied(cache, key, true, merged), key, false, merged),
            key,
            true,
            later,
        )[key] == later,
{
}

} // verus!
