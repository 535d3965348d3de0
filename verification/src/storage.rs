//! Typed storage items: a single stored value with a declared default, and a
//! point-lookup map whose keys are hashed into the item's key space.
//!
//! Each item owns one `KeySpace`; its physical keys all extend that key
//! space's prefix, so items of distinct key spaces never touch each other's
//! entries.

use vstd::prelude::*;
use crate::codec::Codec;
use crate::codec::lemma_encoding_injective;
use crate::keys::{KeySpace, HashStrategy, hashed, hash_encoded_key, lemma_hashed_injective,
    lemma_distinct_spaces_cover_disjoint_keys, MAP_TAG, VALUE_TAG};
use crate::store::Store;

verus! {

/// The value of type `V` a store holds at a physical key, with a default
/// returned when the key is unset or its bytes do not decode.
pub open spec fn stored_value_or<V: Codec>(m: Map<Seq<u8>, Seq<u8>>, key: Seq<u8>, default: V) -> V {
    if m.contains_key(key) {
        match V::decoded(m[key]) {
            Some(v) => v,
            None => default,
        }
    } else {
        default
    }
}

/// The value of type `V` a store holds at a physical key, if the key is set
/// and its bytes decode.
pub open spec fn stored_entry<V: Codec>(m: Map<Seq<u8>, Seq<u8>>, key: Seq<u8>) -> Option<V> {
    if m.contains_key(key) {
        V::decoded(m[key])
    } else {
        None
    }
}

/// A single value of type `V` stored under one key space, with a declared
/// default returned while the value is unset.
pub struct StorageValue<V> {
    pub space: KeySpace,
    pub default: V,
}

impl<V: Codec + Copy> StorageValue<V> {
    pub open spec fn wf(self) -> bool {
        self.space.wf()
    }

    /// The one physical key this item stores its value under.
    pub open spec fn key(self) -> Seq<u8> {
        self.space.prefix() + seq![VALUE_TAG]
    }

    /// The value this item holds in a given store: the stored bytes if they
    /// are present and decode, the declared default otherwise.
    pub open spec fn value_in(self, m: Map<Seq<u8>, Seq<u8>>) -> V {
        stored_value_or(m, self.key(), self.default)
    }

    pub fn new(space: KeySpace, default: V) -> (r: StorageValue<V>)
        requires
            space.wf(),
        ensures
            r.wf(),
            r.space.same_item(space),
            r.default == default,
    {
        StorageValue { space, default }
    }

    /// Derives this item's physical key.
    pub fn physical_key(&self) -> (r: Vec<u8>)
        requires
            self.wf(),
        ensures
            r@ == self.key(),
    {
        let mut r = self.space.prefix_bytes();
        r.push(VALUE_TAG);
        proof {
            assert(r@ =~= self.key());
        }
        r
    }

    /// Reads the value, falling back to the declared default when unset.
    /// Never fails, and mutates nothing: the result is a function of the
    /// store's contents alone.
    pub fn get(&self, store: &Store) -> (r: V)
        requires
            self.wf(),
            store.wf(),
        ensures
            r == self.value_in(store@),
    {
        let key = self.physical_key();
        match store.read(&key) {
            Some(bytes) => match V::decode(bytes.as_slice()) {
                Some(v) => v,
                None => self.default,
            },
            None => self.default,
        }
    }

    /// Stores a value, creating the item on first write.
    pub fn set(&self, store: &mut Store, v: V)
        requires
            self.wf(),
            old(store).wf(),
        ensures
            final(store).wf(),
            final(store)@ == old(store)@.insert(self.key(), v.encoded()),
            self.value_in(final(store)@) == v,
    {
        let key = self.physical_key();
        store.write(key, v.encode());
        proof {
            v.lemma_round_trip();
        }
    }

    /// Removes the stored value; reads then see the declared default again.
    pub fn remove(&self, store: &mut Store)
        requires
            self.wf(),
            old(store).wf(),
        ensures
            final(store).wf(),
            final(store)@ == old(store)@.remove(self.key()),
            self.value_in(final(store)@) == self.default,
    {
        let key = self.physical_key();
        store.remove(&key);
    }

    /// An unset item reads as exactly its declared default.
    pub proof fn lemma_get_default(self, m: Map<Seq<u8>, Seq<u8>>)
        requires
            !m.contains_key(self.key()),
        ensures
            self.value_in(m) == self.default,
    {
    }

    /// After `set(v)`, the item reads as exactly `v`.
    pub proof fn lemma_set_then_get(self, m: Map<Seq<u8>, Seq<u8>>, v: V)
        ensures
            self.value_in(m.insert(self.key(), v.encoded())) == v,
    {
        v.lemma_round_trip();
    }

    /// A write or removal at any other physical key leaves the item's value
    /// as it was: `set(v)` holds until this item's next `set` or `remove`.
    pub proof fn lemma_frame(self, m: Map<Seq<u8>, Seq<u8>>, k: Seq<u8>, bytes: Seq<u8>)
        requires
            k != self.key(),
        ensures
            self.value_in(m.insert(k, bytes)) == self.value_in(m),
            self.value_in(m.remove(k)) == self.value_in(m),
    {
    }
}

/// A mapping from keys of type `K` to values of type `V`, each entry stored
/// under the item's key space at a physical key derived by the declared hash
/// strategy. Point lookups only; no ordering over entries.
pub struct StorageMap<K, V> {
    pub space: KeySpace,
    pub strategy: HashStrategy,
    pub marker: core::marker::PhantomData<(K, V)>,
}

impl<K: Codec + Copy, V: Codec + Copy> StorageMap<K, V> {
    pub open spec fn wf(self) -> bool {
        self.space.wf()
    }

    /// The physical key one map key's entry is stored under.
    pub open spec fn entry_key(self, k: K) -> Seq<u8> {
        self.space.prefix() + seq![MAP_TAG] + hashed(self.strategy, k.encoded())
    }

    /// The value stored under a map key in a given store, if any.
    pub open spec fn entry_in(self, m: Map<Seq<u8>, Seq<u8>>, k: K) -> Option<V> {
        stored_entry(m, self.entry_key(k))
    }

    pub fn new(space: KeySpace, strategy: HashStrategy) -> (r: StorageMap<K, V>)
        requires
            space.wf(),
        ensures
            r.wf(),
            r.space.same_item(space),
            r.strategy == strategy,
    {
        StorageMap { space, strategy, marker: core::marker::PhantomData }
    }

    /// Derives the physical key of one map key's entry.
    pub fn entry_key_bytes(&self, k: &K) -> (r: Vec<u8>)
        requires
            self.wf(),
        ensures
            r@ == self.entry_key(*k),
    {
        let mut r = self.space.prefix_bytes();
        r.push(MAP_TAG);
        let mut h = hash_encoded_key(&self.strategy, k.encode());
        r.append(&mut h);
        proof {
            assert(r@ =~= self.entry_key(*k));
        }
        r
    }

    /// Looks up the value stored under a map key, if any. Mutates nothing.
    pub fn get(&self, store: &Store, k: &K) -> (r: Option<V>)
        requires
            self.wf(),
            store.wf(),
        ensures
            r == self.entry_in(store@, *k),
    {
        let key = self.entry_key_bytes(k);
        match store.read(&key) {
            Some(bytes) => V::decode(bytes.as_slice()),
            None => None,
        }
    }

    /// Stores a value under a map key, replacing any previous entry.
    pub fn insert(&self, store: &mut Store, k: K, v: V)
        requires
            self.wf(),
            old(store).wf(),
        ensures
            final(store).wf(),
            final(store)@ == old(store)@.insert(self.entry_key(k), v.encoded()),
            self.entry_in(final(store)@, k) == Some(v),
    {
        let key = self.entry_key_bytes(&k);
        store.write(key, v.encode());
        proof {
            v.lemma_round_trip();
        }
    }

    /// Removes the entry stored under a map key, if any.
    pub fn remove(&self, store: &mut Store, k: &K)
        requires
            self.wf(),
            old(store).wf(),
        ensures
            final(store).wf(),
            final(store)@ == old(store)@.remove(self.entry_key(*k)),
            self.entry_in(final(store)@, *k) == None::<V>,
    {
        let key = self.entry_key_bytes(k);
        store.remove(&key);
    }

    /// Distinct map keys always land on distinct physical keys: the hash
    /// strategy keeps the full encoded key, and encodings are injective.
    pub proof fn lemma_entry_key_injective(self, k1: K, k2: K)
        requires
            self.entry_key(k1) == self.entry_key(k2),
        ensures
            k1 == k2,
    {
        let p = self.space.prefix() + seq![MAP_TAG];
        let a = hashed(self.strategy, k1.encoded());
        let b = hashed(self.strategy, k2.encoded());
        assert((p + a).len() == (p + b).len());
        assert forall|j: int| 0 <= j < a.len() implies a[j] == b[j] by {
            assert((p + a)[p.len() + j] == a[j]);
            assert((p + b)[p.len() + j] == b[j]);
        }
        assert(a =~= b);
        lemma_hashed_injective(self.strategy, k1.encoded(), k2.encoded());
        lemma_encoding_injective(k1, k2);
    }

    /// An insertion or removal under one map key leaves every other map
    /// key's entry as it was.
    pub proof fn lemma_frame(self, m: Map<Seq<u8>, Seq<u8>>, k1: K, k2: K, bytes: Seq<u8>)
        requires
            k1 != k2,
        ensures
            self.entry_in(m.insert(self.entry_key(k1), bytes), k2) == self.entry_in(m, k2),
            self.entry_in(m.remove(self.entry_key(k1)), k2) == self.entry_in(m, k2),
    {
        if self.entry_key(k1) == self.entry_key(k2) {
            self.lemma_entry_key_injective(k1, k2);
        }
    }
}

/// A stored value's physical key never coincides with a map entry's, whether
/// the two items share a key space (the tag byte differs) or not (their
/// prefixes are disjoint).
pub proof fn lemma_value_and_map_keys_distinct<K: Codec + Copy, V: Codec + Copy, W: Codec + Copy>(
    sv: StorageValue<W>,
    sm: StorageMap<K, V>,
    k: K,
)
    requires
        sv.wf(),
        sm.wf(),
    ensures
        sv.key() != sm.entry_key(k),
{
    let p = sv.space.prefix();
    let q = sm.space.prefix();
    if sv.space.same_item(sm.space) {
        assert(sv.key()[p.len() as int] == VALUE_TAG);
        assert(sm.entry_key(k)[q.len() as int] == MAP_TAG);
    } else {
        lemma_distinct_spaces_cover_disjoint_keys(sv.space, sm.space);
        assert(sv.key().subrange(0, p.len() as int) =~= p);
        assert(sm.entry_key(k).subrange(0, q.len() as int) =~= q);
        assert(sv.space.covers(sv.key()));
        assert(sm.space.covers(sm.entry_key(k)));
    }
}

} // verus!
