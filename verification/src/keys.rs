//! Storage addressing: mapping a logical storage item to a unique physical
//! byte key in the shared key-value store.
//!
//! A key space is a stable module identifier plus an item name. Both parts
//! are length-prefixed in the derived key, which makes the derivation
//! injective and prefix-free: no key space's prefix is a proper prefix of
//! another's, so the physical keys of two distinct key spaces are disjoint,
//! across any set of modules.

use vstd::prelude::*;
use crate::codec::Codec;
use crate::codec::bytes_clone;

verus! {

/// Tag byte appended to a key space's prefix for its single stored value.
pub const VALUE_TAG: u8 = 0;

/// Tag byte appended to a key space's prefix before a hashed map key.
pub const MAP_TAG: u8 = 1;

/// FNV-1a 64-bit offset basis.
pub const FNV_OFFSET: u64 = 0xcbf29ce484222325;

/// FNV-1a 64-bit prime.
pub const FNV_PRIME: u64 = 0x100000001b3;

/// Identifies one logical storage item: a stable module identifier plus an
/// item name, fixed at module-definition time.
pub struct KeySpace {
    pub module_id: Vec<u8>,
    pub item_name: Vec<u8>,
}

/// The length-prefixed concatenation both parts of a key space derive to.
pub open spec fn prefix_of(module_id: Seq<u8>, item_name: Seq<u8>) -> Seq<u8> {
    seq![module_id.len() as u8] + module_id + seq![item_name.len() as u8] + item_name
}

/// `p` is an initial segment of `k`.
pub open spec fn is_prefix_of(p: Seq<u8>, k: Seq<u8>) -> bool {
    p.len() <= k.len() && k.subrange(0, p.len() as int) == p
}

impl KeySpace {
    /// Both parts fit in their one-byte length prefix.
    pub open spec fn wf(self) -> bool {
        self.module_id@.len() <= 255 && self.item_name@.len() <= 255
    }

    /// The byte prefix every physical key of this key space starts with.
    pub open spec fn prefix(self) -> Seq<u8> {
        prefix_of(self.module_id@, self.item_name@)
    }

    /// The physical keys owned by this key space: exactly the extensions of
    /// its prefix.
    pub open spec fn covers(self, key: Seq<u8>) -> bool {
        is_prefix_of(self.prefix(), key)
    }

    /// Two key spaces denote the same logical item.
    pub open spec fn same_item(self, other: KeySpace) -> bool {
        self.module_id@ == other.module_id@ && self.item_name@ == other.item_name@
    }

    /// Derives the byte prefix of this key space's physical keys.
    pub fn prefix_bytes(&self) -> (r: Vec<u8>)
        requires
            self.wf(),
        ensures
            r@ == self.prefix(),
    {
        let mut r: Vec<u8> = Vec::new();
        r.push(self.module_id.len() as u8);
        let mut m = bytes_clone(&self.module_id);
        r.append(&mut m);
        r.push(self.item_name.len() as u8);
        let mut i = bytes_clone(&self.item_name);
        r.append(&mut i);
        proof {
            assert(r@ =~= self.prefix());
        }
        r
    }

    pub fn new(module_id: Vec<u8>, item_name: Vec<u8>) -> (r: KeySpace)
        requires
            module_id@.len() <= 255,
            item_name@.len() <= 255,
        ensures
            r.wf(),
            r.module_id@ == module_id@,
            r.item_name@ == item_name@,
    {
        KeySpace { module_id, item_name }
    }
}

/// If one derived prefix is an initial segment of another, the two prefixes
/// came from the same module identifier and item name: the length-prefixed
/// derivation is injective and prefix-free.
pub proof fn lemma_prefix_of_injective(m1: Seq<u8>, i1: Seq<u8>, m2: Seq<u8>, i2: Seq<u8>)
    requires
        m1.len() <= 255,
        i1.len() <= 255,
        m2.len() <= 255,
        i2.len() <= 255,
        is_prefix_of(prefix_of(m1, i1), prefix_of(m2, i2)),
    ensures
        m1 == m2,
        i1 == i2,
{
    let p = prefix_of(m1, i1);
    let q = prefix_of(m2, i2);
    assert forall|j: int| 0 <= j < p.len() implies p[j] == q[j] by {
        assert(q.subrange(0, p.len() as int)[j] == q[j]);
    }
    assert(p[0] == m1.len() as u8);
    assert(q[0] == m2.len() as u8);
    assert(m1.len() == m2.len());
    assert forall|j: int| 0 <= j < m1.len() implies m1[j] == m2[j] by {
        assert(p[1 + j] == m1[j]);
        assert(q[1 + j] == m2[j]);
    }
    assert(m1 =~= m2);
    assert(p[1 + m1.len() as int] == i1.len() as u8);
    assert(q[1 + m2.len() as int] == i2.len() as u8);
    assert(i1.len() == i2.len());
    assert forall|j: int| 0 <= j < i1.len() implies i1[j] == i2[j] by {
        assert(p[2 + m1.len() + j] == i1[j]);
        assert(q[2 + m2.len() + j] == i2[j]);
    }
    assert(i1 =~= i2);
}

/// No-collision property over derived prefixes: the extensions of two
/// prefixes that differ in module identifier or item name are disjoint.
pub proof fn lemma_distinct_names_cover_disjoint_keys(
    m1: Seq<u8>,
    i1: Seq<u8>,
    m2: Seq<u8>,
    i2: Seq<u8>,
)
    requires
        m1.len() <= 255,
        i1.len() <= 255,
        m2.len() <= 255,
        i2.len() <= 255,
        m1 != m2 || i1 != i2,
    ensures
        forall|key: Seq<u8>|
            !(is_prefix_of(prefix_of(m1, i1), key) && is_prefix_of(prefix_of(m2, i2), key)),
{
    let p = prefix_of(m1, i1);
    let q = prefix_of(m2, i2);
    assert forall|key: Seq<u8>| !(is_prefix_of(p, key) && is_prefix_of(q, key)) by {
        if is_prefix_of(p, key) && is_prefix_of(q, key) {
            if p.len() <= q.len() {
                assert forall|j: int| 0 <= j < p.len() implies q.subrange(
                    0,
                    p.len() as int,
                )[j] == p[j] by {
                    assert(key.subrange(0, p.len() as int)[j] == key[j]);
                    assert(key.subrange(0, q.len() as int)[j] == key[j]);
                    assert(q.subrange(0, p.len() as int)[j] == q[j]);
                }
                assert(q.subrange(0, p.len() as int) =~= p);
                lemma_prefix_of_injective(m1, i1, m2, i2);
            } else {
                assert forall|j: int| 0 <= j < q.len() implies p.subrange(
                    0,
                    q.len() as int,
                )[j] == q[j] by {
                    assert(key.subrange(0, q.len() as int)[j] == key[j]);
                    assert(key.subrange(0, p.len() as int)[j] == key[j]);
                    assert(p.subrange(0, q.len() as int)[j] == p[j]);
                }
                assert(p.subrange(0, q.len() as int) =~= q);
                lemma_prefix_of_injective(m2, i2, m1, i1);
            }
        }
    }
}

/// Concatenation after a common prefix is injective.
pub proof fn lemma_concat_suffix_injective(p: Seq<u8>, a: Seq<u8>, b: Seq<u8>)
    requires
        p + a == p + b,
    ensures
        a == b,
{
    assert((p + a).len() == p.len() + a.len());
    assert((p + b).len() == p.len() + b.len());
    assert(a.len() == b.len());
    assert forall|j: int| 0 <= j < a.len() implies a[j] == b[j] by {
        assert((p + a)[p.len() + j] == a[j]);
        assert((p + b)[p.len() + j] == b[j]);
        assert((p + a)[p.len() + j] == (p + b)[p.len() + j]);
    }
    assert(a =~= b);
}

/// No-collision property: the physical keys of two key spaces that differ in
/// module identifier or item name are disjoint, whatever the set of modules
/// they were declared across.
pub proof fn lemma_distinct_spaces_cover_disjoint_keys(a: KeySpace, b: KeySpace)
    requires
        a.wf(),
        b.wf(),
        !a.same_item(b),
    ensures
        forall|key: Seq<u8>| !(a.covers(key) && b.covers(key)),
{
    lemma_distinct_names_cover_disjoint_keys(a.module_id@, a.item_name@, b.module_id@, b.item_name@);
}

/// The declared, swappable strategy a storage map hashes its keys with.
/// Both strategies keep the full encoded key in the physical key, so the
/// derivation stays injective whatever strategy a map declares.
pub enum HashStrategy {
    /// The encoded key itself: cheapest, and keeps entries readable.
    Transparent,
    /// A fast non-cryptographic 64-bit FNV-1a digest of the encoded key,
    /// followed by the encoded key.
    FnvConcat,
}

/// One FNV-1a round: fold a byte into the running digest.
pub open spec fn fnv_step(h: u64, b: u8) -> u64 {
    (h ^ (b as u64)).wrapping_mul(FNV_PRIME)
}

/// FNV-1a digest of the bytes not yet folded into `h`.
pub open spec fn fnv_acc(h: u64, bytes: Seq<u8>) -> u64
    decreases bytes.len(),
{
    if bytes.len() == 0 {
        h
    } else {
        fnv_acc(fnv_step(h, bytes[0]), bytes.drop_first())
    }
}

/// FNV-1a 64-bit digest of a byte string.
pub open spec fn fnv1a(bytes: Seq<u8>) -> u64 {
    fnv_acc(FNV_OFFSET, bytes)
}

/// Computes the FNV-1a 64-bit digest of `bytes`.
pub fn fnv1a_digest(bytes: &Vec<u8>) -> (r: u64)
    ensures
        r == fnv1a(bytes@),
{
    let mut h: u64 = FNV_OFFSET;
    let mut i: usize = 0;
    proof {
        assert(bytes@.skip(0) =~= bytes@);
    }
    while i < bytes.len()
        invariant
            0 <= i <= bytes@.len(),
            fnv_acc(h, bytes@.skip(i as int)) == fnv1a(bytes@),
        decreases bytes@.len() - i,
    {
        proof {
            assert(bytes@.skip(i as int)[0] == bytes@[i as int]);
            assert(bytes@.skip(i as int).drop_first() =~= bytes@.skip(i as int + 1));
        }
        h = (h ^ (bytes[i] as u64)).wrapping_mul(FNV_PRIME);
        i = i + 1;
    }
    proof {
        assert(bytes@.skip(bytes@.len() as int) =~= Seq::<u8>::empty());
    }
    h
}

/// What a map key's encoding hashes to under a strategy. Every strategy ends
/// with the encoded key itself, so the result determines the encoding.
pub open spec fn hashed(strategy: HashStrategy, encoded_key: Seq<u8>) -> Seq<u8> {
    match strategy {
        HashStrategy::Transparent => encoded_key,
        HashStrategy::FnvConcat => fnv1a(encoded_key).encoded() + encoded_key,
    }
}

/// Hashes an encoded map key under a strategy.
pub fn hash_encoded_key(strategy: &HashStrategy, encoded_key: Vec<u8>) -> (r: Vec<u8>)
    ensures
        r@ == hashed(*strategy, encoded_key@),
{
    match strategy {
        HashStrategy::Transparent => encoded_key,
        HashStrategy::FnvConcat => {
            let digest = fnv1a_digest(&encoded_key);
            let mut r = digest.encode();
            let mut rest = encoded_key;
            r.append(&mut rest);
            r
        },
    }
}

/// A strategy's output determines the encoded key it was applied to: hashing
/// never merges two distinct map keys of one map into one physical key.
pub proof fn lemma_hashed_injective(strategy: HashStrategy, e1: Seq<u8>, e2: Seq<u8>)
    requires
        hashed(strategy, e1) == hashed(strategy, e2),
    ensures
        e1 == e2,
{
    match strategy {
        HashStrategy::Transparent => {},
        HashStrategy::FnvConcat => {
            let d1 = fnv1a(e1).encoded();
            let d2 = fnv1a(e2).encoded();
            assert(d1.len() == 8 && d2.len() == 8);
            assert((d1 + e1).len() == (d2 + e2).len());
            assert forall|j: int| 0 <= j < e1.len() implies e1[j] == e2[j] by {
                assert((d1 + e1)[8 + j] == e1[j]);
                assert((d2 + e2)[8 + j] == e2[j]);
            }
            assert(e1 =~= e2);
        },
    }
}

} // verus!
