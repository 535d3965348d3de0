//! Fixed-width little-endian byte codec for the values a module stores and for
//! the argument payloads of dispatchable operations.
//!
//! Every encoding is injective, which the storage layer relies on: two
//! distinct map keys always hash to two distinct physical byte keys.

use vstd::prelude::*;

verus! {

/// A value that can be written to and read back from the byte-oriented
/// backing store. `decoded` is total over byte strings: a byte string that is
/// not the encoding of any value decodes to `None`.
pub trait Codec: Sized {
    /// The byte string this value is stored as.
    spec fn encoded(self) -> Seq<u8>;

    /// The value a byte string decodes to, if any.
    spec fn decoded(bytes: Seq<u8>) -> Option<Self>;

    /// Decoding inverts encoding, so a stored value is read back exactly.
    proof fn lemma_round_trip(self)
        ensures
            Self::decoded(self.encoded()) == Some(self),
    ;

    fn encode(&self) -> (r: Vec<u8>)
        ensures
            r@ == self.encoded(),
    ;

    fn decode(bytes: &[u8]) -> (r: Option<Self>)
        ensures
            r == Self::decoded(bytes@),
    ;
}

impl Codec for u32 {
    open spec fn encoded(self) -> Seq<u8> {
        seq![
            self as u8,
            (self >> 8) as u8,
            (self >> 16) as u8,
            (self >> 24) as u8,
        ]
    }

    open spec fn decoded(bytes: Seq<u8>) -> Option<u32> {
        if bytes.len() == 4 {
            Some(
                (bytes[0] as u32) | ((bytes[1] as u32) << 8) | ((bytes[2] as u32) << 16) | ((
                bytes[3] as u32) << 24),
            )
        } else {
            None
        }
    }

    proof fn lemma_round_trip(self) {
        assert((self as u8 as u32) | ((self >> 8) as u8 as u32) << 8 | ((self >> 16) as u8 as u32)
            << 16 | ((self >> 24) as u8 as u32) << 24 == self) by (bit_vector);
    }

    fn encode(&self) -> (r: Vec<u8>) {
        let x = *self;
        vec![x as u8, (x >> 8) as u8, (x >> 16) as u8, (x >> 24) as u8]
    }

    fn decode(bytes: &[u8]) -> (r: Option<u32>) {
        if bytes.len() == 4 {
            Some(
                (bytes[0] as u32) | ((bytes[1] as u32) << 8) | ((bytes[2] as u32) << 16) | ((
                bytes[3] as u32) << 24),
            )
        } else {
            None
        }
    }
}

impl Codec for u64 {
    open spec fn encoded(self) -> Seq<u8> {
        seq![
            self as u8,
            (self >> 8) as u8,
            (self >> 16) as u8,
            (self >> 24) as u8,
            (self >> 32) as u8,
            (self >> 40) as u8,
            (self >> 48) as u8,
            (self >> 56) as u8,
        ]
    }

    open spec fn decoded(bytes: Seq<u8>) -> Option<u64> {
        if bytes.len() == 8 {
            Some(
                (bytes[0] as u64) | ((bytes[1] as u64) << 8) | ((bytes[2] as u64) << 16) | ((
                bytes[3] as u64) << 24) | ((bytes[4] as u64) << 32) | ((bytes[5] as u64) << 40) | ((
                bytes[6] as u64) << 48) | ((bytes[7] as u64) << 56),
            )
        } else {
            None
        }
    }

    proof fn lemma_round_trip(self) {
        assert((self as u8 as u64) | ((self >> 8) as u8 as u64) << 8 | ((self >> 16) as u8 as u64)
            << 16 | ((self >> 24) as u8 as u64) << 24 | ((self >> 32) as u8 as u64) << 32 | ((self
            >> 40) as u8 as u64) << 40 | ((self >> 48) as u8 as u64) << 48 | ((self >> 56) as u8
            as u64) << 56 == self) by (bit_vector);
    }

    fn encode(&self) -> (r: Vec<u8>) {
        let x = *self;
        vec![
            x as u8,
            (x >> 8) as u8,
            (x >> 16) as u8,
            (x >> 24) as u8,
            (x >> 32) as u8,
            (x >> 40) as u8,
            (x >> 48) as u8,
            (x >> 56) as u8,
        ]
    }

    fn decode(bytes: &[u8]) -> (r: Option<u64>) {
        if bytes.len() == 8 {
            Some(
                (bytes[0] as u64) | ((bytes[1] as u64) << 8) | ((bytes[2] as u64) << 16) | ((
                bytes[3] as u64) << 24) | ((bytes[4] as u64) << 32) | ((bytes[5] as u64) << 40) | ((
                bytes[6] as u64) << 48) | ((bytes[7] as u64) << 56),
            )
        } else {
            None
        }
    }
}

/// Two values with the same encoding are the same value: encodings are
/// injective, which keeps distinct logical items at distinct physical keys.
pub proof fn lemma_encoding_injective<V: Codec>(a: V, b: V)
    requires
        a.encoded() == b.encoded(),
    ensures
        a == b,
{
    a.lemma_round_trip();
    b.lemma_round_trip();
}

/// Compares two byte strings.
pub fn bytes_eq(a: &Vec<u8>, b: &Vec<u8>) -> (r: bool)
    ensures
        r <==> a@ == b@,
{
    if a.len() != b.len() {
        return false;
    }
    let mut i: usize = 0;
    while i < a.len()
        invariant
            a@.len() == b@.len(),
            0 <= i <= a@.len(),
            forall|j: int| 0 <= j < i ==> a@[j] == b@[j],
        decreases a@.len() - i,
    {
        if a[i] != b[i] {
            return false;
        }
        i = i + 1;
    }
    proof {
        assert(a@ =~= b@);
    }
    true
}

/// Copies a byte string.
pub fn bytes_clone(v: &Vec<u8>) -> (r: Vec<u8>)
    ensures
        r@ == v@,
{
    let mut r: Vec<u8> = Vec::new();
    let mut i: usize = 0;
    while i < v.len()
        invariant
            0 <= i <= v@.len(),
            r@ == v@.subrange(0, i as int),
        decreases v@.len() - i,
    {
        r.push(v[i]);
        proof {
            assert(r@ =~= v@.subrange(0, i as int + 1));
        }
        i = i + 1;
    }
    proof {
        assert(v@.subrange(0, v@.len() as int) =~= v@);
    }
    r
}

} // verus!
