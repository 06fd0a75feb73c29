//! The cache-summary digest: a compact, mergeable set-membership digest over
//! byte strings, with which a node advertises the content it holds.
//!
//! The digest is a classic Bloom filter of `SUMMARY_BITS` bits. A key sets
//! `SUMMARY_HASHES` slots, derived from two 64-bit folds of its bytes. Asking
//! for a key that was inserted always answers yes; asking for another key may
//! answer yes as well.

use vstd::prelude::*;

use crate::ident::copy_bytes;

verus! {

/// Number of bytes of a digest, in memory and on the wire.
pub const SUMMARY_BYTES: usize = 1024;

/// Number of bits of a digest.
pub const SUMMARY_BITS: u64 = 8192;

/// Number of slots that one key sets.
pub const SUMMARY_HASHES: u64 = 4;

/// Multiplier of the byte fold.
pub const FOLD_PRIME: u64 = 0x100000001b3;

/// Start value of the first fold.
pub const FOLD_BASIS_ONE: u64 = 0xcbf29ce484222325;

/// Start value of the second fold.
pub const FOLD_BASIS_TWO: u64 = 0x84222325cbf29ce5;

/// One step of the fold: mix a byte into the running value.
pub open spec fn fold_step(h: u64, b: u8) -> u64 {
    (h ^ (b as u64)).wrapping_mul(FOLD_PRIME)
}

/// The fold of all bytes of `key`, first byte first, started from `basis`.
pub open spec fn fold_bytes(basis: u64, key: Seq<u8>) -> u64
    decreases key.len(),
{
    if key.len() == 0 {
        basis
    } else {
        fold_step(fold_bytes(basis, key.drop_last()), key.last())
    }
}

/// The `j`-th slot of `key`: a bit position below `SUMMARY_BITS`.
pub open spec fn summary_slot(key: Seq<u8>, j: int) -> int {
    let h1 = fold_bytes(FOLD_BASIS_ONE, key);
    let h2 = fold_bytes(FOLD_BASIS_TWO, key);
    (h1.wrapping_add((j as u64).wrapping_mul(h2)) % SUMMARY_BITS) as int
}

/// Whether `i` is one of the slots of `key`.
pub open spec fn is_slot_of(key: Seq<u8>, i: int) -> bool {
    exists|j: int| 0 <= j < SUMMARY_HASHES && #[trigger] summary_slot(key, j) == i
}

/// The digest that holds nothing.
pub open spec fn empty_summary() -> Seq<bool> {
    Seq::new(SUMMARY_BITS as nat, |i: int| false)
}

/// What a digest answers for `key`: yes when every slot of the key is set.
pub open spec fn summary_holds(bits: Seq<bool>, key: Seq<u8>) -> bool {
    forall|j: int| 0 <= j < SUMMARY_HASHES ==> bits[#[trigger] summary_slot(key, j)]
}

/// The digest after `key` was inserted: its slots are set, nothing is cleared.
pub open spec fn summary_with(bits: Seq<bool>, key: Seq<u8>) -> Seq<bool> {
    Seq::new(bits.len(), |i: int| bits[i] || is_slot_of(key, i))
}

/// The digest that holds what either of two digests holds.
pub open spec fn summary_union(a: Seq<bool>, b: Seq<bool>) -> Seq<bool> {
    Seq::new(a.len(), |i: int| a[i] || b[i])
}

/// Bit `k` of a byte, lowest bit first.
pub open spec fn bit_of(b: u8, k: u8) -> bool {
    (b >> k) & 1u8 == 1u8
}

/// The bits that a packed byte string stands for.
pub open spec fn unpack_bits(bytes: Seq<u8>) -> Seq<bool> {
    Seq::new((bytes.len() * 8) as nat, |i: int| bit_of(bytes[i / 8], (i % 8) as u8))
}

proof fn lemma_set_bit(b: u8, k: u8, m: u8)
    requires
        k < 8,
        m < 8,
    ensures
        bit_of(b | (1u8 << k), m) == (bit_of(b, m) || m == k),
{
    assert(((b | (1u8 << k)) >> m) & 1u8 == 1u8 <==> ((b >> m) & 1u8 == 1u8 || m == k))
        by (bit_vector)
        requires
            k < 8,
            m < 8,
    ;
}

proof fn lemma_or_bit(a: u8, b: u8, m: u8)
    requires
        m < 8,
    ensures
        bit_of(a | b, m) == (bit_of(a, m) || bit_of(b, m)),
{
    assert(((a | b) >> m) & 1u8 == 1u8 <==> ((a >> m) & 1u8 == 1u8 || (b >> m) & 1u8 == 1u8))
        by (bit_vector)
        requires
            m < 8,
    ;
}

proof fn lemma_zero_bit(m: u8)
    requires
        m < 8,
    ensures
        !bit_of(0u8, m),
{
    assert(!((0u8 >> m) & 1u8 == 1u8)) by (bit_vector)
        requires
            m < 8,
    ;
}

/// The fold of `key` started from `basis`.
pub fn fold_key(basis: u64, key: &[u8]) -> (h: u64)
    ensures
        h == fold_bytes(basis, key@),
{
    let mut h: u64 = basis;
    let mut i: usize = 0;
    while i < key.len()
        invariant
            i <= key.len(),
            h == fold_bytes(basis, key@.subrange(0, i as int)),
        decreases key.len() - i,
    {
        proof {
            let next = key@.subrange(0, i + 1);
            assert(next.drop_last() =~= key@.subrange(0, i as int));
            assert(next.last() == key@[i as int]);
        }
        h = (h ^ (key[i] as u64)).wrapping_mul(FOLD_PRIME);
        i += 1;
    }
    assert(key@.subrange(0, key.len() as int) =~= key@);
    h
}

/// Approximate set of the content identifiers that a node holds.
#[derive(Debug, PartialEq, Eq)]
pub struct CacheSummary {
    bits: Vec<u8>,
}

impl View for CacheSummary {
    type V = Seq<bool>;

    closed spec fn view(&self) -> Seq<bool> {
        unpack_bits(self.bits@)
    }
}

impl CacheSummary {
    /// Every digest has the full width.
    #[verifier::type_invariant]
    spec fn full_width(&self) -> bool {
        self.bits@.len() == SUMMARY_BYTES
    }

    /// The digest that holds nothing.
    pub fn new() -> (summary: CacheSummary)
        ensures
            summary@ == empty_summary(),
    {
        let mut bits: Vec<u8> = Vec::new();
        let mut i: usize = 0;
        while i < SUMMARY_BYTES
            invariant
                i <= SUMMARY_BYTES,
                bits@.len() == i,
                forall|k: int| 0 <= k < i ==> bits@[k] == 0u8,
            decreases SUMMARY_BYTES - i,
        {
            bits.push(0u8);
            i += 1;
        }
        let summary = CacheSummary { bits };
        proof {
            assert forall|i: int| 0 <= i < SUMMARY_BITS implies !(#[trigger] summary@[i]) by {
                lemma_zero_bit((i % 8) as u8);
            }
            assert(summary@ =~= empty_summary());
        }
        summary
    }

    /// Inserts `key`. Nothing that the digest held is lost.
    pub fn insert(&mut self, key: &[u8])
        ensures
            final(self)@ == summary_with(old(self)@, key@),
    {
        proof {
            use_type_invariant(&*self);
        }
        let h1: u64 = fold_key(FOLD_BASIS_ONE, key);
        let h2: u64 = fold_key(FOLD_BASIS_TWO, key);
        let ghost before = self.bits@;
        let mut bits: Vec<u8> = copy_bytes(self.bits.as_slice());
        let mut j: u64 = 0;
        while j < SUMMARY_HASHES
            invariant
                j <= SUMMARY_HASHES,
                h1 == fold_bytes(FOLD_BASIS_ONE, key@),
                h2 == fold_bytes(FOLD_BASIS_TWO, key@),
                before.len() == SUMMARY_BYTES,
                bits@.len() == SUMMARY_BYTES,
                forall|i: int|
                    0 <= i < SUMMARY_BITS ==> (#[trigger] unpack_bits(bits@)[i]) == (
                    unpack_bits(before)[i] || exists|t: int|
                        0 <= t < j && #[trigger] summary_slot(key@, t) == i),
            decreases SUMMARY_HASHES - j,
        {
            let slot: u64 = h1.wrapping_add(j.wrapping_mul(h2)) % SUMMARY_BITS;
            let index: usize = (slot / 8) as usize;
            let k: u8 = (slot % 8) as u8;
            let ghost prior = bits@;
            let byte: u8 = bits[index];
            bits.set(index, byte | (1u8 << k));
            proof {
                assert(slot as int == summary_slot(key@, j as int));
                assert forall|i: int| 0 <= i < SUMMARY_BITS implies (#[trigger] unpack_bits(
                    bits@,
                )[i]) == (unpack_bits(before)[i] || exists|t: int|
                    0 <= t < j + 1 && #[trigger] summary_slot(key@, t) == i) by {
                    if i / 8 == index as int {
                        lemma_set_bit(byte, k, (i % 8) as u8);
                    }
                    if i == slot as int {
                        assert(summary_slot(key@, j as int) == i);
                    }
                    assert(unpack_bits(prior)[i] == (unpack_bits(before)[i] || exists|t: int|
                        0 <= t < j && #[trigger] summary_slot(key@, t) == i));
                }
            }
            j += 1;
        }
        self.bits = bits;
        proof {
            assert forall|i: int| 0 <= i < SUMMARY_BITS implies (#[trigger] self@[i])
                == summary_with(unpack_bits(before), key@)[i] by {
                assert(unpack_bits(bits@)[i] == (unpack_bits(before)[i] || exists|t: int|
                    0 <= t < SUMMARY_HASHES && #[trigger] summary_slot(key@, t) == i));
            }
            assert(self@ =~= summary_with(unpack_bits(before), key@));
        }
    }

    /// The digest has `SUMMARY_BITS` bits.
    pub fn width(&self) -> (bits: u64)
        ensures
            bits == SUMMARY_BITS,
            self@.len() == SUMMARY_BITS,
    {
        proof {
            use_type_invariant(self);
        }
        SUMMARY_BITS
    }

    /// Whether the digest answers yes for `key`.
    pub fn contains(&self, key: &[u8]) -> (held: bool)
        ensures
            held == summary_holds(self@, key@),
    {
        proof {
            use_type_invariant(self);
        }
        let h1: u64 = fold_key(FOLD_BASIS_ONE, key);
        let h2: u64 = fold_key(FOLD_BASIS_TWO, key);
        let mut j: u64 = 0;
        while j < SUMMARY_HASHES
            invariant
                j <= SUMMARY_HASHES,
                h1 == fold_bytes(FOLD_BASIS_ONE, key@),
                h2 == fold_bytes(FOLD_BASIS_TWO, key@),
                self.bits@.len() == SUMMARY_BYTES,
                forall|t: int| 0 <= t < j ==> self@[#[trigger] summary_slot(key@, t)],
            decreases SUMMARY_HASHES - j,
        {
            let slot: u64 = h1.wrapping_add(j.wrapping_mul(h2)) % SUMMARY_BITS;
            let index: usize = (slot / 8) as usize;
            let k: u8 = (slot % 8) as u8;
            let byte: u8 = self.bits[index];
            proof {
                assert(slot as int == summary_slot(key@, j as int));
                assert(self@[slot as int] == bit_of(byte, k));
            }
            if (byte >> k) & 1u8 != 1u8 {
                return false;
            }
            j += 1;
        }
        true
    }

    /// Takes in everything that `other` holds.
    pub fn merge(&mut self, other: &CacheSummary)
        ensures
            final(self)@ == summary_union(old(self)@, other@),
    {
        proof {
            use_type_invariant(&*self);
            use_type_invariant(other);
        }
        let ghost before = self.bits@;
        let mut bits: Vec<u8> = copy_bytes(self.bits.as_slice());
        let mut i: usize = 0;
        while i < SUMMARY_BYTES
            invariant
                i <= SUMMARY_BYTES,
                before.len() == SUMMARY_BYTES,
                bits@.len() == SUMMARY_BYTES,
                other.bits@.len() == SUMMARY_BYTES,
                forall|n: int| 0 <= n < i ==> bits@[n] == before[n] | other.bits@[n],
                forall|n: int| i <= n < SUMMARY_BYTES ==> bits@[n] == before[n],
            decreases SUMMARY_BYTES - i,
        {
            let merged: u8 = bits[i] | other.bits[i];
            bits.set(i, merged);
            i += 1;
        }
        self.bits = bits;
        proof {
            assert forall|b: int| 0 <= b < SUMMARY_BITS implies (#[trigger] self@[b])
                == summary_union(unpack_bits(before), other@)[b] by {
                lemma_or_bit(before[b / 8], other.bits@[b / 8], (b % 8) as u8);
            }
            assert(self@ =~= summary_union(unpack_bits(before), other@));
        }
    }

    /// Forgets everything.
    pub fn clear(&mut self)
        ensures
            final(self)@ == empty_summary(),
    {
        *self = CacheSummary::new();
    }

    /// The wire form: the packed bits, `SUMMARY_BYTES` bytes.
    pub fn to_bytes(&self) -> (wire: Vec<u8>)
        ensures
            wire@.len() == SUMMARY_BYTES,
            unpack_bits(wire@) == self@,
    {
        proof {
            use_type_invariant(self);
        }
        copy_bytes(self.bits.as_slice())
    }

    /// Reads the wire form. Anything of another length is no digest.
    pub fn from_bytes(wire: &[u8]) -> (parsed: Option<CacheSummary>)
        ensures
            parsed is Some <==> wire@.len() == SUMMARY_BYTES,
            parsed matches Some(summary) ==> summary@ == unpack_bits(wire@),
    {
        if wire.len() == SUMMARY_BYTES {
            Some(CacheSummary { bits: copy_bytes(wire) })
        } else {
            None
        }
    }
}

impl Clone for CacheSummary {
    fn clone(&self) -> (copy: CacheSummary)
        ensures
            copy@ == self@,
    {
        proof {
            use_type_invariant(self);
        }
        CacheSummary { bits: copy_bytes(self.bits.as_slice()) }
    }
}

} // verus!
