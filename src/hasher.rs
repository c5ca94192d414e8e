use vstd::prelude::*;

use crate::crc::{crc32c, crc32c_mem, lemma_crc32c_concat};
use std::collections::{HashMap, HashSet};
use std::hash::BuildHasherDefault;

verus! {

/// A streaming hasher whose state is a running CRC-32C checksum.
///
/// The checksum has 32 bits; `finish` repeats them in both halves of its
/// 64-bit result, which adds no entropy. Not meant to resist deliberate
/// collisions.
pub struct Crc32cHasher {
    sum: u32,
}

impl View for Crc32cHasher {
    type V = u32;

    /// The running checksum.
    closed spec fn view(&self) -> u32 {
        self.sum
    }
}

/// The 64-bit hash reported for the checksum `sum`: `sum` in both halves.
pub open spec fn hash_of(sum: u32) -> u64 {
    ((sum as u64) << 32) | (sum as u64)
}

impl Default for Crc32cHasher {
    /// A hasher with the checksum 0, as for no input.
    fn default() -> (h: Crc32cHasher)
        ensures
            h@ == 0,
    {
        Crc32cHasher { sum: 0 }
    }
}

impl std::hash::Hasher for Crc32cHasher {
    fn finish(&self) -> (r: u64)
        ensures
            r == hash_of(self@),
    {
        let sum = self.sum as u64;
        (sum << 32) | sum
    }

    fn write(&mut self, bytes: &[u8])
        ensures
            final(self)@ == crc32c(old(self)@, bytes@),
    {
        self.sum = crc32c_mem(self.sum, bytes);
    }
}

/// Builds default `Crc32cHasher`s.
pub type Crc32cBuildHasher = BuildHasherDefault<Crc32cHasher>;

/// A `HashMap` that hashes its keys with `Crc32cHasher`.
pub type Crc32cHashMap<K, V> = HashMap<K, V, Crc32cBuildHasher>;

/// A `HashSet` that hashes its items with `Crc32cHasher`.
pub type Crc32cHashSet<T> = HashSet<T, Crc32cBuildHasher>;

/// Both halves of the reported hash hold the checksum.
pub proof fn lemma_hash_of_halves(sum: u32)
    ensures
        hash_of(sum) as u32 == sum,
        hash_of(sum) >> 32 == sum as u64,
{
    assert((((sum as u64) << 32) | (sum as u64)) as u32 == sum) by (bit_vector);
    assert((((sum as u64) << 32) | (sum as u64)) >> 32 == sum as u64) by (bit_vector);
}

/// Writing `a` and then `b` to a hasher leaves it in the state that writing
/// `a + b` at once does, and the hash it then reports holds the checksum of
/// what was written since its default state in its low 32 bits.
pub proof fn lemma_streaming(sum: u32, a: Seq<u8>, b: Seq<u8>)
    ensures
        crc32c(crc32c(sum, a), b) == crc32c(sum, a + b),
        hash_of(crc32c(crc32c(sum, a), b)) == hash_of(crc32c(sum, a + b)),
        hash_of(crc32c(crc32c(0, a), b)) as u32 == crc32c(0, a + b),
{
    lemma_crc32c_concat(sum, a, b);
    lemma_crc32c_concat(0, a, b);
    lemma_hash_of_halves(crc32c(0, a + b));
}

} // verus!
