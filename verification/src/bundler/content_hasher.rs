//! The hasher that names output files by their content.

use vstd::prelude::*;
use xxhash_rust::xxh64::Xxh64;
use crate::hashing::{
    native_bytes, native_words, spec_xxh64, u32s_as_bytes, u64_le, u64_ne_bytes, xxh64_digest, xxh64_fed, xxh64_new,
    xxh64_seed, xxh64_update,
};

verus! {

/// Hashes content with XXH64 (seed 0). Each written byte string is preceded
/// by its length, so that different splits of the same bytes hash differently.
pub struct ContentHasher {
    pub hasher: Xxh64,
}

/// The bytes that writing `bytes` feeds: their length as eight bytes in the
/// machine's byte order, then the bytes.
pub open spec fn length_prefixed(bytes: Seq<u8>) -> Seq<u8> {
    native_bytes(u64_le(bytes.len() as u64)) + bytes
}

/// The content hash of one byte string.
pub open spec fn spec_run(bytes: Seq<u8>) -> u64 {
    spec_xxh64(length_prefixed(bytes), 0)
}

impl ContentHasher {
    /// The bytes fed to the hash so far.
    pub open spec fn fed(&self) -> Seq<u8> {
        xxh64_fed(self.hasher)
    }

    /// Writes a byte string, preceded by its length as eight bytes in the
    /// machine's byte order.
    pub fn write(&mut self, bytes: &[u8])
        ensures
            final(self).fed() == old(self).fed() + length_prefixed(bytes@),
            xxh64_seed(final(self).hasher) == xxh64_seed(old(self).hasher),
    {
        let n = u64_ne_bytes(bytes.len() as u64);
        xxh64_update(&mut self.hasher, n.as_slice());
        xxh64_update(&mut self.hasher, bytes);
        assert(self.fed() =~= old(self).fed() + length_prefixed(bytes@));
    }

    /// The hash of one byte string.
    pub fn run(bytes: &[u8]) -> (r: u64)
        ensures
            r == spec_run(bytes@),
    {
        let mut h = ContentHasher::default();
        h.write(bytes);
        assert(h.fed() =~= length_prefixed(bytes@));
        h.digest()
    }

    /// Writes a list of `u32`s as their bytes in the machine's byte order,
    /// with no length before them.
    pub fn write_ints(&mut self, i: &[u32])
        ensures
            final(self).fed() == old(self).fed() + native_words(i@),
            xxh64_seed(final(self).hasher) == xxh64_seed(old(self).hasher),
    {
        let b = u32s_as_bytes(i);
        xxh64_update(&mut self.hasher, b);
    }

    /// The hash of everything written so far.
    pub fn digest(&self) -> (r: u64)
        ensures
            r == spec_xxh64(self.fed(), xxh64_seed(self.hasher)),
    {
        xxh64_digest(&self.hasher)
    }
}

/// Hashing one byte string is writing it to a fresh hasher and taking the
/// digest: a fresh hasher fed with one write holds exactly the
/// length-prefixed bytes, under seed zero.
pub proof fn lemma_run_is_write_then_digest(bytes: Seq<u8>)
    ensures
        spec_xxh64(Seq::<u8>::empty() + length_prefixed(bytes), 0) == spec_run(bytes),
{
    assert(Seq::<u8>::empty() + length_prefixed(bytes) =~= length_prefixed(bytes));
}

impl Default for ContentHasher {
    fn default() -> (r: Self)
        ensures
            r.fed() == Seq::<u8>::empty(),
            xxh64_seed(r.hasher) == 0,
    {
        ContentHasher { hasher: xxh64_new(0) }
    }
}

} // verus!
