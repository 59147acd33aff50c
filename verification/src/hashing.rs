//! Hash functions and byte representations that come from outside crates
//! and the standard library.

use vstd::prelude::*;
use vstd::endian::{endianness, Endian};
use xxhash_rust::xxh64::Xxh64;

verus! {

/// The little-endian bytes of a `u16`.
pub open spec fn u16_le(x: u16) -> Seq<u8> {
    seq![(x % 256) as u8, (x / 256) as u8]
}

/// The little-endian bytes of a `u32`.
pub open spec fn u32_le(x: u32) -> Seq<u8> {
    seq![(x % 256) as u8, ((x / 256) % 256) as u8, ((x / 65536) % 256) as u8, (x / 16777216) as u8]
}

/// The little-endian bytes of a `u64`.
pub open spec fn u64_le(x: u64) -> Seq<u8> {
    Seq::new(8, |i: int| ((x as int / pow256(i)) % 256) as u8)
}

/// `256` to the power `i`.
pub open spec fn pow256(i: int) -> int
    decreases i,
{
    if i <= 0 {
        1
    } else {
        256 * pow256(i - 1)
    }
}

/// The bytes of a number in the machine's byte order, given its
/// little-endian bytes: the same order on every call, little- or big-endian
/// as the machine is.
pub open spec fn native_bytes(le: Seq<u8>) -> Seq<u8> {
    match endianness() {
        Endian::Little => le,
        Endian::Big => le.reverse(),
    }
}

/// `u16::to_ne_bytes`: the bytes of the number in the machine's byte order.
#[verifier::external_body]
pub(crate) fn u16_ne_bytes(x: u16) -> (r: [u8; 2])
    ensures
        r@ == native_bytes(u16_le(x)),
{
    x.to_ne_bytes()
}

/// `u64::to_ne_bytes`: the bytes of the number in the machine's byte order.
#[verifier::external_body]
pub(crate) fn u64_ne_bytes(x: u64) -> (r: [u8; 8])
    ensures
        r@ == native_bytes(u64_le(x)),
{
    x.to_ne_bytes()
}

/// The `u32`s of `words` laid out one after the other, each in the machine's
/// byte order.
pub open spec fn native_words(words: Seq<u32>) -> Seq<u8>
    decreases words.len(),
{
    if words.len() == 0 {
        Seq::empty()
    } else {
        native_words(words.drop_last()) + native_bytes(u32_le(words.last()))
    }
}

/// `bytemuck::cast_slice::<u32, u8>`: the same memory seen as bytes, four per
/// word in the machine's byte order. It cannot fail for this pair of types
/// (`u8` has alignment one and its size divides that of `u32`).
#[verifier::external_body]
pub(crate) fn u32s_as_bytes(words: &[u32]) -> (r: &[u8])
    ensures
        r@ == native_words(words@),
{
    bytemuck::cast_slice::<u32, u8>(words)
}

/// The wyhash (version 1) of `data` with `seed`.
pub uninterp spec fn spec_wyhash(data: Seq<u8>, seed: u64) -> u64;

/// `wyhash::wyhash`: the wyhash of the bytes with the seed, a function of the
/// two alone.
#[verifier::external_body]
pub(crate) fn wyhash_bytes(data: &[u8], seed: u64) -> (r: u64)
    ensures
        r == spec_wyhash(data@, seed),
{
    wyhash::wyhash(data, seed)
}

#[verifier::external_type_specification]
#[verifier::external_body]
pub struct ExXxh64(Xxh64);

/// The bytes fed to a streaming XXH64 state so far.
pub uninterp spec fn xxh64_fed(h: Xxh64) -> Seq<u8>;

/// The seed that a streaming XXH64 state was made with.
pub uninterp spec fn xxh64_seed(h: Xxh64) -> u64;

/// The XXH64 digest of `data` with `seed`.
pub uninterp spec fn spec_xxh64(data: Seq<u8>, seed: u64) -> u64;

/// `Xxh64::new`: a state that has been fed nothing.
#[verifier::external_body]
pub(crate) fn xxh64_new(seed: u64) -> (r: Xxh64)
    ensures
        xxh64_fed(r) == Seq::<u8>::empty(),
        xxh64_seed(r) == seed,
{
    Xxh64::new(seed)
}

/// `Xxh64::update`: feeds more bytes.
#[verifier::external_body]
pub(crate) fn xxh64_update(h: &mut Xxh64, input: &[u8])
    ensures
        xxh64_fed(*final(h)) == xxh64_fed(*old(h)) + input@,
        xxh64_seed(*final(h)) == xxh64_seed(*old(h)),
{
    h.update(input)
}

/// `Xxh64::digest`: the XXH64 of everything fed so far, with the seed; the
/// state is left as it was.
#[verifier::external_body]
pub(crate) fn xxh64_digest(h: &Xxh64) -> (r: u64)
    ensures
        r == spec_xxh64(xxh64_fed(*h), xxh64_seed(*h)),
{
    h.digest()
}

} // verus!
