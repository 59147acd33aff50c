//! Basic utilities for working with memory and objects.

use vstd::prelude::*;

verus! {

/// The allocator could not provide the memory that was asked for.
#[derive(Clone, Copy, Debug, PartialEq, Eq, Structural)]
pub struct AllocError;

/// A bump arena handle. Values in this library live on the global heap, so
/// the handle carries no state; it marks the calls that take an arena.
#[derive(Clone, Copy, Debug, PartialEq, Eq, Structural)]
pub struct Arena;

/// Moves `value` to the heap.
pub fn create<T>(value: T) -> (r: Result<Box<T>, AllocError>)
    ensures
        r matches Ok(b) && *b == value,
{
    Ok(Box::new(value))
}

/// Releases a heap value.
pub fn destroy<T>(ptr: Box<T>) {
    drop_box(ptr);
}

fn drop_box<T>(_ptr: Box<T>) {
}

/// Builds the default value of `T`.
pub fn init_default<T: Default>() -> (r: T)
    ensures
        call_ensures(T::default, (), r),
{
    T::default()
}

/// Rebases a slice from one memory buffer to another one.
///
/// The slice starts at address `slice_start` inside a buffer whose base
/// address is `old_base`; the result is the slice at the same offset and of
/// the same length inside `new_base`.
pub fn rebase_slice<'a>(slice_start: usize, slice_len: usize, old_base: usize, new_base: &'a [u8]) -> (r: &'a [u8])
    requires
        old_base <= slice_start,
        slice_start - old_base + slice_len <= new_base@.len(),
    ensures
        r@ == new_base@.subrange(slice_start - old_base, slice_start - old_base + slice_len),
{
    let offset = slice_start - old_base;
    let n = new_base.len();
    assert(offset + slice_len <= n);
    &new_base[offset..offset + slice_len]
}

/// Turns a vector into a boxed slice holding the same bytes.
#[verifier::external_body]
fn vec_into_boxed_slice(v: Vec<u8>) -> (b: Box<[u8]>)
    ensures
        b@ == v@,
{
    v.into_boxed_slice()
}

/// Drops the NUL terminator at the end of `buf`.
pub fn drop_sentinel(buf: Vec<u8>) -> (r: Result<Box<[u8]>, AllocError>)
    requires
        buf@.len() > 0,
        buf@.last() == 0,
    ensures
        r matches Ok(b) && b@ == buf@.drop_last(),
{
    let mut buf = buf;
    buf.pop();
    Ok(vec_into_boxed_slice(buf))
}

} // verus!
