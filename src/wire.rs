//! Fixed-width big-endian fields.
use vstd::prelude::*;

verus! {

/// The big-endian 16-bit value of the two bytes at `i`.
pub open spec fn be16(b: Seq<u8>, i: int) -> u16 {
    ((b[i] as int) * 256 + (b[i + 1] as int)) as u16
}

/// The big-endian 24-bit value of the three bytes at `i`.
pub open spec fn be24(b: Seq<u8>, i: int) -> u32 {
    ((b[i] as int) * 65536 + (b[i + 1] as int) * 256 + (b[i + 2] as int)) as u32
}

/// Reads the big-endian 16-bit field at `i`.
pub fn read_u16(bytes: &[u8], i: usize) -> (r: u16)
    requires
        i + 2 <= bytes@.len(),
    ensures
        r == be16(bytes@, i as int),
{
    let hi = bytes[i] as u16;
    let lo = bytes[i + 1] as u16;
    hi * 256 + lo
}

/// Reads the big-endian 24-bit field at `i`.
pub fn read_u24(bytes: &[u8], i: usize) -> (r: u32)
    requires
        i + 3 <= bytes@.len(),
    ensures
        r == be24(bytes@, i as int),
{
    let hi = bytes[i] as u32;
    let mid = bytes[i + 1] as u32;
    let lo = bytes[i + 2] as u32;
    hi * 65536 + mid * 256 + lo
}

/// Copies the `N` bytes at `start` into a fixed-width array.
pub fn copy_array<const N: usize>(bytes: &[u8], start: usize) -> (r: [u8; N])
    requires
        start + N <= bytes@.len(),
    ensures
        r@ == bytes@.subrange(start as int, start + N),
{
    let mut a: [u8; N] = [0u8; N];
    let mut i: usize = 0;
    while i < N
        invariant
            i <= N,
            start + N <= bytes.len(),
            forall|j: int| 0 <= j < i ==> a@[j] == bytes@[start + j],
        decreases N - i,
    {
        a[i] = bytes[start + i];
        i = i + 1;
    }
    assert(a@ =~= bytes@.subrange(start as int, start + N));
    a
}

} // verus!
