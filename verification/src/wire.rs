//! Helpers for laying out fixed-size wire structures.

use vstd::prelude::*;

verus! {

/// Writes `src` into `buf` from offset `at` on and leaves the rest of
/// `buf` as it is.
pub fn put<const N: usize>(buf: &mut [u8; N], at: usize, src: &[u8])
    requires
        at + src@.len() <= N,
    ensures
        final(buf)@ == old(buf)@.subrange(0, at as int) + src@ + old(buf)@.subrange(
            at + src@.len(),
            N as int,
        ),
{
    let n = src.len();
    let mut i: usize = 0;
    while i < n
        invariant
            n == src@.len(),
            at + n <= N,
            i <= n,
            forall|j: int| 0 <= j < at ==> buf@[j] == old(buf)@[j],
            forall|j: int| at <= j < at + i ==> buf@[j] == src@[j - at],
            forall|j: int| at + i <= j < N ==> buf@[j] == old(buf)@[j],
        decreases n - i,
    {
        buf[at + i] = src[i];
        i += 1;
    }
    assert(buf@ =~= old(buf)@.subrange(0, at as int) + src@ + old(buf)@.subrange(
        at + src@.len(),
        N as int,
    ));
}

} // verus!
