//! Small verified helpers on byte buffers shared by the codecs.

use vstd::prelude::*;

verus! {

/// The all-zero byte string of length `n`.
pub open spec fn zeros(n: nat) -> Seq<u8> {
    Seq::new(n, |i: int| 0u8)
}

/// A fresh all-zero array.
pub fn zero_array<const N: usize>() -> (r: [u8; N])
    ensures
        r@ == zeros(N as nat),
{
    let mut r = [0u8; N];
    let mut i: usize = 0;
    while i < N
        invariant
            0 <= i <= N,
            r@.len() == N,
            forall|k: int| 0 <= k < i ==> r@[k] == 0u8,
        decreases N - i,
    {
        r[i] = 0;
        i += 1;
    }
    proof {
        assert(r@ =~= zeros(N as nat));
    }
    r
}

/// Appends every byte of `src` to `dst`.
pub fn push_bytes(dst: &mut Vec<u8>, src: &[u8])
    ensures
        final(dst)@ == old(dst)@ + src@,
{
    let ghost orig = dst@;
    let mut i: usize = 0;
    while i < src.len()
        invariant
            0 <= i <= src@.len(),
            dst@ == orig + src@.subrange(0, i as int),
        decreases src@.len() - i,
    {
        dst.push(src[i]);
        i += 1;
        proof {
            assert(dst@ =~= orig + src@.subrange(0, i as int));
        }
    }
    proof {
        assert(src@.subrange(0, src@.len() as int) =~= src@);
    }
}

/// Copies `N` bytes of `src` starting at `off` into a fresh array.
pub fn read_array<const N: usize>(src: &[u8], off: usize) -> (r: [u8; N])
    requires
        off + N <= src@.len(),
    ensures
        r@ == src@.subrange(off as int, off + N as int),
{
    let n = src.len();
    let mut r = [0u8; N];
    let mut i: usize = 0;
    while i < N
        invariant
            off + N <= n <= usize::MAX,
            n == src@.len(),
            0 <= i <= N,
            r@.len() == N,
            forall|k: int| 0 <= k < i ==> r@[k] == src@[off + k],
        decreases N - i,
    {
        r[i] = src[off + i];
        i += 1;
    }
    proof {
        assert(r@ =~= src@.subrange(off as int, off + N as int));
    }
    r
}

/// Compares two byte strings without leaving the loop early: the mismatch
/// accumulator is folded over every position, so the time taken does not
/// reveal where the first difference sits.
pub fn bytes_eq(a: &[u8], b: &[u8]) -> (r: bool)
    ensures
        r == (a@ == b@),
{
    if a.len() != b.len() {
        return false;
    }
    let mut acc: u8 = 0;
    let mut i: usize = 0;
    while i < a.len()
        invariant
            a@.len() == b@.len(),
            0 <= i <= a@.len(),
            (acc == 0) <==> (forall|k: int| 0 <= k < i ==> a@[k] == b@[k]),
        decreases a@.len() - i,
    {
        let x = a[i];
        let y = b[i];
        let ghost acc0 = acc;
        proof {
            assert(((acc0 | (x ^ y)) == 0) <==> (acc0 == 0 && x == y)) by (bit_vector);
        }
        acc = acc | (x ^ y);
        i += 1;
    }
    if acc == 0 {
        proof {
            assert(a@ =~= b@);
        }
        true
    } else {
        false
    }
}

/// Returns the bytes of `src` in the opposite order.
pub fn reversed(src: &[u8]) -> (out: Vec<u8>)
    ensures
        out@ == src@.reverse(),
{
    let mut out: Vec<u8> = Vec::new();
    let mut i: usize = 0;
    while i < src.len()
        invariant
            0 <= i <= src@.len(),
            out@.len() == i,
            forall|k: int| 0 <= k < i ==> out@[k] == src@[src@.len() - 1 - k],
        decreases src@.len() - i,
    {
        out.push(src[src.len() - 1 - i]);
        i += 1;
    }
    proof {
        assert(out@ =~= src@.reverse());
    }
    out
}

} // verus!
