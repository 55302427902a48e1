//! Byte-string helpers: concatenation, slicing and constant-time comparison.

use vstd::prelude::*;

verus! {

/// Appends `tail` to `out`.
pub fn append_bytes(out: &mut Vec<u8>, tail: &[u8])
    ensures
        final(out)@ == old(out)@ + tail@,
{
    let mut i: usize = 0;
    while i < tail.len()
        invariant
            0 <= i <= tail@.len(),
            out@ == old(out)@ + tail@.subrange(0, i as int),
        decreases tail@.len() - i,
    {
        out.push(tail[i]);
        proof {
            assert(tail@.subrange(0, i + 1) == tail@.subrange(0, i as int).push(tail@[i as int]));
        }
        i = i + 1;
    }
    proof {
        assert(tail@.subrange(0, tail@.len() as int) == tail@);
    }
}

/// The 32 bytes of `b` from `start` on.
pub fn take_32(b: &[u8], start: usize) -> (r: [u8; 32])
    requires
        start + 32 <= b@.len(),
    ensures
        r@ == b@.subrange(start as int, start + 32),
{
    let n: usize = b.len();
    let mut out = [0u8; 32];
    let mut i: usize = 0;
    while i < 32
        invariant
            0 <= i <= 32,
            n == b@.len(),
            start + 32 <= n,
            out@.len() == 32,
            forall|j: int| 0 <= j < i ==> out@[j] == b@[start + j],
        decreases 32 - i,
    {
        out[i] = b[start + i];
        i = i + 1;
    }
    proof {
        assert(out@ == b@.subrange(start as int, start + 32));
    }
    out
}

/// Compares two 32-byte strings without stopping at the first difference:
/// every byte pair is read, whatever the contents.
pub fn ct_eq(a: &[u8; 32], b: &[u8; 32]) -> (r: bool)
    ensures
        r == (a@ == b@),
{
    let mut diff: u8 = 0;
    let mut i: usize = 0;
    while i < 32
        invariant
            0 <= i <= 32,
            (diff == 0) <==> (forall|j: int| 0 <= j < i ==> a@[j] == b@[j]),
        decreases 32 - i,
    {
        let x = a[i];
        let y = b[i];
        let next = diff | (x ^ y);
        proof {
            assert((next == 0) <==> (diff == 0 && x == y)) by (bit_vector)
                requires
                    next == diff | (x ^ y),
            ;
            if next == 0 {
                assert forall|j: int| 0 <= j < i + 1 implies a@[j] == b@[j] by {
                    if j < i {
                    } else {
                        assert(j == i);
                    }
                }
            }
        }
        diff = next;
        i = i + 1;
    }
    proof {
        if diff == 0 {
            assert(a@ == b@);
        }
    }
    diff == 0
}

} // verus!
