//! Small executable helpers on byte strings that the other modules share.

use vstd::prelude::*;

verus! {

/// Byte-string equality that inspects every position of both inputs.
///
/// Differences are folded into an accumulator with bitwise or, so a
/// mismatch found early does not cut the scan short: the number of
/// operations depends only on the lengths of the inputs, not on their
/// contents.
pub fn bytes_eq(a: &[u8], b: &[u8]) -> (r: bool)
    ensures
        r == (a@ == b@),
{
    let n: usize = if a.len() < b.len() {
        a.len()
    } else {
        b.len()
    };
    let mut diff: u8 = 0;
    let mut i: usize = 0;
    while i < n
        invariant
            n <= a@.len(),
            n <= b@.len(),
            i <= n,
            (diff == 0) == (forall|j: int| 0 <= j < i ==> a@[j] == b@[j]),
        decreases n - i,
    {
        let x = a[i];
        let y = b[i];
        let ghost prev = diff;
        diff = diff | (x ^ y);
        proof {
            assert((prev | (x ^ y)) == 0 <==> (prev == 0 && x == y)) by (bit_vector);
        }
        i += 1;
    }
    proof {
        if a@.len() == b@.len() && (forall|j: int| 0 <= j < n ==> a@[j] == b@[j]) {
            assert(a@ =~= b@);
        }
    }
    a.len() == b.len() && diff == 0
}

/// Appends every byte of `s` to `out`, in order.
pub fn append_bytes(out: &mut Vec<u8>, s: &[u8])
    ensures
        final(out)@ == old(out)@ + s@,
{
    let mut i: usize = 0;
    while i < s.len()
        invariant
            i <= s@.len(),
            out@ == old(out)@ + s@.take(i as int),
        decreases s@.len() - i,
    {
        out.push(s[i]);
        i += 1;
        assert(out@ =~= old(out)@ + s@.take(i as int));
    }
    assert(s@.take(s@.len() as int) =~= s@);
}

} // verus!
