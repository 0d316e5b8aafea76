//! Byte-string comparisons: a constant-time one for authentication tags,
//! and an ordinary one for names.

use vstd::prelude::*;

verus! {

/// Compare two byte strings of equal length without an early exit: the
/// difference of every byte pair is folded into an accumulator, and only the
/// accumulator is inspected.  Used for the authentication-tag checks, where
/// a data-dependent early exit would leak how many leading bytes matched.
pub fn constant_time_eq(a: &[u8], b: &[u8]) -> (r: bool)
    requires
        a@.len() == b@.len(),
    ensures
        r <==> a@ == b@,
{
    let n = a.len();
    let mut acc: u8 = 0;
    let mut i: usize = 0;
    while i < n
        invariant
            n == a@.len() == b@.len(),
            0 <= i <= n,
            acc == 0 <==> (forall|j: int| 0 <= j < i ==> a@[j] == b@[j]),
        decreases n - i,
    {
        let x = a[i];
        let y = b[i];
        let d = x ^ y;
        proof {
            assert((x ^ y) == 0 <==> x == y) by (bit_vector);
            let a0 = acc;
            assert((a0 | (x ^ y)) == 0 <==> a0 == 0 && (x ^ y) == 0) by (bit_vector);
        }
        acc = acc | d;
        i += 1;
    }
    proof {
        if acc == 0 {
            assert(a@ =~= b@);
        } else {
            assert(!(a@ =~= b@));
        }
    }
    acc == 0
}

/// Compare two byte strings of any lengths for equality.
pub fn bytes_eq(a: &[u8], b: &[u8]) -> (r: bool)
    ensures
        r <==> a@ == b@,
{
    if a.len() != b.len() {
        proof {
            assert(a@ != b@);
        }
        false
    } else {
        constant_time_eq(a, b)
    }
}

} // verus!
