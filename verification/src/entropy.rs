//! The one source of randomness of the discrete-log engine and of the nonces.

use vstd::prelude::*;

verus! {

/// `rand::random` for a `u64`: a fresh random value, of which nothing is
/// known beforehand.
#[verifier::external_body]
pub(crate) fn random_u64() -> u64 {
    rand::random::<u64>()
}

/// `count` fresh random bytes, eight from each 64-bit draw.
pub(crate) fn random_bytes(count: usize) -> (r: Vec<u8>)
    ensures
        r@.len() == count,
{
    let mut r: Vec<u8> = Vec::new();
    while r.len() < count
        invariant
            r@.len() <= count,
        decreases count - r@.len(),
    {
        let ghost before = r@.len();
        let mut word: u64 = random_u64();
        r.push((word % 256) as u8);
        let mut taken: usize = 1;
        while taken < 8 && r.len() < count
            invariant
                taken <= 8,
                before < r@.len() <= count,
            decreases 8 - taken,
        {
            word = word / 256;
            r.push((word % 256) as u8);
            taken += 1;
        }
    }
    r
}

} // verus!
