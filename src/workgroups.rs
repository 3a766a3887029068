use vstd::prelude::*;

verus! {

/// A power of two, in the form the bit-smearing algorithm below works with:
/// non-zero, with a single bit set.
pub open spec fn is_power_of_two(x: u32) -> bool {
    x != 0 && x & ((x - 1) as u32) == 0
}

/// Rounds `n` up to the nearest power of two (a power of two stays as it is).
///
/// The result is the unique power of two in `[n, 2n)`.
pub fn next_power_of_two(n: u32) -> (r: u32)
    requires
        1 <= n <= 0x8000_0000,
    ensures
        is_power_of_two(r),
        n <= r,
        r < 2 * n,
{
    let x0: u32 = n - 1;
    let x1: u32 = x0 | (x0 >> 1u32);
    let x2: u32 = x1 | (x1 >> 2u32);
    let x3: u32 = x2 | (x2 >> 4u32);
    let x4: u32 = x3 | (x3 >> 8u32);
    let x5: u32 = x4 | (x4 >> 16u32);
    assert(x5 < 0xffff_ffff && n <= x5 + 1 && x5 + 1 < 2 * n && ((x5 + 1) as u32) & x5 == 0)
        by (bit_vector)
        requires
            1 <= n <= 0x8000_0000,
            x0 == n - 1,
            x1 == x0 | (x0 >> 1u32),
            x2 == x1 | (x1 >> 2u32),
            x3 == x2 | (x2 >> 4u32),
            x4 == x3 | (x3 >> 8u32),
            x5 == x4 | (x4 >> 16u32),
    ;
    x5 + 1
}

} // verus!
