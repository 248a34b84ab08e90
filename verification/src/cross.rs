//! Products that compare two fractions without dividing.

use vstd::prelude::*;

verus! {

/// `x * y`, which always fits.
pub fn cross_product(x: i64, y: i64) -> (p: i128)
    ensures
        p == x * y,
{
    assert(-0x4000_0000_0000_0000_0000_0000_0000_0000 <= x * y
        <= 0x4000_0000_0000_0000_0000_0000_0000_0000) by (nonlinear_arith)
        requires
            -0x8000_0000_0000_0000 <= x <= 0x7fff_ffff_ffff_ffff,
            -0x8000_0000_0000_0000 <= y <= 0x7fff_ffff_ffff_ffff,
    ;
    (x as i128) * (y as i128)
}

} // verus!
