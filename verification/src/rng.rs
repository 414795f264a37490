//! The one source of chance in the simulation: a bounded pseudo-random
//! draw. Every caller takes the drawn value as data and is verified for
//! every value the contract admits.
use vstd::prelude::*;

verus! {

/// Relies on macroquad::rand::gen_range (quad_rand): for integer types
/// it scales a raw 32-bit draw by `hi - lo` in `f64` and adds it to
/// `lo`. The scaled term is at most `hi - lo` and at least zero, so the
/// result lies in the closed range; rounding of the product can land
/// exactly on `hi`, so no strict upper bound holds.
#[verifier::external_body]
pub fn rand_range_u32(lo: u32, hi: u32) -> (r: u32)
    requires
        lo < hi,
    ensures
        lo <= r <= hi,
{
    macroquad::rand::gen_range(lo, hi)
}

} // verus!
