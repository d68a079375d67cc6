//! Conversion from the rasterizer's 26.6 fixed-point units to pixels.
//!
//! Every size, advance and line-height value the rasterizer reports is a
//! 26.6 fixed-point number (units of 1/64 pixel); this is the one place
//! that turns such a value into whole pixels.

use vstd::prelude::*;

verus! {

/// Converts a 26.6 fixed-point value to whole pixels, rounding toward
/// negative infinity.
pub fn calculate_value(v: i64) -> (r: i64)
    requires
        i64::MIN + 63 < v,
    ensures
        r == v as int / 64,
{
    if v >= 0 {
        v / 64
    } else {
        (v - 63) / 64
    }
}

} // verus!
