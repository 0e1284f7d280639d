//! Blending two samples through two colour weights.

use vstd::prelude::*;

use crate::color::FULL;

verus! {

/// The blended byte, as a mathematical integer.
///
/// Each sample is scaled by its weight, the intensity `w / FULL`, and by one
/// half, and the two are added:
/// `v_left * (w_left / FULL) / 2 + v_right * (w_right / FULL) / 2`.
/// The fraction of the sum is dropped. Over the common denominator
/// `2 * FULL` that is one integer division.
pub open spec fn spec_blend(v_left: u8, v_right: u8, w_left: u8, w_right: u8) -> int {
    (v_left * w_left + v_right * w_right) / (2 * FULL)
}

/// A blended value is a byte.
pub proof fn lemma_blend_is_byte(v_left: u8, v_right: u8, w_left: u8, w_right: u8)
    ensures
        0 <= spec_blend(v_left, v_right, w_left, w_right) <= 255,
{
    assert(2 * FULL == 510);
    assert(0 <= v_left * w_left <= 255 * 255) by (nonlinear_arith);
    assert(0 <= v_right * w_right <= 255 * 255) by (nonlinear_arith);
}

/// Blends two samples through their weights and drops the fraction.
pub fn blend(v_left: u8, v_right: u8, w_left: u8, w_right: u8) -> (out: u8)
    ensures
        out == spec_blend(v_left, v_right, w_left, w_right),
{
    proof {
        lemma_blend_is_byte(v_left, v_right, w_left, w_right);
        assert(2 * FULL == 510);
        assert(0 <= v_left * w_left <= 255 * 255) by (nonlinear_arith);
        assert(0 <= v_right * w_right <= 255 * 255) by (nonlinear_arith);
    }
    let left: u32 = v_left as u32 * w_left as u32;
    let right: u32 = v_right as u32 * w_right as u32;
    ((left + right) / (2 * FULL as u32)) as u8
}

} // verus!
