//! Colours: three 8-bit channels, their packed form, and a linear blend.

use vstd::prelude::*;
use crate::fixed::{Fixed, ONE, wide_product, lemma_product_bound};

verus! {

/// Red, green and blue intensities.
pub type RGB = (u8, u8, u8);

/// The packed 24-bit form of a colour: red in bits 16 to 23, green in bits
/// 8 to 15, blue in bits 0 to 7.
pub open spec fn spec_pack(color: RGB) -> int {
    color.0 * 0x10000 + color.1 * 0x100 + color.2
}

/// `v / ONE` rounded to the nearest whole number, halves away from zero.
pub open spec fn round_to_whole(v: int) -> int {
    if v >= 0 {
        (v + ONE / 2) / (ONE as int)
    } else {
        -((-v + ONE / 2) / (ONE as int))
    }
}

/// `v` limited to the range of a colour channel.
pub open spec fn clamp_channel(v: int) -> int {
    if v < 0 {
        0
    } else if v > 255 {
        255
    } else {
        v
    }
}

/// One blended channel: `t * a + (1 - t) * b`, rounded and limited to a
/// channel's range. `t` is a fixed-point weight, so the sum is formed in
/// units of `1 / ONE`.
pub open spec fn spec_blend(a: u8, b: u8, t: Fixed) -> int {
    clamp_channel(round_to_whole(t * a + (ONE - t) * b))
}

/// Packs a colour into the form that the pixel buffer holds.
pub fn pack(color: RGB) -> (r: u32)
    ensures
        r == spec_pack(color),
{
    (color.0 as u32) * 0x10000 + (color.1 as u32) * 0x100 + (color.2 as u32)
}

fn blend(a: u8, b: u8, t: Fixed) -> (r: u8)
    ensures
        r == spec_blend(a, b, t),
{
    let rest: i128 = (ONE as i128) - (t as i128);
    proof {
        lemma_product_bound(rest as int, b as int, 0x1_0000_0000, 255);
    }
    let weighted: i128 = wide_product(t, a as i32) + rest * (b as i128);
    let rounded: i128 = if weighted >= 0 {
        (weighted + (ONE / 2) as i128) / (ONE as i128)
    } else {
        -((-weighted + (ONE / 2) as i128) / (ONE as i128))
    };
    if rounded < 0 {
        0
    } else if rounded > 255 {
        255
    } else {
        rounded as u8
    }
}

/// Blends two colours channel by channel with `weight` on `color1` and
/// `1 - weight` on `color2`. The weight is not limited to the range from zero
/// to one; a channel that leaves its range is held at the nearer end.
/// Blending a colour with itself returns it, whatever the weight.
pub fn mix(color1: RGB, color2: RGB, weight: Fixed) -> (blended: RGB)
    ensures
        blended.0 == spec_blend(color1.0, color2.0, weight),
        blended.1 == spec_blend(color1.1, color2.1, weight),
        blended.2 == spec_blend(color1.2, color2.2, weight),
        color1 == color2 ==> blended == color1,
{
    proof {
        lemma_blend_same(color1.0, weight);
        lemma_blend_same(color1.1, weight);
        lemma_blend_same(color1.2, weight);
    }
    (
        blend(color1.0, color2.0, weight),
        blend(color1.1, color2.1, weight),
        blend(color1.2, color2.2, weight),
    )
}

/// A channel blended with itself is unchanged, whatever the weight.
pub proof fn lemma_blend_same(a: u8, t: Fixed)
    ensures
        spec_blend(a, a, t) == a,
{
    assert(t * a + (ONE - t) * a == ONE * a) by (nonlinear_arith);
}

} // verus!
