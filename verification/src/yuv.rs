//! BT.601 color math: the per-pixel RGB to YUV formulas used by the
//! BGRA to I420 converters.
//!
//! The specification form uses mathematical integers with flooring
//! division, which is exactly what the customary `>> 8` computes; the
//! executable form keeps every intermediate value non-negative by adding
//! the bias `128 * 256` before dividing, which shifts the quotient by
//! exactly 128.

use vstd::prelude::*;

verus! {

/// Clamp a mathematical integer into the byte range.
pub open spec fn clamp_255(v: int) -> int {
    if v < 0 {
        0
    } else if v > 255 {
        255
    } else {
        v
    }
}

/// BT.601 luma of one pixel: `((66R + 129G + 25B + 128) >> 8) + 16`,
/// clamped to a byte.
pub open spec fn y_of(r: int, g: int, b: int) -> int {
    clamp_255((66 * r + 129 * g + 25 * b + 128) / 256 + 16)
}

/// BT.601 blue-difference chroma: `((-38R - 74G + 112B + 128) >> 8) + 128`,
/// clamped to a byte.
pub open spec fn u_of(r: int, g: int, b: int) -> int {
    clamp_255((-38 * r - 74 * g + 112 * b + 128) / 256 + 128)
}

/// BT.601 red-difference chroma: `((112R - 94G - 18B + 128) >> 8) + 128`,
/// clamped to a byte.
pub open spec fn v_of(r: int, g: int, b: int) -> int {
    clamp_255((112 * r - 94 * g - 18 * b + 128) / 256 + 128)
}

/// Luma of a pixel, exactly `y_of` on byte components.
pub fn yuv_y(r: u8, g: u8, b: u8) -> (y: u8)
    ensures
        y == y_of(r as int, g as int, b as int),
{
    let acc: u32 = 66 * (r as u32) + 129 * (g as u32) + 25 * (b as u32) + 128;
    let q: u32 = acc / 256 + 16;
    proof {
        assert(acc / 256 <= 56228int / 256) by {
            vstd::arithmetic::div_mod::lemma_div_is_ordered(acc as int, 56228int, 256);
        }
        assert(0 <= acc / 256 + 16 <= 255);
    }
    q as u8
}

/// Blue-difference chroma of a pixel, exactly `u_of` on byte components.
pub fn yuv_u(r: u8, g: u8, b: u8) -> (u: u8)
    ensures
        u == u_of(r as int, g as int, b as int),
{
    let acc: u32 = (32896 + 112 * (b as u32)) - (38 * (r as u32) + 74 * (g as u32));
    let q: u32 = acc / 256;
    proof {
        lemma_biased_chroma(-38 * (r as int) - 74 * (g as int) + 112 * (b as int) + 128);
        assert(acc == -38 * (r as int) - 74 * (g as int) + 112 * (b as int) + 128 + 32768);
    }
    q as u8
}

/// Red-difference chroma of a pixel, exactly `v_of` on byte components.
pub fn yuv_v(r: u8, g: u8, b: u8) -> (v: u8)
    ensures
        v == v_of(r as int, g as int, b as int),
{
    let acc: u32 = (32896 + 112 * (r as u32)) - (94 * (g as u32) + 18 * (b as u32));
    let q: u32 = acc / 256;
    proof {
        lemma_biased_chroma(112 * (r as int) - 94 * (g as int) - 18 * (b as int) + 128);
        assert(acc == 112 * (r as int) - 94 * (g as int) - 18 * (b as int) + 128 + 32768);
    }
    q as u8
}

/// Adding the bias `128 * 256` before a flooring division by 256 shifts
/// the quotient by exactly 128, and for the range the chroma formulas can
/// produce, the clamp to a byte never fires.
proof fn lemma_biased_chroma(t: int)
    requires
        -28560 <= t <= 28688,
    ensures
        (t + 32768) / 256 == t / 256 + 128,
        clamp_255(t / 256 + 128) == t / 256 + 128,
        0 <= (t + 32768) / 256 <= 255,
{
    vstd::arithmetic::div_mod::lemma_hoist_over_denominator(t, 128, 256);
    assert(t / 256 >= -112) by {
        vstd::arithmetic::div_mod::lemma_div_is_ordered(-28560int, t, 256);
        assert((-28560int) / 256 == -112);
    }
    assert(t / 256 <= 112) by {
        vstd::arithmetic::div_mod::lemma_div_is_ordered(t, 28688int, 256);
        assert(28688int / 256 == 112);
    }
}

} // verus!
