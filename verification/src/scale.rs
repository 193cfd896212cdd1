//! BGRA to I420 conversion with nearest-neighbor downscaling, for
//! low-power capture profiles.
//!
//! Scale factors are 16.16 fixed point: the source coordinate for a
//! target coordinate `d` is `(d * ((src << 16) / dst)) >> 16`. The luma
//! plane samples at full target resolution; the chroma planes sample one
//! source pixel per 2x2 target block (no averaging).

use vstd::prelude::*;

use crate::convert::{luma_at, px_b, px_g, px_r, I420Frame};
use crate::errors::CoreError;
use crate::yuv::{u_of, v_of, yuv_u, yuv_v, yuv_y};

verus! {

/// The 16.16 fixed-point ratio from a source to a target dimension.
pub open spec fn ratio_16(src: int, dst: int) -> int {
    (src * 65536) / dst
}

/// The nearest-neighbor source coordinate for target coordinate `d`
/// under a 16.16 ratio.
pub open spec fn scaled_src(d: int, ratio: int) -> int {
    (d * ratio) / 65536
}

/// The row-major source pixel index sampled for target pixel `(dx, dy)`
/// when scaling `sw` by `sh` down to `dw` by `dh`.
pub open spec fn scaled_pixel(sw: int, sh: int, dw: int, dh: int, dx: int, dy: int) -> int {
    scaled_src(dy, ratio_16(sh, dh)) * sw + scaled_src(dx, ratio_16(sw, dw))
}

/// The source pixel sampled for chroma block `(bx, by)`: the
/// nearest-neighbor pixel of the block's top-left target coordinate.
pub open spec fn scaled_chroma_src(sw: int, sh: int, dw: int, dh: int, bx: int, by: int) -> int {
    scaled_pixel(sw, sh, dw, dh, 2 * bx, 2 * by)
}

/// Blue-difference chroma of source pixel `p`.
pub open spec fn pixel_u(bgra: Seq<u8>, p: int) -> int {
    u_of(px_r(bgra, p), px_g(bgra, p), px_b(bgra, p))
}

/// Red-difference chroma of source pixel `p`.
pub open spec fn pixel_v(bgra: Seq<u8>, p: int) -> int {
    v_of(px_r(bgra, p), px_g(bgra, p), px_b(bgra, p))
}

/// A downscale request is valid when the buffer matches the source
/// size, the target is even and no larger than the source, and neither
/// target dimension is zero.
pub open spec fn scale_ok(len: int, sw: int, sh: int, dw: int, dh: int) -> bool {
    &&& len == 4 * (sw * sh)
    &&& dw % 2 == 0
    &&& dh % 2 == 0
    &&& 1 <= dw <= sw
    &&& 1 <= dh <= sh
}

/// The fixed-point source coordinate stays inside the source dimension:
/// for `0 <= d < dst <= src`, `(d * ((src << 16) / dst)) >> 16` lies in
/// `[0, src)`, and the unshifted product never exceeds `src << 16`.
pub proof fn lemma_scaled_src_in_range(d: int, src: int, dst: int)
    requires
        0 <= d < dst,
        1 <= dst <= src,
    ensures
        0 <= scaled_src(d, ratio_16(src, dst)) < src,
        0 <= d * ratio_16(src, dst) <= src * 65536,
{
    let q = ratio_16(src, dst);
    assert(q >= 1) by {
        assert(src * 65536 >= dst) by (nonlinear_arith)
            requires
                1 <= dst <= src,
        ;
        assert((src * 65536) / dst >= dst / dst) by {
            vstd::arithmetic::div_mod::lemma_div_is_ordered(dst, src * 65536, dst);
        }
        assert(dst / dst == 1) by {
            vstd::arithmetic::div_mod::lemma_div_by_self(dst);
        }
    }
    assert(dst * q <= src * 65536) by {
        vstd::arithmetic::div_mod::lemma_fundamental_div_mod(src * 65536, dst);
        assert(dst * ((src * 65536) / dst) <= src * 65536) by (nonlinear_arith)
            requires
                src * 65536 == dst * ((src * 65536) / dst) + (src * 65536) % dst,
                (src * 65536) % dst >= 0,
        ;
    }
    assert(d * q <= dst * q - q) by (nonlinear_arith)
        requires
            0 <= d < dst,
            q >= 1,
    ;
    assert(d * q >= 0) by (nonlinear_arith)
        requires
            d >= 0,
            q >= 1,
    ;
    assert((d * q) / 65536 >= 0) by {
        vstd::arithmetic::div_mod::lemma_div_pos_is_pos(d * q, 65536);
    }
    assert((d * q) / 65536 < src) by {
        assert(d * q <= src * 65536 - 1);
        assert((d * q) / 65536 <= (src * 65536 - 1) / 65536) by {
            vstd::arithmetic::div_mod::lemma_div_is_ordered(d * q, src * 65536 - 1, 65536);
        }
        assert((src * 65536 - 1) / 65536 == src - 1) by {
            assert((src - 1) * 65536 + 65535 == src * 65536 - 1) by (nonlinear_arith);
            vstd::arithmetic::div_mod::lemma_fundamental_div_mod_converse(
                src * 65536 - 1,
                65536,
                src - 1,
                65535,
            );
        }
    }
}

/// The sampled source pixel of every target coordinate lies inside the
/// source frame, so its BGRA byte index stays within
/// `[0, 4 * Sw * Sh - 4]`.
pub proof fn lemma_downscale_bounds(dx: int, dy: int, sw: int, sh: int, dw: int, dh: int)
    requires
        0 <= dx < dw,
        0 <= dy < dh,
        1 <= dw <= sw,
        1 <= dh <= sh,
    ensures
        0 <= scaled_pixel(sw, sh, dw, dh, dx, dy),
        4 * scaled_pixel(sw, sh, dw, dh, dx, dy) <= 4 * (sw * sh) - 4,
{
    lemma_scaled_src_in_range(dx, sw, dw);
    lemma_scaled_src_in_range(dy, sh, dh);
    let sx = scaled_src(dx, ratio_16(sw, dw));
    let sy = scaled_src(dy, ratio_16(sh, dh));
    assert(0 <= sy * sw + sx <= sw * sh - 1) by (nonlinear_arith)
        requires
            0 <= sx < sw,
            0 <= sy < sh,
    ;
}

/// The fixed-point source coordinate for one target coordinate.
fn scaled_coord(d: usize, ratio: u64, src: u32, dst: u32) -> (s: usize)
    requires
        d < dst,
        1 <= dst <= src,
        ratio == ratio_16(src as int, dst as int),
    ensures
        s == scaled_src(d as int, ratio_16(src as int, dst as int)),
        s < src,
{
    proof {
        lemma_scaled_src_in_range(d as int, src as int, dst as int);
    }
    (((d as u64) * ratio) / 65536) as usize
}

/// Read the blue, green, and red bytes of source pixel `(sx, sy)`.
fn sample_pixel(bgra: &[u8], sw: u32, sh: u32, sx: usize, sy: usize) -> (r: (u8, u8, u8))
    requires
        bgra@.len() == 4 * ((sw as int) * (sh as int)),
        bgra@.len() <= usize::MAX,
        sx < sw,
        sy < sh,
    ensures
        r.0 as int == px_b(bgra@, (sy as int) * (sw as int) + (sx as int)),
        r.1 as int == px_g(bgra@, (sy as int) * (sw as int) + (sx as int)),
        r.2 as int == px_r(bgra@, (sy as int) * (sw as int) + (sx as int)),
{
    proof {
        assert(0 <= (sy as int) * (sw as int) + (sx as int) <= (sw as int) * (sh as int) - 1)
            by (nonlinear_arith)
            requires
                0 <= sx < sw,
                0 <= sy < sh,
        ;
    }
    let w: usize = sw as usize;
    let p: usize = sy * w + sx;
    (bgra[4 * p], bgra[4 * p + 1], bgra[4 * p + 2])
}

/// Downscale and convert a BGRA buffer to an I420 frame.
///
/// Succeeds exactly on valid requests (`scale_ok`); every luma sample of
/// the result is the BT.601 luma of the nearest-neighbor source pixel,
/// and every chroma sample is the BT.601 chroma of the source pixel
/// sampled for its 2x2 target block. Invalid requests fail with
/// `BufferSizeMismatch` and nothing else.
#[verifier::spinoff_prover]
#[verifier::rlimit(100)]
pub fn bgra_to_i420_scaled(
    bgra: &[u8],
    src_width: u32,
    src_height: u32,
    dst_width: u32,
    dst_height: u32,
) -> (r: Result<I420Frame, CoreError>)
    ensures
        scale_ok(
            bgra@.len() as int,
            src_width as int,
            src_height as int,
            dst_width as int,
            dst_height as int,
        ) ==> {
            &&& r is Ok
            &&& r->Ok_0.width == dst_width
            &&& r->Ok_0.height == dst_height
            &&& r->Ok_0.well_formed()
            &&& forall|dx: int, dy: int|
                0 <= dx < dst_width && 0 <= dy < dst_height ==> r->Ok_0.y[dy * dst_width + dx]
                    == luma_at(
                    bgra@,
                    scaled_pixel(
                        src_width as int,
                        src_height as int,
                        dst_width as int,
                        dst_height as int,
                        dx,
                        dy,
                    ),
                )
            &&& forall|bx: int, by: int|
                0 <= bx < dst_width / 2 && 0 <= by < dst_height / 2 ==> r->Ok_0.u[by * (dst_width
                    / 2) + bx] == pixel_u(
                    bgra@,
                    scaled_chroma_src(
                        src_width as int,
                        src_height as int,
                        dst_width as int,
                        dst_height as int,
                        bx,
                        by,
                    ),
                )
            &&& forall|bx: int, by: int|
                0 <= bx < dst_width / 2 && 0 <= by < dst_height / 2 ==> r->Ok_0.v[by * (dst_width
                    / 2) + bx] == pixel_v(
                    bgra@,
                    scaled_chroma_src(
                        src_width as int,
                        src_height as int,
                        dst_width as int,
                        dst_height as int,
                        bx,
                        by,
                    ),
                )
        },
        !scale_ok(
            bgra@.len() as int,
            src_width as int,
            src_height as int,
            dst_width as int,
            dst_height as int,
        ) ==> r == Result::<I420Frame, CoreError>::Err(CoreError::BufferSizeMismatch),
{
    if dst_width % 2 != 0 || dst_height % 2 != 0 || dst_width == 0 || dst_height == 0 || dst_width
        > src_width || dst_height > src_height {
        return Err(CoreError::BufferSizeMismatch);
    }
    proof {
        assert((src_width as int) * (src_height as int) <= 0xffff_ffff_ffff_ffff)
            by (nonlinear_arith)
            requires
                src_width <= 0xffff_ffffu32,
                src_height <= 0xffff_ffffu32,
        ;
    }
    let wh: u64 = (src_width as u64) * (src_height as u64);
    if bgra.len() % 4 != 0 {
        proof {
            vstd::arithmetic::div_mod::lemma_fundamental_div_mod(bgra@.len() as int, 4);
        }
        return Err(CoreError::BufferSizeMismatch);
    }
    let n_px: usize = bgra.len() / 4;
    proof {
        vstd::arithmetic::div_mod::lemma_fundamental_div_mod(bgra@.len() as int, 4);
        assert(bgra@.len() == 4 * (n_px as int));
    }
    if (n_px as u64) != wh {
        return Err(CoreError::BufferSizeMismatch);
    }

    let x_ratio: u64 = ((src_width as u64) * 65536) / (dst_width as u64);
    let y_ratio: u64 = ((src_height as u64) * 65536) / (dst_height as u64);
    let dw: usize = dst_width as usize;
    let dh: usize = dst_height as usize;
    let len: usize = bgra.len();

    let ghost swi = src_width as int;
    let ghost shi = src_height as int;
    let ghost dwi = dst_width as int;
    let ghost dhi = dst_height as int;

    // Luma plane at full target resolution.
    let mut yv: Vec<u8> = Vec::new();
    let mut dy: usize = 0;
    while dy < dh
        invariant
            bgra@.len() == 4 * (swi * shi),
            len == bgra@.len(),
            x_ratio == ratio_16(swi, dwi),
            y_ratio == ratio_16(shi, dhi),
            dw == dst_width,
            dh == dst_height,
            swi == src_width as int,
            shi == src_height as int,
            dwi == dst_width as int,
            dhi == dst_height as int,
            1 <= dwi <= swi,
            1 <= dhi <= shi,
            dy <= dh,
            yv.len() == dy * dw,
            forall|i: int, j: int|
                0 <= i < dw && 0 <= j < dy ==> yv[j * (dw as int) + i] == luma_at(
                    bgra@,
                    scaled_pixel(swi, shi, dwi, dhi, i, j),
                ),
        decreases dh - dy,
    {
        let sy: usize = scaled_coord(dy, y_ratio, src_height, dst_height);
        let mut dx: usize = 0;
        while dx < dw
            invariant
                bgra@.len() == 4 * (swi * shi),
                len == bgra@.len(),
                x_ratio == ratio_16(swi, dwi),
                y_ratio == ratio_16(shi, dhi),
                dw == dst_width,
                dh == dst_height,
                swi == src_width as int,
                shi == src_height as int,
                dwi == dst_width as int,
                dhi == dst_height as int,
                1 <= dwi <= swi,
                1 <= dhi <= shi,
                dy < dh,
                sy == scaled_src(dy as int, ratio_16(shi, dhi)),
                sy < src_height,
                dx <= dw,
                yv.len() == dy * dw + dx,
                forall|i: int, j: int|
                    0 <= i < dw && 0 <= j < dy ==> yv[j * (dw as int) + i] == luma_at(
                        bgra@,
                        scaled_pixel(swi, shi, dwi, dhi, i, j),
                    ),
                forall|i: int|
                    0 <= i < dx ==> yv[(dy as int) * (dw as int) + i] == luma_at(
                        bgra@,
                        scaled_pixel(swi, shi, dwi, dhi, i, dy as int),
                    ),
            decreases dw - dx,
        {
            let sx: usize = scaled_coord(dx, x_ratio, src_width, dst_width);
            let (b, g, rr) = sample_pixel(bgra, src_width, src_height, sx, sy);
            yv.push(yuv_y(rr, g, b));
            proof {
                assert forall|i: int, j: int|
                    0 <= i < dw && 0 <= j < dy implies yv@[j * (dw as int) + i] == luma_at(
                    bgra@,
                    scaled_pixel(swi, shi, dwi, dhi, i, j),
                ) by {
                    assert(j * (dw as int) + i < (dy as int) * (dw as int)) by (nonlinear_arith)
                        requires
                            0 <= i < dw,
                            0 <= j,
                            j < dy,
                    ;
                }
            }
            dx = dx + 1;
        }
        proof {
            assert forall|i: int, j: int|
                0 <= i < dw && 0 <= j < dy + 1 implies yv@[j * (dw as int) + i] == luma_at(
                bgra@,
                scaled_pixel(swi, shi, dwi, dhi, i, j),
            ) by {
                if j == dy as int {
                    assert(yv@[(dy as int) * (dw as int) + i] == luma_at(
                        bgra@,
                        scaled_pixel(swi, shi, dwi, dhi, i, dy as int),
                    ));
                }
            }
        }
        dy = dy + 1;
        proof {
            assert(yv.len() == dy * dw) by (nonlinear_arith)
                requires
                    yv.len() == (dy - 1) * dw + dw,
            ;
        }
    }

    // Chroma planes: one source sample per 2x2 target block.
    let w2: usize = dw / 2;
    let h2: usize = dh / 2;
    let mut uvec: Vec<u8> = Vec::new();
    let mut vvec: Vec<u8> = Vec::new();
    let mut by: usize = 0;
    while by < h2
        invariant
            bgra@.len() == 4 * (swi * shi),
            len == bgra@.len(),
            x_ratio == ratio_16(swi, dwi),
            y_ratio == ratio_16(shi, dhi),
            dw == dst_width,
            dh == dst_height,
            swi == src_width as int,
            shi == src_height as int,
            dwi == dst_width as int,
            dhi == dst_height as int,
            1 <= dwi <= swi,
            1 <= dhi <= shi,
            dst_width % 2 == 0,
            dst_height % 2 == 0,
            w2 == dw / 2,
            h2 == dh / 2,
            by <= h2,
            uvec.len() == by * w2,
            vvec.len() == by * w2,
            forall|i: int, j: int|
                0 <= i < w2 && 0 <= j < by ==> uvec[j * (w2 as int) + i] == pixel_u(
                    bgra@,
                    scaled_chroma_src(swi, shi, dwi, dhi, i, j),
                ),
            forall|i: int, j: int|
                0 <= i < w2 && 0 <= j < by ==> vvec[j * (w2 as int) + i] == pixel_v(
                    bgra@,
                    scaled_chroma_src(swi, shi, dwi, dhi, i, j),
                ),
        decreases h2 - by,
    {
        let sy: usize = scaled_coord(2 * by, y_ratio, src_height, dst_height);
        let mut bx: usize = 0;
        while bx < w2
            invariant
                bgra@.len() == 4 * (swi * shi),
                len == bgra@.len(),
                x_ratio == ratio_16(swi, dwi),
                y_ratio == ratio_16(shi, dhi),
                dw == dst_width,
                dh == dst_height,
                swi == src_width as int,
                shi == src_height as int,
                dwi == dst_width as int,
                dhi == dst_height as int,
                1 <= dwi <= swi,
                1 <= dhi <= shi,
                dst_width % 2 == 0,
                dst_height % 2 == 0,
                w2 == dw / 2,
                h2 == dh / 2,
                by < h2,
                sy == scaled_src(2 * (by as int), ratio_16(shi, dhi)),
                sy < src_height,
                bx <= w2,
                uvec.len() == by * w2 + bx,
                vvec.len() == by * w2 + bx,
                forall|i: int, j: int|
                    0 <= i < w2 && 0 <= j < by ==> uvec[j * (w2 as int) + i] == pixel_u(
                        bgra@,
                        scaled_chroma_src(swi, shi, dwi, dhi, i, j),
                    ),
                forall|i: int, j: int|
                    0 <= i < w2 && 0 <= j < by ==> vvec[j * (w2 as int) + i] == pixel_v(
                        bgra@,
                        scaled_chroma_src(swi, shi, dwi, dhi, i, j),
                    ),
                forall|i: int|
                    0 <= i < bx ==> uvec[(by as int) * (w2 as int) + i] == pixel_u(
                        bgra@,
                        scaled_chroma_src(swi, shi, dwi, dhi, i, by as int),
                    ),
                forall|i: int|
                    0 <= i < bx ==> vvec[(by as int) * (w2 as int) + i] == pixel_v(
                        bgra@,
                        scaled_chroma_src(swi, shi, dwi, dhi, i, by as int),
                    ),
            decreases w2 - bx,
        {
            let sx: usize = scaled_coord(2 * bx, x_ratio, src_width, dst_width);
            let (b, g, rr) = sample_pixel(bgra, src_width, src_height, sx, sy);
            uvec.push(yuv_u(rr, g, b));
            vvec.push(yuv_v(rr, g, b));
            proof {
                assert forall|i: int, j: int|
                    0 <= i < w2 && 0 <= j < by implies uvec@[j * (w2 as int) + i] == pixel_u(
                    bgra@,
                    scaled_chroma_src(swi, shi, dwi, dhi, i, j),
                ) by {
                    assert(j * (w2 as int) + i < (by as int) * (w2 as int)) by (nonlinear_arith)
                        requires
                            0 <= i < w2,
                            0 <= j,
                            j < by,
                    ;
                }
                assert forall|i: int, j: int|
                    0 <= i < w2 && 0 <= j < by implies vvec@[j * (w2 as int) + i] == pixel_v(
                    bgra@,
                    scaled_chroma_src(swi, shi, dwi, dhi, i, j),
                ) by {
                    assert(j * (w2 as int) + i < (by as int) * (w2 as int)) by (nonlinear_arith)
                        requires
                            0 <= i < w2,
                            0 <= j,
                            j < by,
                    ;
                }
            }
            bx = bx + 1;
        }
        proof {
            assert forall|i: int, j: int|
                0 <= i < w2 && 0 <= j < by + 1 implies uvec@[j * (w2 as int) + i] == pixel_u(
                bgra@,
                scaled_chroma_src(swi, shi, dwi, dhi, i, j),
            ) by {
                if j == by as int {
                    assert(uvec@[(by as int) * (w2 as int) + i] == pixel_u(
                        bgra@,
                        scaled_chroma_src(swi, shi, dwi, dhi, i, by as int),
                    ));
                }
            }
            assert forall|i: int, j: int|
                0 <= i < w2 && 0 <= j < by + 1 implies vvec@[j * (w2 as int) + i] == pixel_v(
                bgra@,
                scaled_chroma_src(swi, shi, dwi, dhi, i, j),
            ) by {
                if j == by as int {
                    assert(vvec@[(by as int) * (w2 as int) + i] == pixel_v(
                        bgra@,
                        scaled_chroma_src(swi, shi, dwi, dhi, i, by as int),
                    ));
                }
            }
        }
        by = by + 1;
        proof {
            assert(uvec.len() == by * w2) by (nonlinear_arith)
                requires
                    uvec.len() == (by - 1) * w2 + w2,
            ;
            assert(vvec.len() == by * w2) by (nonlinear_arith)
                requires
                    vvec.len() == (by - 1) * w2 + w2,
            ;
        }
    }

    proof {
        assert(dwi * dhi / 4 == (dwi / 2) * (dhi / 2)) by (nonlinear_arith)
            requires
                dwi % 2 == 0,
                dhi % 2 == 0,
        ;
        assert(uvec.len() == (h2 as int) * (w2 as int));
        assert((dh as int) * (dw as int) == dwi * dhi) by (nonlinear_arith)
            requires
                dh == dhi,
                dw == dwi,
        ;
        assert forall|dx: int, j: int|
            0 <= dx < dst_width && 0 <= j < dst_height implies yv@[j * (dwi) + dx] == luma_at(
            bgra@,
            scaled_pixel(swi, shi, dwi, dhi, dx, j),
        ) by {
            assert(yv@[j * (dw as int) + dx] == luma_at(bgra@, scaled_pixel(swi, shi, dwi, dhi, dx, j)));
        }
        assert forall|bx: int, j: int|
            0 <= bx < dst_width / 2 && 0 <= j < dst_height / 2 implies uvec@[j * (dwi / 2) + bx]
            == pixel_u(bgra@, scaled_chroma_src(swi, shi, dwi, dhi, bx, j)) by {
            assert(uvec@[j * (w2 as int) + bx] == pixel_u(
                bgra@,
                scaled_chroma_src(swi, shi, dwi, dhi, bx, j),
            ));
        }
        assert forall|bx: int, j: int|
            0 <= bx < dst_width / 2 && 0 <= j < dst_height / 2 implies vvec@[j * (dwi / 2) + bx]
            == pixel_v(bgra@, scaled_chroma_src(swi, shi, dwi, dhi, bx, j)) by {
            assert(vvec@[j * (w2 as int) + bx] == pixel_v(
                bgra@,
                scaled_chroma_src(swi, shi, dwi, dhi, bx, j),
            ));
        }
    }
    Ok(I420Frame { width: dst_width, height: dst_height, y: yv, u: uvec, v: vvec })
}

} // verus!
