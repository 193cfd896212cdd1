//! CPU BGRA to I420 conversion, plane assembly, and encoder alignment.
//!
//! A BGRA buffer holds 4 bytes per pixel in the order blue, green, red,
//! alpha; an I420 frame holds a full-resolution luma plane and two
//! quarter-resolution chroma planes, one chroma sample per 2x2 pixel
//! block, using the BT.601 formulas of [`crate::yuv`].

use vstd::prelude::*;

use crate::errors::CoreError;
use crate::yuv::{u_of, v_of, y_of, yuv_u, yuv_v, yuv_y};

verus! {

/// Target framerate of the GPU color-convert pipeline.
pub const TARGET_FPS: i32 = 60;

/// Bound of the GPU converter's output queue; older frames are dropped.
pub const MAX_BUFFERS: u32 = 2;

/// Bytes per BGRA pixel.
pub const BGRA_BYTES_PER_PIXEL: u32 = 4;

/// Blue component of pixel `i` (in row-major order) of a BGRA buffer.
pub open spec fn px_b(bgra: Seq<u8>, i: int) -> int {
    bgra[4 * i] as int
}

/// Green component of pixel `i` of a BGRA buffer.
pub open spec fn px_g(bgra: Seq<u8>, i: int) -> int {
    bgra[4 * i + 1] as int
}

/// Red component of pixel `i` of a BGRA buffer.
pub open spec fn px_r(bgra: Seq<u8>, i: int) -> int {
    bgra[4 * i + 2] as int
}

/// Luma of pixel `i` of a BGRA buffer.
pub open spec fn luma_at(bgra: Seq<u8>, i: int) -> int {
    y_of(px_r(bgra, i), px_g(bgra, i), px_b(bgra, i))
}

/// Sum of the red components of the 2x2 pixel block whose top-left
/// corner is pixel `(2*bx, 2*by)` in a buffer `w` pixels wide.
pub open spec fn block_sum_r(bgra: Seq<u8>, w: int, bx: int, by: int) -> int {
    px_r(bgra, 2 * by * w + 2 * bx) + px_r(bgra, 2 * by * w + 2 * bx + 1) + px_r(
        bgra,
        (2 * by + 1) * w + 2 * bx,
    ) + px_r(bgra, (2 * by + 1) * w + 2 * bx + 1)
}

/// Sum of the green components of a 2x2 pixel block.
pub open spec fn block_sum_g(bgra: Seq<u8>, w: int, bx: int, by: int) -> int {
    px_g(bgra, 2 * by * w + 2 * bx) + px_g(bgra, 2 * by * w + 2 * bx + 1) + px_g(
        bgra,
        (2 * by + 1) * w + 2 * bx,
    ) + px_g(bgra, (2 * by + 1) * w + 2 * bx + 1)
}

/// Sum of the blue components of a 2x2 pixel block.
pub open spec fn block_sum_b(bgra: Seq<u8>, w: int, bx: int, by: int) -> int {
    px_b(bgra, 2 * by * w + 2 * bx) + px_b(bgra, 2 * by * w + 2 * bx + 1) + px_b(
        bgra,
        (2 * by + 1) * w + 2 * bx,
    ) + px_b(bgra, (2 * by + 1) * w + 2 * bx + 1)
}

/// Blue-difference chroma of block `(bx, by)`: `u_of` of the block's
/// component averages.
pub open spec fn chroma_u_at(bgra: Seq<u8>, w: int, bx: int, by: int) -> int {
    u_of(
        block_sum_r(bgra, w, bx, by) / 4,
        block_sum_g(bgra, w, bx, by) / 4,
        block_sum_b(bgra, w, bx, by) / 4,
    )
}

/// Red-difference chroma of block `(bx, by)`.
pub open spec fn chroma_v_at(bgra: Seq<u8>, w: int, bx: int, by: int) -> int {
    v_of(
        block_sum_r(bgra, w, bx, by) / 4,
        block_sum_g(bgra, w, bx, by) / 4,
        block_sum_b(bgra, w, bx, by) / 4,
    )
}

/// A BGRA buffer is valid for a `w` by `h` frame when it holds exactly
/// 4 bytes per pixel and both dimensions are even, as 4:2:0 chroma
/// subsampling requires.
pub open spec fn bgra_valid(len: int, w: int, h: int) -> bool {
    &&& len == 4 * (w * h)
    &&& w % 2 == 0
    &&& h % 2 == 0
}

/// A planar I420 frame: full-resolution luma and two quarter-resolution
/// chroma planes.
#[derive(Debug)]
pub struct I420Frame {
    /// Width in pixels; even.
    pub width: u32,
    /// Height in pixels; even.
    pub height: u32,
    /// Luma plane, `width * height` bytes.
    pub y: Vec<u8>,
    /// Blue-difference plane, `width * height / 4` bytes.
    pub u: Vec<u8>,
    /// Red-difference plane, `width * height / 4` bytes.
    pub v: Vec<u8>,
}

impl I420Frame {
    /// Plane sizes satisfy the I420 layout: `|Y| = W*H`,
    /// `|U| = |V| = W*H/4`, with both dimensions even.
    pub open spec fn well_formed(&self) -> bool {
        &&& self.width % 2 == 0
        &&& self.height % 2 == 0
        &&& self.y.len() == self.width * self.height
        &&& self.u.len() == self.width * self.height / 4
        &&& self.v.len() == self.width * self.height / 4
    }
}

/// Convert a BGRA buffer to an I420 frame.
///
/// Succeeds exactly on valid buffers (`4 * width * height` bytes, even
/// dimensions); every luma sample and every chroma sample of the result
/// is pinned to the BT.601 formulas. Invalid sizes fail with
/// `BufferSizeMismatch` and nothing else.
#[verifier::spinoff_prover]
#[verifier::rlimit(100)]
pub fn bgra_to_i420(bgra: &[u8], width: u32, height: u32) -> (r: Result<I420Frame, CoreError>)
    ensures
        bgra_valid(bgra@.len() as int, width as int, height as int) ==> {
            &&& r is Ok
            &&& r->Ok_0.width == width
            &&& r->Ok_0.height == height
            &&& r->Ok_0.well_formed()
            &&& forall|i: int|
                0 <= i < width * height ==> r->Ok_0.y[i] == luma_at(bgra@, i)
            &&& forall|bx: int, by: int|
                0 <= bx < width / 2 && 0 <= by < height / 2 ==> r->Ok_0.u[by * (width / 2)
                    + bx] == chroma_u_at(bgra@, width as int, bx, by)
            &&& forall|bx: int, by: int|
                0 <= bx < width / 2 && 0 <= by < height / 2 ==> r->Ok_0.v[by * (width / 2)
                    + bx] == chroma_v_at(bgra@, width as int, bx, by)
        },
        !bgra_valid(bgra@.len() as int, width as int, height as int) ==> r == Result::<
            I420Frame,
            CoreError,
        >::Err(CoreError::BufferSizeMismatch),
{
    if width % 2 != 0 || height % 2 != 0 {
        return Err(CoreError::BufferSizeMismatch);
    }
    proof {
        assert((width as int) * (height as int) <= 0xffff_ffff_ffff_ffff) by (nonlinear_arith)
            requires
                width <= 0xffff_ffffu32,
                height <= 0xffff_ffffu32,
        ;
    }
    let wh: u64 = (width as u64) * (height as u64);
    if bgra.len() % 4 != 0 {
        proof {
            vstd::arithmetic::div_mod::lemma_fundamental_div_mod(bgra@.len() as int, 4);
        }
        return Err(CoreError::BufferSizeMismatch);
    }
    let n_px: usize = bgra.len() / 4;
    proof {
        vstd::arithmetic::div_mod::lemma_fundamental_div_mod(bgra@.len() as int, 4);
        assert(bgra@.len() == 4 * (n_px as int));
    }
    if (n_px as u64) != wh {
        return Err(CoreError::BufferSizeMismatch);
    }
    let w: usize = width as usize;
    let h: usize = height as usize;
    let len: usize = bgra.len();

    // Luma plane: one sample per pixel, in row-major pixel order, so the
    // pixel index and the plane index coincide.
    let mut yv: Vec<u8> = Vec::new();
    let mut i: usize = 0;
    while i < n_px
        invariant
            n_px == (width as int) * (height as int),
            len == bgra@.len(),
            len == 4 * n_px,
            i <= n_px,
            yv.len() == i,
            forall|j: int| 0 <= j < i ==> yv[j] == luma_at(bgra@, j),
        decreases n_px - i,
    {
        let b = bgra[4 * i];
        let g = bgra[4 * i + 1];
        let r = bgra[4 * i + 2];
        yv.push(yuv_y(r, g, b));
        i = i + 1;
    }

    // Chroma planes: one sample per 2x2 block, averaging the block.
    let w2: usize = w / 2;
    let h2: usize = h / 2;
    let mut uv: Vec<u8> = Vec::new();
    let mut vv: Vec<u8> = Vec::new();
    let mut by: usize = 0;
    while by < h2
        invariant
            n_px == (width as int) * (height as int),
            bgra@.len() == 4 * n_px,
            4 * n_px <= usize::MAX,
            w == width,
            h == height,
            w2 == w / 2,
            h2 == h / 2,
            width % 2 == 0,
            height % 2 == 0,
            by <= h2,
            uv.len() == by * w2,
            vv.len() == by * w2,
            forall|bi: int, bj: int|
                0 <= bi < w2 && 0 <= bj < by ==> uv[bj * w2 + bi] == chroma_u_at(
                    bgra@,
                    width as int,
                    bi,
                    bj,
                ),
            forall|bi: int, bj: int|
                0 <= bi < w2 && 0 <= bj < by ==> vv[bj * w2 + bi] == chroma_v_at(
                    bgra@,
                    width as int,
                    bi,
                    bj,
                ),
        decreases h2 - by,
    {
        let mut bx: usize = 0;
        while bx < w2
            invariant
                n_px == (width as int) * (height as int),
                bgra@.len() == 4 * n_px,
                4 * n_px <= usize::MAX,
                w == width,
                h == height,
                w2 == w / 2,
                h2 == h / 2,
                width % 2 == 0,
                height % 2 == 0,
                by < h2,
                bx <= w2,
                uv.len() == by * w2 + bx,
                vv.len() == by * w2 + bx,
                forall|bi: int, bj: int|
                    0 <= bi < w2 && 0 <= bj < by ==> uv[bj * w2 + bi] == chroma_u_at(
                        bgra@,
                        width as int,
                        bi,
                        bj,
                    ),
                forall|bi: int, bj: int|
                    0 <= bi < w2 && 0 <= bj < by ==> vv[bj * w2 + bi] == chroma_v_at(
                        bgra@,
                        width as int,
                        bi,
                        bj,
                    ),
                forall|bi: int|
                    0 <= bi < bx ==> uv[by * w2 + bi] == chroma_u_at(bgra@, width as int, bi, by as int),
                forall|bi: int|
                    0 <= bi < bx ==> vv[by * w2 + bi] == chroma_v_at(bgra@, width as int, bi, by as int),
            decreases w2 - bx,
        {
            let (cu, cv) = block_chroma(bgra, width, height, n_px, bx, by);
            uv.push(cu);
            vv.push(cv);
            proof {
                assert forall|bi: int, bj: int|
                    0 <= bi < w2 && 0 <= bj < by implies uv@[bj * (w2 as int) + bi] == chroma_u_at(
                    bgra@,
                    width as int,
                    bi,
                    bj,
                ) by {
                    assert(bj * (w2 as int) + bi < (by as int) * (w2 as int)) by (nonlinear_arith)
                        requires
                            0 <= bi < w2,
                            0 <= bj,
                            bj < by,
                    ;
                }
                assert forall|bi: int, bj: int|
                    0 <= bi < w2 && 0 <= bj < by implies vv@[bj * (w2 as int) + bi] == chroma_v_at(
                    bgra@,
                    width as int,
                    bi,
                    bj,
                ) by {
                    assert(bj * (w2 as int) + bi < (by as int) * (w2 as int)) by (nonlinear_arith)
                        requires
                            0 <= bi < w2,
                            0 <= bj,
                            bj < by,
                    ;
                }
            }
            bx = bx + 1;
        }
        proof {
            assert forall|bi: int, bj: int|
                0 <= bi < w2 && 0 <= bj < by + 1 implies uv@[bj * (w2 as int) + bi]
                == chroma_u_at(bgra@, width as int, bi, bj) by {
                if bj == by as int {
                    assert(uv@[(by as int) * (w2 as int) + bi] == chroma_u_at(
                        bgra@,
                        width as int,
                        bi,
                        by as int,
                    ));
                }
            }
            assert forall|bi: int, bj: int|
                0 <= bi < w2 && 0 <= bj < by + 1 implies vv@[bj * (w2 as int) + bi]
                == chroma_v_at(bgra@, width as int, bi, bj) by {
                if bj == by as int {
                    assert(vv@[(by as int) * (w2 as int) + bi] == chroma_v_at(
                        bgra@,
                        width as int,
                        bi,
                        by as int,
                    ));
                }
            }
        }
        by = by + 1;
        proof {
            assert(uv.len() == by * w2) by (nonlinear_arith)
                requires
                    uv.len() == (by - 1) * w2 + w2,
            ;
            assert(vv.len() == by * w2) by (nonlinear_arith)
                requires
                    vv.len() == (by - 1) * w2 + w2,
            ;
        }
    }

    proof {
        assert((width as int) * (height as int) / 4 == ((width as int) / 2) * ((height as int) / 2))
            by (nonlinear_arith)
            requires
                width % 2 == 0,
                height % 2 == 0,
        ;
        assert(uv.len() == (h2 as int) * (w2 as int));
        assert forall|bx: int, by: int|
            0 <= bx < width / 2 && 0 <= by < height / 2 implies uv@[by * ((width as int) / 2) + bx]
            == chroma_u_at(bgra@, width as int, bx, by) by {
            assert(uv@[by * (w2 as int) + bx] == chroma_u_at(bgra@, width as int, bx, by));
        }
        assert forall|bx: int, by: int|
            0 <= bx < width / 2 && 0 <= by < height / 2 implies vv@[by * ((width as int) / 2) + bx]
            == chroma_v_at(bgra@, width as int, bx, by) by {
            assert(vv@[by * (w2 as int) + bx] == chroma_v_at(bgra@, width as int, bx, by));
        }
    }
    Ok(I420Frame { width, height, y: yv, u: uv, v: vv })
}

/// The two chroma samples of one 2x2 block: the block's component sums
/// are averaged and fed to the BT.601 chroma formulas.
fn block_chroma(bgra: &[u8], width: u32, height: u32, n_px: usize, bx: usize, by: usize) -> (r: (
    u8,
    u8,
))
    requires
        n_px == (width as int) * (height as int),
        bgra@.len() == 4 * n_px,
        4 * n_px <= usize::MAX,
        width % 2 == 0,
        height % 2 == 0,
        bx < width / 2,
        by < height / 2,
    ensures
        r.0 == chroma_u_at(bgra@, width as int, bx as int, by as int),
        r.1 == chroma_v_at(bgra@, width as int, bx as int, by as int),
{
    proof {
        lemma_block_in_range(width as int, height as int, bx as int, by as int);
    }
    let w: usize = width as usize;
    let p00: usize = 2 * by * w + 2 * bx;
    let p01: usize = p00 + 1;
    let p10: usize = p00 + w;
    let p11: usize = p10 + 1;
    let sum_b: u32 = (bgra[4 * p00] as u32) + (bgra[4 * p01] as u32) + (bgra[4 * p10] as u32) + (
    bgra[4 * p11] as u32);
    let sum_g: u32 = (bgra[4 * p00 + 1] as u32) + (bgra[4 * p01 + 1] as u32) + (bgra[4 * p10 + 1]
        as u32) + (bgra[4 * p11 + 1] as u32);
    let sum_r: u32 = (bgra[4 * p00 + 2] as u32) + (bgra[4 * p01 + 2] as u32) + (bgra[4 * p10 + 2]
        as u32) + (bgra[4 * p11 + 2] as u32);
    let avg_b: u8 = (sum_b / 4) as u8;
    let avg_g: u8 = (sum_g / 4) as u8;
    let avg_r: u8 = (sum_r / 4) as u8;
    (yuv_u(avg_r, avg_g, avg_b), yuv_v(avg_r, avg_g, avg_b))
}

/// The four pixels of block `(bx, by)` lie inside a `w` by `h` frame.
proof fn lemma_block_in_range(w: int, h: int, bx: int, by: int)
    requires
        w % 2 == 0,
        h % 2 == 0,
        0 <= bx < w / 2,
        0 <= by < h / 2,
    ensures
        0 <= 2 * by * w + 2 * bx,
        (2 * by + 1) * w + 2 * bx + 1 < w * h,
        (2 * by + 1) * w + 2 * bx + 1 == (2 * by * w + 2 * bx) + w + 1,
        2 * by * w + 2 * bx + 1 < w * h,
{
    assert((2 * by + 1) * w + 2 * bx + 1 < w * h) by (nonlinear_arith)
        requires
            w % 2 == 0,
            h % 2 == 0,
            0 <= bx < w / 2,
            0 <= by < h / 2,
    ;
    assert((2 * by + 1) * w + 2 * bx + 1 == (2 * by * w + 2 * bx) + w + 1) by (nonlinear_arith);
    assert(2 * by * w >= 0) by (nonlinear_arith)
        requires
            by >= 0,
            w >= 0,
    ;
}

/// A contiguous I420 buffer can fill a `w` by `h` frame when it holds at
/// least the three planes and both dimensions are even.
pub open spec fn i420_copy_ok(len: int, w: int, h: int) -> bool {
    &&& w % 2 == 0
    &&& h % 2 == 0
    &&& len >= w * h + 2 * (w * h / 4)
}

/// Split a contiguous I420 buffer (Y plane, then U, then V) into an
/// owned frame.
///
/// Succeeds exactly when the buffer holds the three planes for even
/// dimensions; each plane of the result equals the corresponding range
/// of the input. Anything shorter fails with `BufferSizeMismatch`.
pub fn copy_i420_data(data: &[u8], width: u32, height: u32) -> (r: Result<I420Frame, CoreError>)
    ensures
        i420_copy_ok(data@.len() as int, width as int, height as int) ==> {
            &&& r is Ok
            &&& r->Ok_0.width == width
            &&& r->Ok_0.height == height
            &&& r->Ok_0.well_formed()
            &&& r->Ok_0.y@ == data@.subrange(0, width * height)
            &&& r->Ok_0.u@ == data@.subrange(
                width * height,
                width * height + width * height / 4,
            )
            &&& r->Ok_0.v@ == data@.subrange(
                width * height + width * height / 4,
                width * height + 2 * (width * height / 4),
            )
        },
        !i420_copy_ok(data@.len() as int, width as int, height as int) ==> r == Result::<
            I420Frame,
            CoreError,
        >::Err(CoreError::BufferSizeMismatch),
{
    if width % 2 != 0 || height % 2 != 0 {
        return Err(CoreError::BufferSizeMismatch);
    }
    proof {
        assert((width as int) * (height as int) <= 0xffff_ffff_ffff_ffff) by (nonlinear_arith)
            requires
                width <= 0xffff_ffffu32,
                height <= 0xffff_ffffu32,
        ;
    }
    let wh: u64 = (width as u64) * (height as u64);
    let quarter: u64 = wh / 4;
    let total: u128 = (wh as u128) + 2 * (quarter as u128);
    if (data.len() as u128) < total {
        return Err(CoreError::BufferSizeMismatch);
    }
    let y_size: usize = wh as usize;
    let uv_size: usize = quarter as usize;
    let dlen: usize = data.len();

    let mut yv: Vec<u8> = Vec::new();
    let mut i: usize = 0;
    while i < y_size
        invariant
            dlen == data@.len(),
            y_size + 2 * uv_size <= dlen,
            i <= y_size,
            yv.len() == i,
            forall|j: int| 0 <= j < i ==> yv[j] == data@[j],
        decreases y_size - i,
    {
        yv.push(data[i]);
        i = i + 1;
    }

    let mut uvec: Vec<u8> = Vec::new();
    let mut j: usize = 0;
    while j < uv_size
        invariant
            dlen == data@.len(),
            y_size + 2 * uv_size <= dlen,
            j <= uv_size,
            uvec.len() == j,
            forall|k: int| 0 <= k < j ==> uvec[k] == data@[y_size + k],
        decreases uv_size - j,
    {
        uvec.push(data[y_size + j]);
        j = j + 1;
    }

    let mut vvec: Vec<u8> = Vec::new();
    let mut k: usize = 0;
    while k < uv_size
        invariant
            dlen == data@.len(),
            y_size + 2 * uv_size <= dlen,
            k <= uv_size,
            vvec.len() == k,
            forall|m: int| 0 <= m < k ==> vvec[m] == data@[y_size + uv_size + m],
        decreases uv_size - k,
    {
        vvec.push(data[y_size + uv_size + k]);
        k = k + 1;
    }

    proof {
        assert(yv@ =~= data@.subrange(0, width * height));
        assert(uvec@ =~= data@.subrange(width * height, width * height + width * height / 4));
        assert(vvec@ =~= data@.subrange(
            width * height + width * height / 4,
            width * height + 2 * (width * height / 4),
        ));
    }
    Ok(I420Frame { width, height, y: yv, u: uvec, v: vvec })
}

/// A BGRA buffer filled with one color: every pixel of the `n_px`
/// row-major pixels has the same blue, green, and red bytes.
pub open spec fn solid_bgra(bgra: Seq<u8>, n_px: int, b: u8, g: u8, r: u8) -> bool {
    &&& bgra.len() == 4 * n_px
    &&& forall|p: int|
        0 <= p < n_px ==> px_b(bgra, p) == b && px_g(bgra, p) == g && px_r(bgra, p) == r
}

/// Law: on a solid-color BGRA buffer every luma sample is the BT.601
/// luma of that color, and every chroma sample is the BT.601 chroma of
/// that color (the block average of four equal pixels is the pixel).
///
/// Together with the ensures of [`bgra_to_i420`], which pins each output
/// sample to `luma_at` / `chroma_u_at` / `chroma_v_at`, this shows that
/// converting a solid frame yields constant planes.
#[verifier::spinoff_prover]
#[verifier::rlimit(100)]
pub proof fn lemma_solid_color(bgra: Seq<u8>, w: int, h: int, b: u8, g: u8, r: u8)
    requires
        w % 2 == 0,
        h % 2 == 0,
        w >= 0,
        h >= 0,
        solid_bgra(bgra, w * h, b, g, r),
    ensures
        forall|i: int| 0 <= i < w * h ==> luma_at(bgra, i) == y_of(r as int, g as int, b as int),
        forall|bx: int, by: int|
            0 <= bx < w / 2 && 0 <= by < h / 2 ==> chroma_u_at(bgra, w, bx, by) == u_of(
                r as int,
                g as int,
                b as int,
            ),
        forall|bx: int, by: int|
            0 <= bx < w / 2 && 0 <= by < h / 2 ==> chroma_v_at(bgra, w, bx, by) == v_of(
                r as int,
                g as int,
                b as int,
            ),
{
    assert forall|bx: int, by: int| 0 <= bx < w / 2 && 0 <= by < h / 2 implies chroma_u_at(
        bgra,
        w,
        bx,
        by,
    ) == u_of(r as int, g as int, b as int) && chroma_v_at(bgra, w, bx, by) == v_of(
        r as int,
        g as int,
        b as int,
    ) by {
        lemma_block_in_range(w, h, bx, by);
        assert(block_sum_r(bgra, w, bx, by) == 4 * (r as int));
        assert(block_sum_g(bgra, w, bx, by) == 4 * (g as int));
        assert(block_sum_b(bgra, w, bx, by) == 4 * (b as int));
    }
}

/// Round a dimension up to the nearest multiple of 16, as downstream
/// encoders require of capture targets.
///
/// The result is the smallest multiple of 16 that is at least `n`.
pub fn align_to_16(n: u32) -> (r: u32)
    requires
        n <= 0xffff_fff0,
    ensures
        r % 16 == 0,
        r >= n,
        r < n + 16,
{
    ((n + 15) / 16) * 16
}

/// Minimality of [`align_to_16`]: no smaller multiple of 16 reaches `n`.
///
/// Together with the ensures of `align_to_16` (`r % 16 == 0 && r >= n`),
/// this pins the result as the least multiple of 16 at or above `n`.
pub proof fn lemma_align_minimal(n: int, r: int, m: int)
    requires
        r % 16 == 0,
        r >= n,
        r < n + 16,
        m % 16 == 0,
        m >= n,
    ensures
        m >= r,
{
    if m < r {
        vstd::arithmetic::div_mod::lemma_fundamental_div_mod(r, 16);
        vstd::arithmetic::div_mod::lemma_fundamental_div_mod(m, 16);
        assert(m <= r - 16);
    }
}

} // verus!
