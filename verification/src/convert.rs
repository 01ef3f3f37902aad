//! Frame conversion: captured BGRA (or packed RGB) pixels, optionally
//! rotated, into the packed and planar layouts the adapter accepts.
use vstd::prelude::*;

use crate::color::{
    bgr_to_yuv, rgb_to_yuv, spec_bgr_to_yuv,
    spec_chroma_block, spec_new_accumulator, spec_push, spec_push_all, ChromaAccumulator,
    ChromaMode, YuvMatrix, YuvRange,
};
use crate::geometry::{
    align_usize, lemma_rotation_roundtrip, source_coordinate, spec_align,
    spec_rotated_size, spec_source_coordinate, Rotation,
};

verus! {

/// How the pixels of a source buffer are laid out: `width` x `height`
/// pixels of `bytes_per_pixel` bytes, rows `stride` bytes apart, red first
/// (RGB) or blue first (BGR/BGRA), and the rotation to apply.
#[derive(Clone, Copy, Debug, PartialEq, Eq)]
pub struct PixelLayout {
    pub width: usize,
    pub height: usize,
    pub stride: usize,
    pub bytes_per_pixel: usize,
    pub red_first: bool,
    pub rotation: Rotation,
}

/// Whether every pixel of the layout lies inside a buffer of `len` bytes.
pub open spec fn layout_covers(layout: PixelLayout, len: int) -> bool {
    &&& layout.bytes_per_pixel >= 3
    &&& (layout.width == 0 || layout.height == 0 || (layout.height - 1) * layout.stride
        + layout.width * layout.bytes_per_pixel <= len)
}

/// Width and height of the rotated output.
pub open spec fn out_size(layout: PixelLayout) -> (int, int) {
    spec_rotated_size(layout.width as int, layout.height as int, layout.rotation)
}

/// The `(r, g, b)` value of output pixel `(x, y)`: the source pixel that
/// the rotation brings there.
pub open spec fn spec_fetch_rgb(src: Seq<u8>, layout: PixelLayout, x: int, y: int) -> (u8, u8, u8) {
    let (sx, sy) = spec_source_coordinate(
        x,
        y,
        layout.width as int,
        layout.height as int,
        layout.rotation,
    );
    let o = sy * layout.stride + sx * layout.bytes_per_pixel;
    if layout.red_first {
        (src[o], src[o + 1], src[o + 2])
    } else {
        (src[o + 2], src[o + 1], src[o])
    }
}

/// The YUV value of output pixel `(x, y)`.
#[verifier::opaque]
pub open spec fn spec_pixel_yuv(
    src: Seq<u8>,
    layout: PixelLayout,
    matrix: YuvMatrix,
    range: YuvRange,
    x: int,
    y: int,
) -> (u8, u8, u8) {
    let (r, g, b) = spec_fetch_rgb(src, layout, x, y);
    spec_bgr_to_yuv(r, g, b, matrix, range)
}

/// The chroma sample chosen for the 2x2 block whose top-left output pixel
/// is `(x, y)`.
pub open spec fn spec_block_chroma(
    src: Seq<u8>,
    layout: PixelLayout,
    mode: ChromaMode,
    matrix: YuvMatrix,
    range: YuvRange,
    x: int,
    y: int,
) -> (u8, u8) {
    let p0 = spec_pixel_yuv(src, layout, matrix, range, x, y);
    let p1 = spec_pixel_yuv(src, layout, matrix, range, x + 1, y);
    let p2 = spec_pixel_yuv(src, layout, matrix, range, x, y + 1);
    let p3 = spec_pixel_yuv(src, layout, matrix, range, x + 1, y + 1);
    spec_chroma_block(mode, seq![p0.1, p1.1, p2.1, p3.1], seq![p0.2, p1.2, p2.2, p3.2])
}

/// The luma plane: `height` rows of `pitch` bytes, each the luma of the
/// output row followed by zero padding.
pub open spec fn spec_luma_plane(
    src: Seq<u8>,
    layout: PixelLayout,
    matrix: YuvMatrix,
    range: YuvRange,
    pitch: int,
) -> Seq<u8> {
    let (ow, oh) = out_size(layout);
    Seq::new(
        (pitch * oh) as nat,
        |k: int|
            if k % pitch < ow {
                spec_pixel_yuv(src, layout, matrix, range, k % pitch, k / pitch).0
            } else {
                0u8
            },
    )
}

/// The interleaved NV12 chroma plane: `height / 2` rows of `pitch` bytes,
/// each holding U and V of the blocks of the row pair in turn, then zero
/// padding.
pub open spec fn spec_nv12_chroma_plane(
    src: Seq<u8>,
    layout: PixelLayout,
    mode: ChromaMode,
    matrix: YuvMatrix,
    range: YuvRange,
    pitch: int,
) -> Seq<u8> {
    let (ow, oh) = out_size(layout);
    Seq::new(
        (pitch * (oh / 2)) as nat,
        |k: int|
            if k % pitch < ow {
                let chroma = spec_block_chroma(
                    src,
                    layout,
                    mode,
                    matrix,
                    range,
                    (k % pitch) / 2 * 2,
                    k / pitch * 2,
                );
                if (k % pitch) % 2 == 0 {
                    chroma.0
                } else {
                    chroma.1
                }
            } else {
                0u8
            },
    )
}

/// One planar (YV12) chroma plane: `height / 2` rows of `pitch` bytes,
/// each holding one component (`v` selects V over U) of the blocks of the
/// row pair, then zero padding.
pub open spec fn spec_planar_chroma_plane(
    src: Seq<u8>,
    layout: PixelLayout,
    mode: ChromaMode,
    matrix: YuvMatrix,
    range: YuvRange,
    pitch: int,
    v: bool,
) -> Seq<u8> {
    let (ow, oh) = out_size(layout);
    Seq::new(
        (pitch * (oh / 2)) as nat,
        |k: int|
            if k % pitch < ow / 2 {
                let chroma = spec_block_chroma(
                    src,
                    layout,
                    mode,
                    matrix,
                    range,
                    (k % pitch) * 2,
                    k / pitch * 2,
                );
                if v {
                    chroma.1
                } else {
                    chroma.0
                }
            } else {
                0u8
            },
    )
}

/// Packed output: three bytes per output pixel, row after row, each the
/// pixel's YUV (`yuv`) or its RGB.
pub open spec fn spec_packed_frame(
    src: Seq<u8>,
    layout: PixelLayout,
    yuv: bool,
    matrix: YuvMatrix,
    range: YuvRange,
) -> Seq<u8> {
    let (ow, oh) = out_size(layout);
    Seq::new(
        (ow * oh * 3) as nat,
        |k: int|
            {
                let p = k / 3;
                let c = k % 3;
                let value = if yuv {
                    spec_pixel_yuv(src, layout, matrix, range, p % ow, p / ow)
                } else {
                    spec_fetch_rgb(src, layout, p % ow, p / ow)
                };
                if c == 0 {
                    value.0
                } else if c == 1 {
                    value.1
                } else {
                    value.2
                }
            },
    )
}

pub(crate) proof fn lemma_row_major(k: int, r: int, c: int, pitch: int)
    requires
        pitch > 0,
        0 <= c < pitch,
        r >= 0,
        k == r * pitch + c,
    ensures
        k / pitch == r,
        k % pitch == c,
{
    vstd::arithmetic::div_mod::lemma_fundamental_div_mod_converse(k, pitch, r, c);
}

pub(crate) proof fn lemma_row_bound(r: int, c: int, pitch: int, rows: int)
    requires
        pitch > 0,
        0 <= c < pitch,
        0 <= r < rows,
    ensures
        r * pitch + c < pitch * rows,
        0 <= r * pitch + c,
        (r + 1) * pitch == r * pitch + pitch,
{
    assert(r * pitch + c < pitch * rows) by (nonlinear_arith)
        requires
            pitch > 0,
            0 <= c < pitch,
            0 <= r < rows,
    ;
    assert(0 <= r * pitch) by (nonlinear_arith)
        requires
            pitch > 0,
            r >= 0,
    ;
    assert((r + 1) * pitch == r * pitch + pitch) by (nonlinear_arith);
}

/// The `(r, g, b)` value of output pixel `(x, y)`.
fn fetch_rgb(src: &[u8], layout: &PixelLayout, x: usize, y: usize) -> (out: (u8, u8, u8))
    requires
        layout_covers(*layout, src@.len() as int),
        x < out_size(*layout).0,
        y < out_size(*layout).1,
    ensures
        out == spec_fetch_rgb(src@, *layout, x as int, y as int),
{
    proof {
        lemma_rotation_roundtrip(
            x as int,
            y as int,
            layout.width as int,
            layout.height as int,
            layout.rotation,
        );
    }
    let (sx, sy) = source_coordinate(x, y, layout.width, layout.height, layout.rotation);
    proof {
        let w = layout.width as int;
        let h = layout.height as int;
        let s = layout.stride as int;
        let b = layout.bytes_per_pixel as int;
        assert(sy * s + sx * b + b <= (h - 1) * s + w * b) by (nonlinear_arith)
            requires
                0 <= sy < h,
                0 <= sx < w,
                s >= 0,
                b >= 0,
        ;
        assert(0 <= sy * s && 0 <= sx * b) by (nonlinear_arith)
            requires
                0 <= sy,
                0 <= sx,
                s >= 0,
                b >= 0,
        ;
    }
    let len = src.len();
    proof {
        assert(len == src@.len());
    }
    let o = sy * layout.stride + sx * layout.bytes_per_pixel;
    if layout.red_first {
        (src[o], src[o + 1], src[o + 2])
    } else {
        (src[o + 2], src[o + 1], src[o])
    }
}

/// The YUV value of output pixel `(x, y)`.
fn pixel_yuv(
    src: &[u8],
    layout: &PixelLayout,
    matrix: YuvMatrix,
    range: YuvRange,
    x: usize,
    y: usize,
) -> (out: (u8, u8, u8))
    requires
        layout_covers(*layout, src@.len() as int),
        x < out_size(*layout).0,
        y < out_size(*layout).1,
    ensures
        out == spec_pixel_yuv(src@, *layout, matrix, range, x as int, y as int),
{
    let (r, g, b) = fetch_rgb(src, layout, x, y);
    proof {
        reveal(spec_pixel_yuv);
    }
    bgr_to_yuv(r, g, b, matrix, range)
}

/// The chroma sample of the 2x2 block whose top-left output pixel is
/// `(x, y)`.
fn block_chroma(
    src: &[u8],
    layout: &PixelLayout,
    mode: ChromaMode,
    matrix: YuvMatrix,
    range: YuvRange,
    x: usize,
    y: usize,
) -> (out: (u8, u8))
    requires
        layout_covers(*layout, src@.len() as int),
        x + 1 < out_size(*layout).0,
        y + 1 < out_size(*layout).1,
    ensures
        out == spec_block_chroma(src@, *layout, mode, matrix, range, x as int, y as int),
{
    let p0 = pixel_yuv(src, layout, matrix, range, x, y);
    let p1 = pixel_yuv(src, layout, matrix, range, x + 1, y);
    let p2 = pixel_yuv(src, layout, matrix, range, x, y + 1);
    let p3 = pixel_yuv(src, layout, matrix, range, x + 1, y + 1);
    let mut acc = ChromaAccumulator::new(mode);
    let ghost a0 = acc;
    proof {
        lemma_push_fields(a0, p0.1, p0.2);
    }
    acc.push(p0.1, p0.2);
    let ghost a1 = acc;
    proof {
        lemma_push_fields(a1, p1.1, p1.2);
    }
    acc.push(p1.1, p1.2);
    let ghost a2 = acc;
    proof {
        lemma_push_fields(a2, p2.1, p2.2);
    }
    acc.push(p2.1, p2.2);
    let ghost a3 = acc;
    proof {
        lemma_push_fields(a3, p3.1, p3.2);
    }
    acc.push(p3.1, p3.2);
    proof {
        lemma_push_four(mode, seq![p0.1, p1.1, p2.1, p3.1], seq![p0.2, p1.2, p2.2, p3.2]);
    }
    acc.finish()
}

proof fn lemma_push_fields(acc: ChromaAccumulator, u: u8, v: u8)
    requires
        acc.count + 1 <= u16::MAX,
        acc.u_sum + u <= u16::MAX,
        acc.v_sum + v <= u16::MAX,
    ensures
        spec_push(acc, u, v).count == acc.count + 1,
        spec_push(acc, u, v).u_sum == acc.u_sum + u,
        spec_push(acc, u, v).v_sum == acc.v_sum + v,
        spec_push(acc, u, v).mode == acc.mode,
{
}

proof fn lemma_push_four(mode: ChromaMode, us: Seq<u8>, vs: Seq<u8>)
    requires
        us.len() == 4,
        vs.len() == 4,
    ensures
        spec_chroma_block(mode, us, vs) == crate::color::spec_finish(
            spec_push(
                spec_push(
                    spec_push(spec_push(spec_new_accumulator(mode), us[0], vs[0]), us[1], vs[1]),
                    us[2],
                    vs[2],
                ),
                us[3],
                vs[3],
            ),
        ),
{
    reveal_with_fuel(spec_push_all, 5);
    assert(us.drop_last().drop_last().drop_last().drop_last() =~= Seq::<u8>::empty());
    assert(vs.drop_last().drop_last().drop_last().drop_last() =~= Seq::<u8>::empty());
}

/// Appends the luma plane.
fn emit_luma_plane(
    out: &mut Vec<u8>,
    src: &[u8],
    layout: &PixelLayout,
    matrix: YuvMatrix,
    range: YuvRange,
    pitch: usize,
)
    requires
        layout_covers(*layout, src@.len() as int),
        pitch >= out_size(*layout).0,
        pitch * out_size(*layout).1 <= usize::MAX,
    ensures
        final(out)@ == old(out)@ + spec_luma_plane(src@, *layout, matrix, range, pitch as int),
{
    let (ow, oh) = crate::geometry::rotated_size(layout.width, layout.height, layout.rotation);
    let ghost plane = spec_luma_plane(src@, *layout, matrix, range, pitch as int);
    let ghost start = old(out)@;
    let mut y: usize = 0;
    while y < oh
        invariant
            ow == out_size(*layout).0,
            oh == out_size(*layout).1,
            layout_covers(*layout, src@.len() as int),
            pitch >= ow,
            plane == spec_luma_plane(src@, *layout, matrix, range, pitch as int),
            0 <= y <= oh,
            out@ == start + plane.take(y * pitch),
        decreases oh - y,
    {
        let mut x: usize = 0;
        while x < pitch
            invariant
                ow == out_size(*layout).0,
                oh == out_size(*layout).1,
                layout_covers(*layout, src@.len() as int),
                pitch >= ow,
                plane == spec_luma_plane(src@, *layout, matrix, range, pitch as int),
                0 <= y < oh,
                0 <= x <= pitch,
                out@ == start + plane.take(y * pitch + x),
            decreases pitch - x,
        {
            proof {
                lemma_row_major(y * pitch + x, y as int, x as int, pitch as int);
                lemma_row_bound(y as int, x as int, pitch as int, oh as int);
            }
            let value = if x < ow {
                pixel_yuv(src, layout, matrix, range, x, y).0
            } else {
                0u8
            };
            out.push(value);
            proof {
                assert(plane.take(y * pitch + x + 1) =~= plane.take(y * pitch + x).push(
                    plane[y * pitch + x],
                ));
            }
            x = x + 1;
        }
        proof {
            assert((y + 1) * pitch == y * pitch + pitch) by (nonlinear_arith);
        }
        y = y + 1;
    }
    proof {
        assert(plane.take(oh * pitch) =~= plane) by {
            assert(oh * pitch == pitch * oh) by (nonlinear_arith);
        }
    }
}

/// Appends the interleaved NV12 chroma plane.
fn emit_nv12_chroma_plane(
    out: &mut Vec<u8>,
    src: &[u8],
    layout: &PixelLayout,
    mode: ChromaMode,
    matrix: YuvMatrix,
    range: YuvRange,
    pitch: usize,
)
    requires
        layout_covers(*layout, src@.len() as int),
        out_size(*layout).0 % 2 == 0,
        out_size(*layout).1 % 2 == 0,
        pitch >= out_size(*layout).0,
    ensures
        final(out)@ == old(out)@ + spec_nv12_chroma_plane(
            src@,
            *layout,
            mode,
            matrix,
            range,
            pitch as int,
        ),
{
    let (ow, oh) = crate::geometry::rotated_size(layout.width, layout.height, layout.rotation);
    let rows = oh / 2;
    let ghost plane = spec_nv12_chroma_plane(src@, *layout, mode, matrix, range, pitch as int);
    let ghost start = old(out)@;
    let mut r: usize = 0;
    while r < rows
        invariant
            ow == out_size(*layout).0,
            oh == out_size(*layout).1,
            ow % 2 == 0,
            oh % 2 == 0,
            rows == oh / 2,
            layout_covers(*layout, src@.len() as int),
            pitch >= ow,
            plane == spec_nv12_chroma_plane(src@, *layout, mode, matrix, range, pitch as int),
            0 <= r <= rows,
            out@ == start + plane.take(r * pitch),
        decreases rows - r,
    {
        let mut saved: (u8, u8) = (0, 0);
        let mut c: usize = 0;
        while c < pitch
            invariant
                ow == out_size(*layout).0,
                oh == out_size(*layout).1,
                ow % 2 == 0,
                oh % 2 == 0,
                rows == oh / 2,
                layout_covers(*layout, src@.len() as int),
                pitch >= ow,
                plane == spec_nv12_chroma_plane(src@, *layout, mode, matrix, range, pitch as int),
                0 <= r < rows,
                0 <= c <= pitch,
                c % 2 == 1 && c < ow ==> saved == spec_block_chroma(
                    src@,
                    *layout,
                    mode,
                    matrix,
                    range,
                    c - 1,
                    r * 2,
                ),
                out@ == start + plane.take(r * pitch + c),
            decreases pitch - c,
        {
            proof {
                lemma_row_major(r * pitch + c, r as int, c as int, pitch as int);
                lemma_row_bound(r as int, c as int, pitch as int, rows as int);
            }
            let value = if c < ow {
                if c % 2 == 0 {
                    saved = block_chroma(src, layout, mode, matrix, range, c, r * 2);
                    saved.0
                } else {
                    saved.1
                }
            } else {
                0u8
            };
            out.push(value);
            proof {
                assert(plane.take(r * pitch + c + 1) =~= plane.take(r * pitch + c).push(
                    plane[r * pitch + c],
                ));
            }
            c = c + 1;
        }
        proof {
            assert((r + 1) * pitch == r * pitch + pitch) by (nonlinear_arith);
        }
        r = r + 1;
    }
    proof {
        assert(plane.take(rows * pitch) =~= plane) by {
            assert(rows * pitch == pitch * rows) by (nonlinear_arith);
        }
    }
}

/// Appends the two planar (YV12) chroma planes, U to `u_out` and V to
/// `v_out`.
fn emit_planar_chroma_planes(
    u_out: &mut Vec<u8>,
    v_out: &mut Vec<u8>,
    src: &[u8],
    layout: &PixelLayout,
    mode: ChromaMode,
    matrix: YuvMatrix,
    range: YuvRange,
    pitch: usize,
)
    requires
        layout_covers(*layout, src@.len() as int),
        out_size(*layout).0 % 2 == 0,
        out_size(*layout).1 % 2 == 0,
        pitch >= out_size(*layout).0 / 2,
    ensures
        final(u_out)@ == old(u_out)@ + spec_planar_chroma_plane(
            src@,
            *layout,
            mode,
            matrix,
            range,
            pitch as int,
            false,
        ),
        final(v_out)@ == old(v_out)@ + spec_planar_chroma_plane(
            src@,
            *layout,
            mode,
            matrix,
            range,
            pitch as int,
            true,
        ),
{
    let (ow, oh) = crate::geometry::rotated_size(layout.width, layout.height, layout.rotation);
    let rows = oh / 2;
    let half = ow / 2;
    let ghost u_plane = spec_planar_chroma_plane(
        src@,
        *layout,
        mode,
        matrix,
        range,
        pitch as int,
        false,
    );
    let ghost v_plane = spec_planar_chroma_plane(
        src@,
        *layout,
        mode,
        matrix,
        range,
        pitch as int,
        true,
    );
    let ghost u_start = old(u_out)@;
    let ghost v_start = old(v_out)@;
    let mut r: usize = 0;
    while r < rows
        invariant
            ow == out_size(*layout).0,
            oh == out_size(*layout).1,
            ow % 2 == 0,
            oh % 2 == 0,
            rows == oh / 2,
            half == ow / 2,
            layout_covers(*layout, src@.len() as int),
            pitch >= half,
            u_plane == spec_planar_chroma_plane(src@, *layout, mode, matrix, range, pitch as int, false),
            v_plane == spec_planar_chroma_plane(src@, *layout, mode, matrix, range, pitch as int, true),
            0 <= r <= rows,
            u_out@ == u_start + u_plane.take(r * pitch),
            v_out@ == v_start + v_plane.take(r * pitch),
        decreases rows - r,
    {
        let mut c: usize = 0;
        while c < pitch
            invariant
                ow == out_size(*layout).0,
                oh == out_size(*layout).1,
                ow % 2 == 0,
                oh % 2 == 0,
                rows == oh / 2,
                half == ow / 2,
                layout_covers(*layout, src@.len() as int),
                pitch >= half,
                u_plane == spec_planar_chroma_plane(src@, *layout, mode, matrix, range, pitch as int, false),
                v_plane == spec_planar_chroma_plane(src@, *layout, mode, matrix, range, pitch as int, true),
                0 <= r < rows,
                0 <= c <= pitch,
                u_out@ == u_start + u_plane.take(r * pitch + c),
                v_out@ == v_start + v_plane.take(r * pitch + c),
            decreases pitch - c,
        {
            proof {
                lemma_row_major(r * pitch + c, r as int, c as int, pitch as int);
                lemma_row_bound(r as int, c as int, pitch as int, rows as int);
            }
            let (u, v) = if c < half {
                block_chroma(src, layout, mode, matrix, range, c * 2, r * 2)
            } else {
                (0u8, 0u8)
            };
            u_out.push(u);
            v_out.push(v);
            proof {
                assert(u_plane.take(r * pitch + c + 1) =~= u_plane.take(r * pitch + c).push(
                    u_plane[r * pitch + c],
                ));
                assert(v_plane.take(r * pitch + c + 1) =~= v_plane.take(r * pitch + c).push(
                    v_plane[r * pitch + c],
                ));
            }
            c = c + 1;
        }
        proof {
            assert((r + 1) * pitch == r * pitch + pitch) by (nonlinear_arith);
        }
        r = r + 1;
    }
    proof {
        assert(rows * pitch == pitch * rows) by (nonlinear_arith);
        assert(u_plane.take(rows * pitch) =~= u_plane);
        assert(v_plane.take(rows * pitch) =~= v_plane);
    }
}

/// Appends the packed frame: three bytes per output pixel.
fn emit_packed(
    out: &mut Vec<u8>,
    src: &[u8],
    layout: &PixelLayout,
    yuv: bool,
    matrix: YuvMatrix,
    range: YuvRange,
)
    requires
        layout_covers(*layout, src@.len() as int),
        out_size(*layout).0 * out_size(*layout).1 * 3 <= usize::MAX,
    ensures
        final(out)@ == old(out)@ + spec_packed_frame(src@, *layout, yuv, matrix, range),
{
    let (ow, oh) = crate::geometry::rotated_size(layout.width, layout.height, layout.rotation);
    let ghost plane = spec_packed_frame(src@, *layout, yuv, matrix, range);
    let ghost start = old(out)@;
    let mut y: usize = 0;
    while y < oh
        invariant
            ow == out_size(*layout).0,
            oh == out_size(*layout).1,
            layout_covers(*layout, src@.len() as int),
            plane == spec_packed_frame(src@, *layout, yuv, matrix, range),
            ow * oh * 3 <= usize::MAX,
            0 <= y <= oh,
            out@ == start + plane.take(y * ow * 3),
        decreases oh - y,
    {
        let mut x: usize = 0;
        while x < ow
            invariant
                ow == out_size(*layout).0,
                oh == out_size(*layout).1,
                layout_covers(*layout, src@.len() as int),
                plane == spec_packed_frame(src@, *layout, yuv, matrix, range),
                ow * oh * 3 <= usize::MAX,
                0 <= y < oh,
                0 <= x <= ow,
                out@ == start + plane.take((y * ow + x) * 3),
            decreases ow - x,
        {
            proof {
                lemma_row_bound(y as int, x as int, ow as int, oh as int);
                assert(ow * oh <= ow * oh * 3) by (nonlinear_arith)
                    requires
                        ow >= 0,
                        oh >= 0,
                ;
            }
            let p = y * ow + x;
            proof {
                lemma_row_major(p as int, y as int, x as int, ow as int);
                lemma_row_major(p * 3, p as int, 0, 3);
                lemma_row_major(p * 3 + 1, p as int, 1, 3);
                lemma_row_major(p * 3 + 2, p as int, 2, 3);
                assert(p * 3 + 3 <= ow * oh * 3) by (nonlinear_arith)
                    requires
                        p < ow * oh,
                ;
                assert(ow * oh == oh * ow) by (nonlinear_arith);
            }
            let value = if yuv {
                pixel_yuv(src, layout, matrix, range, x, y)
            } else {
                fetch_rgb(src, layout, x, y)
            };
            out.push(value.0);
            out.push(value.1);
            out.push(value.2);
            proof {
                assert(plane.take(p * 3 + 3) =~= plane.take(p * 3).push(plane[p * 3]).push(
                    plane[p * 3 + 1],
                ).push(plane[p * 3 + 2]));
                assert((y * ow + x + 1) * 3 == p * 3 + 3);
            }
            x = x + 1;
        }
        proof {
            assert((y * ow + ow) * 3 == (y + 1) * ow * 3) by (nonlinear_arith);
        }
        y = y + 1;
    }
    proof {
        assert(oh * ow * 3 == ow * oh * 3) by (nonlinear_arith);
        assert(plane.take(oh * ow * 3) =~= plane);
    }
}

/// Layout of a BGRA capture buffer.
pub open spec fn bgra_layout(width: usize, height: usize, stride: usize, rotation: Rotation) -> PixelLayout {
    PixelLayout { width, height, stride, bytes_per_pixel: 4, red_first: false, rotation }
}

/// Layout of a tightly packed RGB buffer, unrotated.
pub open spec fn rgb_layout(width: usize, height: usize) -> PixelLayout {
    PixelLayout {
        width,
        height,
        stride: (width * 3) as usize,
        bytes_per_pixel: 3,
        red_first: true,
        rotation: Rotation::Deg0,
    }
}

/// NV12 output: the luma plane and the interleaved chroma plane, both with
/// the output width rounded up to 16 as pitch.
pub open spec fn spec_nv12_frame(
    src: Seq<u8>,
    layout: PixelLayout,
    mode: ChromaMode,
    matrix: YuvMatrix,
    range: YuvRange,
) -> Seq<u8> {
    let pitch = spec_align(out_size(layout).0, 16);
    spec_luma_plane(src, layout, matrix, range, pitch) + spec_nv12_chroma_plane(
        src,
        layout,
        mode,
        matrix,
        range,
        pitch,
    )
}

/// YV12 output: the luma plane (pitch: output width rounded up to 16),
/// then the U plane and the V plane (pitch: half the output width rounded
/// up to 16).
pub open spec fn spec_yv12_frame(
    src: Seq<u8>,
    layout: PixelLayout,
    mode: ChromaMode,
    matrix: YuvMatrix,
    range: YuvRange,
) -> Seq<u8> {
    let y_pitch = spec_align(out_size(layout).0, 16);
    let uv_pitch = spec_align(out_size(layout).0 / 2, 16);
    spec_luma_plane(src, layout, matrix, range, y_pitch) + spec_planar_chroma_plane(
        src,
        layout,
        mode,
        matrix,
        range,
        uv_pitch,
        false,
    ) + spec_planar_chroma_plane(src, layout, mode, matrix, range, uv_pitch, true)
}

/// Whether the NV12 planes of a `width` x `height` output fit in memory.
pub open spec fn nv12_fits(width: int, height: int) -> bool {
    let pitch = spec_align(width, 16);
    pitch <= usize::MAX && pitch * height + pitch * (height / 2) <= usize::MAX
}

/// Whether the YV12 planes of a `width` x `height` output fit in memory.
pub open spec fn yv12_fits(width: int, height: int) -> bool {
    let y_pitch = spec_align(width, 16);
    let uv_pitch = spec_align(width / 2, 16);
    y_pitch <= usize::MAX && uv_pitch <= usize::MAX && y_pitch * height + 2 * (uv_pitch * (
    height / 2)) <= usize::MAX
}

proof fn lemma_align16_facts(width: int)
    requires
        width >= 0,
    ensures
        spec_align(width, 16) >= width,
        spec_align(width, 16) > 0 || width == 0,
        spec_align(width, 16) >= 0,
{
    crate::geometry::lemma_align_facts_pub(width, 16);
}

fn nv12_from(
    src: &[u8],
    layout: &PixelLayout,
    mode: ChromaMode,
    matrix: YuvMatrix,
    range: YuvRange,
) -> (out: Vec<u8>)
    requires
        layout_covers(*layout, src@.len() as int),
        out_size(*layout).0 % 2 == 0,
        out_size(*layout).1 % 2 == 0,
        nv12_fits(out_size(*layout).0, out_size(*layout).1),
    ensures
        out@ == spec_nv12_frame(src@, *layout, mode, matrix, range),
{
    let (ow, oh) = crate::geometry::rotated_size(layout.width, layout.height, layout.rotation);
    proof {
        lemma_align16_facts(ow as int);
        let p = spec_align(ow as int, 16);
        assert(p * oh >= 0 && p * (oh / 2) >= 0) by (nonlinear_arith)
            requires
                p >= 0,
                oh >= 0,
        ;
    }
    let pitch = align_usize(ow, 16);
    let mut out: Vec<u8> = Vec::new();
    emit_luma_plane(&mut out, src, layout, matrix, range, pitch);
    emit_nv12_chroma_plane(&mut out, src, layout, mode, matrix, range, pitch);
    proof {
        assert(out@ =~= spec_nv12_frame(src@, *layout, mode, matrix, range));
    }
    out
}

fn yv12_from(
    src: &[u8],
    layout: &PixelLayout,
    mode: ChromaMode,
    matrix: YuvMatrix,
    range: YuvRange,
) -> (out: Vec<u8>)
    requires
        layout_covers(*layout, src@.len() as int),
        out_size(*layout).0 % 2 == 0,
        out_size(*layout).1 % 2 == 0,
        yv12_fits(out_size(*layout).0, out_size(*layout).1),
    ensures
        out@ == spec_yv12_frame(src@, *layout, mode, matrix, range),
{
    let (ow, oh) = crate::geometry::rotated_size(layout.width, layout.height, layout.rotation);
    proof {
        lemma_align16_facts(ow as int);
        lemma_align16_facts(ow as int / 2);
        let p = spec_align(ow as int, 16);
        let q = spec_align(ow as int / 2, 16);
        assert(p * oh >= 0 && q * (oh / 2) >= 0) by (nonlinear_arith)
            requires
                p >= 0,
                q >= 0,
                oh >= 0,
        ;
    }
    let y_pitch = align_usize(ow, 16);
    let uv_pitch = align_usize(ow / 2, 16);
    let mut out: Vec<u8> = Vec::new();
    emit_luma_plane(&mut out, src, layout, matrix, range, y_pitch);
    let mut u_plane: Vec<u8> = Vec::new();
    let mut v_plane: Vec<u8> = Vec::new();
    emit_planar_chroma_planes(&mut u_plane, &mut v_plane, src, layout, mode, matrix, range, uv_pitch);
    crate::bytes::append_slice(&mut out, u_plane.as_slice());
    crate::bytes::append_slice(&mut out, v_plane.as_slice());
    proof {
        assert(out@ =~= spec_yv12_frame(src@, *layout, mode, matrix, range));
    }
    out
}

/// Converts a BGRA capture, rotated, to packed YUV 4:4:4.
pub fn bgra_to_yuv444(
    bgra: &[u8],
    width: usize,
    height: usize,
    stride: usize,
    rotation: Rotation,
    matrix: YuvMatrix,
    range: YuvRange,
) -> (out: Vec<u8>)
    requires
        layout_covers(bgra_layout(width, height, stride, rotation), bgra@.len() as int),
        width * height * 3 <= usize::MAX,
    ensures
        out@ == spec_packed_frame(
            bgra@,
            bgra_layout(width, height, stride, rotation),
            true,
            matrix,
            range,
        ),
{
    let layout = PixelLayout {
        width,
        height,
        stride,
        bytes_per_pixel: 4,
        red_first: false,
        rotation,
    };
    proof {
        assert(height * width * 3 == width * height * 3) by (nonlinear_arith);
    }
    let mut out: Vec<u8> = Vec::new();
    emit_packed(&mut out, bgra, &layout, true, matrix, range);
    out
}

/// Converts a BGRA capture, rotated, to NV12; fails when the rotated
/// frame has an odd width or height.
pub fn bgra_to_nv12(
    bgra: &[u8],
    width: usize,
    height: usize,
    stride: usize,
    rotation: Rotation,
    chroma_mode: ChromaMode,
    matrix: YuvMatrix,
    range: YuvRange,
) -> (out: Result<Vec<u8>, String>)
    requires
        layout_covers(bgra_layout(width, height, stride, rotation), bgra@.len() as int),
        width % 2 == 0 && height % 2 == 0 ==> nv12_fits(
            out_size(bgra_layout(width, height, stride, rotation)).0,
            out_size(bgra_layout(width, height, stride, rotation)).1,
        ),
    ensures
        out is Err <==> width % 2 != 0 || height % 2 != 0,
        out matches Err(e) ==> e@ == "NV12 requires even output width and height"@,
        out matches Ok(v) ==> v@ == spec_nv12_frame(
            bgra@,
            bgra_layout(width, height, stride, rotation),
            chroma_mode,
            matrix,
            range,
        ),
{
    let layout = PixelLayout {
        width,
        height,
        stride,
        bytes_per_pixel: 4,
        red_first: false,
        rotation,
    };
    let (output_width, output_height) = crate::geometry::rotated_size(width, height, rotation);
    if output_width % 2 != 0 || output_height % 2 != 0 {
        return Err(String::from_str("NV12 requires even output width and height"));
    }
    Ok(nv12_from(bgra, &layout, chroma_mode, matrix, range))
}

/// Converts a BGRA capture, rotated, to YV12; fails when the rotated
/// frame has an odd width or height.
pub fn bgra_to_yv12(
    bgra: &[u8],
    width: usize,
    height: usize,
    stride: usize,
    rotation: Rotation,
    chroma_mode: ChromaMode,
    matrix: YuvMatrix,
    range: YuvRange,
) -> (out: Result<Vec<u8>, String>)
    requires
        layout_covers(bgra_layout(width, height, stride, rotation), bgra@.len() as int),
        width % 2 == 0 && height % 2 == 0 ==> yv12_fits(
            out_size(bgra_layout(width, height, stride, rotation)).0,
            out_size(bgra_layout(width, height, stride, rotation)).1,
        ),
    ensures
        out is Err <==> width % 2 != 0 || height % 2 != 0,
        out matches Err(e) ==> e@ == "YV12 requires even output width and height"@,
        out matches Ok(v) ==> v@ == spec_yv12_frame(
            bgra@,
            bgra_layout(width, height, stride, rotation),
            chroma_mode,
            matrix,
            range,
        ),
{
    let layout = PixelLayout {
        width,
        height,
        stride,
        bytes_per_pixel: 4,
        red_first: false,
        rotation,
    };
    let (output_width, output_height) = crate::geometry::rotated_size(width, height, rotation);
    if output_width % 2 != 0 || output_height % 2 != 0 {
        return Err(String::from_str("YV12 requires even output width and height"));
    }
    Ok(yv12_from(bgra, &layout, chroma_mode, matrix, range))
}

/// Converts packed RGB to NV12 (full-range BT.601, averaged chroma); fails
/// for an odd width or height.
pub fn rgb_to_nv12(rgb: &[u8], width: u16, height: u16) -> (out: Result<Vec<u8>, String>)
    requires
        rgb@.len() >= width * height * 3,
        width % 2 == 0 && height % 2 == 0 ==> nv12_fits(width as int, height as int),
    ensures
        out is Err <==> width % 2 != 0 || height % 2 != 0,
        out matches Err(e) ==> e@ == "NV12 requires even width and height"@,
        out matches Ok(v) ==> v@ == spec_nv12_frame(
            rgb@,
            rgb_layout(width as usize, height as usize),
            ChromaMode::Average,
            YuvMatrix::Bt601,
            YuvRange::Full,
        ),
{
    let width = width as usize;
    let height = height as usize;
    if width % 2 != 0 || height % 2 != 0 {
        return Err(String::from_str("NV12 requires even width and height"));
    }
    let layout = PixelLayout {
        width,
        height,
        stride: width * 3,
        bytes_per_pixel: 3,
        red_first: true,
        rotation: Rotation::Deg0,
    };
    proof {
        lemma_small_frame_fits(width as int, height as int);
    }
    Ok(nv12_from(rgb, &layout, ChromaMode::Average, YuvMatrix::Bt601, YuvRange::Full))
}

/// Converts packed RGB to YV12 (full-range BT.601, averaged chroma); fails
/// for an odd width or height.
pub fn rgb_to_yv12(rgb: &[u8], width: u16, height: u16) -> (out: Result<Vec<u8>, String>)
    requires
        rgb@.len() >= width * height * 3,
        width % 2 == 0 && height % 2 == 0 ==> yv12_fits(width as int, height as int),
    ensures
        out is Err <==> width % 2 != 0 || height % 2 != 0,
        out matches Err(e) ==> e@ == "YV12 requires even width and height"@,
        out matches Ok(v) ==> v@ == spec_yv12_frame(
            rgb@,
            rgb_layout(width as usize, height as usize),
            ChromaMode::Average,
            YuvMatrix::Bt601,
            YuvRange::Full,
        ),
{
    let width = width as usize;
    let height = height as usize;
    if width % 2 != 0 || height % 2 != 0 {
        return Err(String::from_str("YV12 requires even width and height"));
    }
    let layout = PixelLayout {
        width,
        height,
        stride: width * 3,
        bytes_per_pixel: 3,
        red_first: true,
        rotation: Rotation::Deg0,
    };
    proof {
        lemma_small_frame_fits(width as int, height as int);
    }
    Ok(yv12_from(rgb, &layout, ChromaMode::Average, YuvMatrix::Bt601, YuvRange::Full))
}

proof fn lemma_small_frame_fits(width: int, height: int)
    requires
        0 <= width <= 65535,
        0 <= height <= 65535,
    ensures
        (height - 1) * (width * 3) + width * 3 == width * height * 3,
{
    assert((height - 1) * (width * 3) + width * 3 == width * height * 3) by (nonlinear_arith);
}

/// Copies a BGRA capture, rotated, into packed RGB in `rgb`.
pub fn copy_bgra_to_rgb_bytes(
    bgra: &[u8],
    width: usize,
    height: usize,
    stride: usize,
    rotation: Rotation,
    rgb: &mut Vec<u8>,
)
    requires
        layout_covers(bgra_layout(width, height, stride, rotation), bgra@.len() as int),
        width * height * 3 <= usize::MAX,
    ensures
        final(rgb)@ == spec_packed_frame(
            bgra@,
            bgra_layout(width, height, stride, rotation),
            false,
            YuvMatrix::Bt601,
            YuvRange::Full,
        ),
{
    let layout = PixelLayout {
        width,
        height,
        stride,
        bytes_per_pixel: 4,
        red_first: false,
        rotation,
    };
    proof {
        assert(height * width * 3 == width * height * 3) by (nonlinear_arith);
    }
    rgb.clear();
    emit_packed(rgb, bgra, &layout, false, YuvMatrix::Bt601, YuvRange::Full);
    proof {
        assert(rgb@ =~= spec_packed_frame(
            bgra@,
            bgra_layout(width, height, stride, rotation),
            false,
            YuvMatrix::Bt601,
            YuvRange::Full,
        ));
    }
}

/// Mean U and V (full-range BT.601, rounded down) of the 2x2 block at
/// `(x, y)` of packed RGB rows `width` pixels wide.
pub open spec fn spec_average_uv_2x2(rgb: Seq<u8>, width: int, x: int, y: int) -> (u8, u8) {
    let o0 = (y * width + x) * 3;
    let o1 = (y * width + x + 1) * 3;
    let o2 = ((y + 1) * width + x) * 3;
    let o3 = ((y + 1) * width + x + 1) * 3;
    let p0 = spec_bgr_to_yuv(rgb[o0], rgb[o0 + 1], rgb[o0 + 2], YuvMatrix::Bt601, YuvRange::Full);
    let p1 = spec_bgr_to_yuv(rgb[o1], rgb[o1 + 1], rgb[o1 + 2], YuvMatrix::Bt601, YuvRange::Full);
    let p2 = spec_bgr_to_yuv(rgb[o2], rgb[o2 + 1], rgb[o2 + 2], YuvMatrix::Bt601, YuvRange::Full);
    let p3 = spec_bgr_to_yuv(rgb[o3], rgb[o3 + 1], rgb[o3 + 2], YuvMatrix::Bt601, YuvRange::Full);
    (
        ((p0.1 + p1.1 + p2.1 + p3.1) / 4) as u8,
        ((p0.2 + p1.2 + p2.2 + p3.2) / 4) as u8,
    )
}

/// Mean U and V of the 2x2 block at `(x, y)` of packed RGB.
pub fn average_uv_2x2(rgb: &[u8], width: usize, x: usize, y: usize) -> (out: (u8, u8))
    requires
        y + 1 <= usize::MAX,
        ((y + 1) * width + x + 1) * 3 + 3 <= rgb@.len(),
    ensures
        out == spec_average_uv_2x2(rgb@, width as int, x as int, y as int),
{
    let len = rgb.len();
    proof {
        assert(len == rgb@.len());
        assert(0 <= y * width <= (y + 1) * width) by (nonlinear_arith)
            requires
                y >= 0,
                width >= 0,
        ;
        assert((y + 1) * width == y * width + width) by (nonlinear_arith);
    }
    let row0 = y * width;
    let row1 = (y + 1) * width;
    let o0 = (row0 + x) * 3;
    let o1 = (row0 + x + 1) * 3;
    let o2 = (row1 + x) * 3;
    let o3 = (row1 + x + 1) * 3;
    let (_y0, u0, v0) = rgb_to_yuv(rgb[o0], rgb[o0 + 1], rgb[o0 + 2]);
    let (_y1, u1, v1) = rgb_to_yuv(rgb[o1], rgb[o1 + 1], rgb[o1 + 2]);
    let (_y2, u2, v2) = rgb_to_yuv(rgb[o2], rgb[o2 + 1], rgb[o2 + 2]);
    let (_y3, u3, v3) = rgb_to_yuv(rgb[o3], rgb[o3 + 1], rgb[o3 + 2]);
    let u_sum: u16 = u0 as u16 + u1 as u16 + u2 as u16 + u3 as u16;
    let v_sum: u16 = v0 as u16 + v1 as u16 + v2 as u16 + v3 as u16;
    ((u_sum / 4) as u8, (v_sum / 4) as u8)
}

} // verus!

verus! {

/// Whether two sources show the same picture: the same output size, and
/// the same RGB value at every output pixel.
pub open spec fn same_picture(src1: Seq<u8>, layout1: PixelLayout, src2: Seq<u8>, layout2: PixelLayout) -> bool {
    &&& out_size(layout1) == out_size(layout2)
    &&& forall|x: int, y: int|
        0 <= x < out_size(layout1).0 && 0 <= y < out_size(layout1).1 ==> #[trigger] spec_fetch_rgb(
            src1,
            layout1,
            x,
            y,
        ) == spec_fetch_rgb(src2, layout2, x, y)
}

proof fn lemma_row_of_index(k: int, pitch: int, rows: int)
    requires
        pitch > 0,
        0 <= k < pitch * rows,
    ensures
        0 <= k / pitch < rows,
        0 <= k % pitch < pitch,
{
    assert(0 <= k / pitch < rows) by (nonlinear_arith)
        requires
            pitch > 0,
            0 <= k < pitch * rows,
    ;
}

proof fn lemma_same_pixel_yuv(
    src1: Seq<u8>,
    layout1: PixelLayout,
    src2: Seq<u8>,
    layout2: PixelLayout,
    matrix: YuvMatrix,
    range: YuvRange,
    x: int,
    y: int,
)
    requires
        same_picture(src1, layout1, src2, layout2),
        0 <= x < out_size(layout1).0,
        0 <= y < out_size(layout1).1,
    ensures
        spec_pixel_yuv(src1, layout1, matrix, range, x, y) == spec_pixel_yuv(
            src2,
            layout2,
            matrix,
            range,
            x,
            y,
        ),
{
    reveal(spec_pixel_yuv);
    assert(spec_fetch_rgb(src1, layout1, x, y) == spec_fetch_rgb(src2, layout2, x, y));
}

proof fn lemma_same_block_chroma(
    src1: Seq<u8>,
    layout1: PixelLayout,
    src2: Seq<u8>,
    layout2: PixelLayout,
    mode: ChromaMode,
    matrix: YuvMatrix,
    range: YuvRange,
    x: int,
    y: int,
)
    requires
        same_picture(src1, layout1, src2, layout2),
        0 <= x,
        x + 1 < out_size(layout1).0,
        0 <= y,
        y + 1 < out_size(layout1).1,
    ensures
        spec_block_chroma(src1, layout1, mode, matrix, range, x, y) == spec_block_chroma(
            src2,
            layout2,
            mode,
            matrix,
            range,
            x,
            y,
        ),
{
    lemma_same_pixel_yuv(src1, layout1, src2, layout2, matrix, range, x, y);
    lemma_same_pixel_yuv(src1, layout1, src2, layout2, matrix, range, x + 1, y);
    lemma_same_pixel_yuv(src1, layout1, src2, layout2, matrix, range, x, y + 1);
    lemma_same_pixel_yuv(src1, layout1, src2, layout2, matrix, range, x + 1, y + 1);
}

/// The frames made from two sources that show the same picture are the
/// same, byte for byte, whatever their layouts: NV12, YV12, packed YUV
/// and packed RGB.
pub proof fn lemma_frames_follow_picture(
    src1: Seq<u8>,
    layout1: PixelLayout,
    src2: Seq<u8>,
    layout2: PixelLayout,
    mode: ChromaMode,
    matrix: YuvMatrix,
    range: YuvRange,
)
    requires
        same_picture(src1, layout1, src2, layout2),
        out_size(layout1).0 % 2 == 0,
        out_size(layout1).1 % 2 == 0,
    ensures
        spec_nv12_frame(src1, layout1, mode, matrix, range) == spec_nv12_frame(
            src2,
            layout2,
            mode,
            matrix,
            range,
        ),
        spec_yv12_frame(src1, layout1, mode, matrix, range) == spec_yv12_frame(
            src2,
            layout2,
            mode,
            matrix,
            range,
        ),
        spec_packed_frame(src1, layout1, true, matrix, range) == spec_packed_frame(
            src2,
            layout2,
            true,
            matrix,
            range,
        ),
        spec_packed_frame(src1, layout1, false, matrix, range) == spec_packed_frame(
            src2,
            layout2,
            false,
            matrix,
            range,
        ),
{
    let (ow, oh) = out_size(layout1);
    lemma_align16_facts(ow);
    lemma_align16_facts(ow / 2);
    let p = spec_align(ow, 16);
    let q = spec_align(ow / 2, 16);
    let l1 = spec_luma_plane(src1, layout1, matrix, range, p);
    let l2 = spec_luma_plane(src2, layout2, matrix, range, p);
    assert forall|k: int| 0 <= k < l1.len() implies #[trigger] l1[k] == l2[k] by {
        lemma_row_of_index(k, p, oh);
        if k % p < ow {
            lemma_same_pixel_yuv(src1, layout1, src2, layout2, matrix, range, k % p, k / p);
        }
    }
    assert(l1 =~= l2);
    let c1 = spec_nv12_chroma_plane(src1, layout1, mode, matrix, range, p);
    let c2 = spec_nv12_chroma_plane(src2, layout2, mode, matrix, range, p);
    assert forall|k: int| 0 <= k < c1.len() implies #[trigger] c1[k] == c2[k] by {
        lemma_row_of_index(k, p, oh / 2);
        if k % p < ow {
            lemma_same_block_chroma(
                src1,
                layout1,
                src2,
                layout2,
                mode,
                matrix,
                range,
                (k % p) / 2 * 2,
                k / p * 2,
            );
        }
    }
    assert(c1 =~= c2);
    let y1 = spec_luma_plane(src1, layout1, matrix, range, p);
    let y2 = spec_luma_plane(src2, layout2, matrix, range, p);
    assert(y1 =~= y2);
    let u1 = spec_planar_chroma_plane(src1, layout1, mode, matrix, range, q, false);
    let u2 = spec_planar_chroma_plane(src2, layout2, mode, matrix, range, q, false);
    let v1 = spec_planar_chroma_plane(src1, layout1, mode, matrix, range, q, true);
    let v2 = spec_planar_chroma_plane(src2, layout2, mode, matrix, range, q, true);
    assert forall|k: int| 0 <= k < u1.len() implies #[trigger] u1[k] == u2[k] by {
        lemma_row_of_index(k, q, oh / 2);
        if k % q < ow / 2 {
            lemma_same_block_chroma(src1, layout1, src2, layout2, mode, matrix, range, (k % q) * 2, k / q * 2);
        }
    }
    assert(u1 =~= u2);
    assert forall|k: int| 0 <= k < v1.len() implies #[trigger] v1[k] == v2[k] by {
        lemma_row_of_index(k, q, oh / 2);
        if k % q < ow / 2 {
            lemma_same_block_chroma(src1, layout1, src2, layout2, mode, matrix, range, (k % q) * 2, k / q * 2);
        }
    }
    assert(v1 =~= v2);
    let a1 = spec_packed_frame(src1, layout1, true, matrix, range);
    let a2 = spec_packed_frame(src2, layout2, true, matrix, range);
    let b1 = spec_packed_frame(src1, layout1, false, matrix, range);
    let b2 = spec_packed_frame(src2, layout2, false, matrix, range);
    assert forall|k: int| 0 <= k < a1.len() implies #[trigger] a1[k] == a2[k] by {
        lemma_packed_index(k, ow, oh);
        lemma_same_pixel_yuv(src1, layout1, src2, layout2, matrix, range, (k / 3) % ow, (k / 3) / ow);
    }
    assert(a1 =~= a2);
    assert forall|k: int| 0 <= k < b1.len() implies #[trigger] b1[k] == b2[k] by {
        lemma_packed_index(k, ow, oh);
        assert(spec_fetch_rgb(src1, layout1, (k / 3) % ow, (k / 3) / ow) == spec_fetch_rgb(src2, layout2, (k / 3) % ow, (k / 3) / ow));
    }
    assert(b1 =~= b2);
}

proof fn lemma_packed_index(k: int, ow: int, oh: int)
    requires
        0 <= k < ow * oh * 3,
        ow >= 0,
        oh >= 0,
    ensures
        ow > 0,
        0 <= (k / 3) % ow < ow,
        0 <= (k / 3) / ow < oh,
{
    assert(ow > 0 && oh > 0) by (nonlinear_arith)
        requires
            0 <= k < ow * oh * 3,
            ow >= 0,
            oh >= 0,
    ;
    assert(0 <= k / 3 < ow * oh);
    assert(ow * oh == oh * ow) by (nonlinear_arith);
    lemma_row_of_index(k / 3, ow, oh);
}

/// Whether a BGRA buffer (rows `4 * width` bytes apart) holds the pixels of
/// a packed RGB buffer.
pub open spec fn bgra_holds_rgb(bgra: Seq<u8>, rgb: Seq<u8>, width: int, height: int) -> bool {
    forall|i: int|
        0 <= i < width * height ==> {
            &&& #[trigger] bgra[4 * i] == rgb[3 * i + 2]
            &&& bgra[4 * i + 1] == rgb[3 * i + 1]
            &&& bgra[4 * i + 2] == rgb[3 * i]
        }
}

/// Converting a BGRA capture without rotation gives the bytes that
/// converting the same pixels as packed RGB gives: for NV12 and YV12 with
/// any chroma mode, matrix and range.
pub proof fn lemma_bgra_path_matches_rgb_path(
    bgra: Seq<u8>,
    rgb: Seq<u8>,
    width: usize,
    height: usize,
    mode: ChromaMode,
    matrix: YuvMatrix,
    range: YuvRange,
)
    requires
        bgra_holds_rgb(bgra, rgb, width as int, height as int),
        width * 4 <= usize::MAX,
        width * 3 <= usize::MAX,
        width % 2 == 0,
        height % 2 == 0,
    ensures
        spec_nv12_frame(bgra, bgra_layout(width, height, (width * 4) as usize, Rotation::Deg0), mode, matrix, range)
            == spec_nv12_frame(rgb, rgb_layout(width, height), mode, matrix, range),
        spec_yv12_frame(bgra, bgra_layout(width, height, (width * 4) as usize, Rotation::Deg0), mode, matrix, range)
            == spec_yv12_frame(rgb, rgb_layout(width, height), mode, matrix, range),
{
    let l1 = bgra_layout(width, height, (width * 4) as usize, Rotation::Deg0);
    let l2 = rgb_layout(width, height);
    assert forall|x: int, y: int|
        0 <= x < out_size(l1).0 && 0 <= y < out_size(l1).1 implies #[trigger] spec_fetch_rgb(
        bgra,
        l1,
        x,
        y,
    ) == spec_fetch_rgb(rgb, l2, x, y) by {
        let i = y * width + x;
        assert(0 <= i < width * height) by (nonlinear_arith)
            requires
                0 <= x < width,
                0 <= y < height,
                i == y * width + x,
        ;
        assert(y * (width * 4) + x * 4 == 4 * i && y * (width * 3) + x * 3 == 3 * i) by (nonlinear_arith)
            requires
                i == y * width + x,
        ;
        assert(bgra[4 * i] == rgb[3 * i + 2]);
    }
    lemma_frames_follow_picture(bgra, l1, rgb, l2, mode, matrix, range);
}

} // verus!
