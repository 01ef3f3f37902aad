//! Copying pixels out of captured frames: cropping a (rotated) BGRA
//! region, repacking a captured NV12 frame into the adapter's aligned
//! layout, packing decoded RGB rows, and filling a luma plane.
use vstd::prelude::*;

use crate::color::{rgb_to_y, spec_bgr_to_yuv, YuvMatrix, YuvRange};
use crate::convert::{lemma_row_bound, lemma_row_major};
use crate::geometry::{
    align_usize, output_in_range, source_coordinate, spec_align, spec_rotated_size,
    spec_source_coordinate, Rotation,
};

verus! {

/// Whether the BGRA frame (`width` x `height` pixels, rows `stride` bytes
/// apart) lies inside a buffer of `len` bytes.
pub open spec fn bgra_frame_covers(width: int, height: int, stride: int, len: int) -> bool {
    width == 0 || height == 0 || (height - 1) * stride + width * 4 <= len
}

/// Byte `c` of crop pixel `(ox, oy)`: the source pixel that the rotation
/// brings to `(x + ox, y + oy)`.
pub open spec fn crop_byte(
    src: Seq<u8>,
    source_width: int,
    source_height: int,
    stride: int,
    rotation: Rotation,
    x: int,
    y: int,
    ox: int,
    oy: int,
    c: int,
) -> u8 {
    let (sx, sy) = spec_source_coordinate(x + ox, y + oy, source_width, source_height, rotation);
    src[sy * stride + sx * 4 + c]
}

/// The `width` x `height` region at `(x, y)` of the rotated frame, as
/// packed BGRA rows.
pub open spec fn spec_crop(
    src: Seq<u8>,
    source_width: int,
    source_height: int,
    stride: int,
    rotation: Rotation,
    x: int,
    y: int,
    width: int,
    height: int,
) -> Seq<u8> {
    Seq::new(
        (4 * width * height) as nat,
        |k: int|
            crop_byte(
                src,
                source_width,
                source_height,
                stride,
                rotation,
                x,
                y,
                (k / 4) % width,
                (k / 4) / width,
                k % 4,
            ),
    )
}

/// Whether a crop fits: the region lies inside the rotated frame, the
/// frame inside the buffer, and the crop's size in a `usize`.
pub open spec fn crop_fits(
    len: int,
    source_width: int,
    source_height: int,
    stride: int,
    rotation: Rotation,
    x: int,
    y: int,
    width: int,
    height: int,
) -> bool {
    let (ow, oh) = spec_rotated_size(source_width, source_height, rotation);
    &&& x + width <= ow
    &&& y + height <= oh
    &&& bgra_frame_covers(source_width, source_height, stride, len)
    &&& 4 * width * height <= usize::MAX
}

proof fn lemma_crop_source_in_frame(
    len: int,
    source_width: int,
    source_height: int,
    stride: int,
    rotation: Rotation,
    x: int,
    y: int,
    ox: int,
    oy: int,
    width: int,
    height: int,
)
    requires
        crop_fits(len, source_width, source_height, stride, rotation, x, y, width, height),
        0 <= x,
        0 <= y,
        0 <= stride,
        0 <= ox < width,
        0 <= oy < height,
    ensures
        output_in_range(x + ox, y + oy, source_width, source_height, rotation),
        ({
            let (sx, sy) = spec_source_coordinate(
                x + ox,
                y + oy,
                source_width,
                source_height,
                rotation,
            );
            &&& 0 <= sx < source_width
            &&& 0 <= sy < source_height
            &&& 0 <= sy * stride + sx * 4
            &&& sy * stride + sx * 4 + 4 <= len
        }),
{
    let (sx, sy) = spec_source_coordinate(x + ox, y + oy, source_width, source_height, rotation);
    assert(0 <= sx < source_width && 0 <= sy < source_height);
    assert(sy * stride <= (source_height - 1) * stride) by (nonlinear_arith)
        requires
            0 <= sy <= source_height - 1,
            0 <= stride,
    ;
    assert(0 <= sy * stride) by (nonlinear_arith)
        requires
            0 <= sy,
            0 <= stride,
    ;
}

proof fn lemma_subframe_fits(
    len: int,
    source_width: int,
    source_height: int,
    stride: int,
    x: int,
    y: int,
    width: int,
    height: int,
)
    requires
        crop_fits(len, source_width, source_height, stride, Rotation::Deg0, x, y, width, height),
        0 <= x,
        0 <= y,
        0 <= width,
        0 <= height,
        0 <= stride,
    ensures
        crop_fits(len, x + width, y + height, stride, Rotation::Deg0, x, y, width, height),
{
    if x + width > 0 && y + height > 0 {
        assert((y + height - 1) * stride <= (source_height - 1) * stride) by (nonlinear_arith)
            requires
                0 <= y + height - 1 <= source_height - 1,
                0 <= stride,
        ;
    }
}

/// Copies the `width` x `height` region at `(x, y)` of an unrotated BGRA
/// frame into `out`, as packed rows.
pub fn crop_bgra_bbox(
    bgra: &[u8],
    stride: usize,
    x: usize,
    y: usize,
    width: usize,
    height: usize,
    out: &mut Vec<u8>,
)
    requires
        x + width <= usize::MAX,
        y + height <= usize::MAX,
        crop_fits(
            bgra@.len() as int,
            (x + width) as int,
            (y + height) as int,
            stride as int,
            Rotation::Deg0,
            x as int,
            y as int,
            width as int,
            height as int,
        ),
    ensures
        final(out)@ == spec_crop(
            bgra@,
            (x + width) as int,
            (y + height) as int,
            stride as int,
            Rotation::Deg0,
            x as int,
            y as int,
            width as int,
            height as int,
        ),
{
    crop_region(bgra, x + width, y + height, stride, Rotation::Deg0, x, y, width, height, out);
}

/// Copies the `width` x `height` region at `(x, y)` of the rotated frame
/// into `out`, as packed BGRA rows, reading each pixel from where the
/// rotation takes it in the source frame.
pub fn crop_rotated_bgra_bbox(
    bgra: &[u8],
    source_width: usize,
    source_height: usize,
    source_stride: usize,
    rotation: Rotation,
    x: usize,
    y: usize,
    width: usize,
    height: usize,
    out: &mut Vec<u8>,
)
    requires
        crop_fits(
            bgra@.len() as int,
            source_width as int,
            source_height as int,
            source_stride as int,
            rotation,
            x as int,
            y as int,
            width as int,
            height as int,
        ),
    ensures
        final(out)@ == spec_crop(
            bgra@,
            source_width as int,
            source_height as int,
            source_stride as int,
            rotation,
            x as int,
            y as int,
            width as int,
            height as int,
        ),
{
    if let Rotation::Deg0 = rotation {
        proof {
            lemma_subframe_fits(
                bgra@.len() as int,
                source_width as int,
                source_height as int,
                source_stride as int,
                x as int,
                y as int,
                width as int,
                height as int,
            );
        }
        crop_bgra_bbox(bgra, source_stride, x, y, width, height, out);
        assert(final(out)@ =~= spec_crop(
            bgra@,
            source_width as int,
            source_height as int,
            source_stride as int,
            rotation,
            x as int,
            y as int,
            width as int,
            height as int,
        ));
        return;
    }
    crop_region(
        bgra,
        source_width,
        source_height,
        source_stride,
        rotation,
        x,
        y,
        width,
        height,
        out,
    );
}

fn crop_region(
    bgra: &[u8],
    source_width: usize,
    source_height: usize,
    stride: usize,
    rotation: Rotation,
    x: usize,
    y: usize,
    width: usize,
    height: usize,
    out: &mut Vec<u8>,
)
    requires
        crop_fits(
            bgra@.len() as int,
            source_width as int,
            source_height as int,
            stride as int,
            rotation,
            x as int,
            y as int,
            width as int,
            height as int,
        ),
    ensures
        final(out)@ == spec_crop(
            bgra@,
            source_width as int,
            source_height as int,
            stride as int,
            rotation,
            x as int,
            y as int,
            width as int,
            height as int,
        ),
{
    let ghost plane = spec_crop(
        bgra@,
        source_width as int,
        source_height as int,
        stride as int,
        rotation,
        x as int,
        y as int,
        width as int,
        height as int,
    );
    let len = bgra.len();
    proof {
        assert(4 * width * height == 4 * (width * height)) by (nonlinear_arith);
    }
    out.clear();
    let mut oy: usize = 0;
    while oy < height
        invariant
            len == bgra@.len(),
            plane.len() == 4 * (width * height),
            crop_fits(
                bgra@.len() as int,
                source_width as int,
                source_height as int,
                stride as int,
                rotation,
                x as int,
                y as int,
                width as int,
                height as int,
            ),
            plane == spec_crop(
                bgra@,
                source_width as int,
                source_height as int,
                stride as int,
                rotation,
                x as int,
                y as int,
                width as int,
                height as int,
            ),
            0 <= oy <= height,
            out@ == plane.take(4 * (oy * width)),
        decreases height - oy,
    {
        let mut ox: usize = 0;
        while ox < width
            invariant
                len == bgra@.len(),
                plane.len() == 4 * (width * height),
                crop_fits(
                    bgra@.len() as int,
                    source_width as int,
                    source_height as int,
                    stride as int,
                    rotation,
                    x as int,
                    y as int,
                    width as int,
                    height as int,
                ),
                plane == spec_crop(
                    bgra@,
                    source_width as int,
                    source_height as int,
                    stride as int,
                    rotation,
                    x as int,
                    y as int,
                    width as int,
                    height as int,
                ),
                0 <= oy < height,
                0 <= ox <= width,
                out@ == plane.take(4 * (oy * width + ox)),
            decreases width - ox,
        {
            proof {
                lemma_crop_source_in_frame(
                    bgra@.len() as int,
                    source_width as int,
                    source_height as int,
                    stride as int,
                    rotation,
                    x as int,
                    y as int,
                    ox as int,
                    oy as int,
                    width as int,
                    height as int,
                );
                lemma_row_bound(oy as int, ox as int, width as int, height as int);
                lemma_row_major(oy * width + ox, oy as int, ox as int, width as int);
            }
            let (sx, sy) = source_coordinate(x + ox, y + oy, source_width, source_height, rotation);
            let offset = sy * stride + sx * 4;
            let p: usize = oy * width + ox;
            let mut c: usize = 0;
            while c < 4
                invariant
                    plane == spec_crop(
                        bgra@,
                        source_width as int,
                        source_height as int,
                        stride as int,
                        rotation,
                        x as int,
                        y as int,
                        width as int,
                        height as int,
                    ),
                    plane.len() == 4 * (width * height),
                    len == bgra@.len(),
                    p == oy * width + ox,
                    p < width * height,
                    (p as int) / (width as int) == oy,
                    (p as int) % (width as int) == ox,
                    offset + 4 <= bgra@.len(),
                    (offset as int, sx as int, sy as int) == ({
                        let (a, b) = spec_source_coordinate(
                            (x + ox) as int,
                            (y + oy) as int,
                            source_width as int,
                            source_height as int,
                            rotation,
                        );
                        (b * stride + a * 4, a, b)
                    }),
                    0 <= c <= 4,
                    out@ == plane.take(4 * p + c),
                decreases 4 - c,
            {
                proof {
                    lemma_row_major(4 * p + c, p as int, c as int, 4);
                    assert(plane.take(4 * p + c + 1) =~= plane.take(4 * p + c).push(
                        plane[4 * p + c],
                    ));
                }
                out.push(bgra[offset + c]);
                c = c + 1;
            }
            ox = ox + 1;
        }
        proof {
            assert((oy + 1) * width == oy * width + width) by (nonlinear_arith);
        }
        oy = oy + 1;
    }
    proof {
        assert(height * width == width * height) by (nonlinear_arith);
        assert(out@ =~= plane);
    }
}

} // verus!

verus! {

/// `rows` rows of `pitch` bytes: the first `copy_width` bytes of each are
/// the bytes of the source row (source rows `stride` bytes apart), the
/// rest zero.
pub open spec fn padded_rows(src: Seq<u8>, rows: int, stride: int, copy_width: int, pitch: int) -> Seq<
    u8,
> {
    Seq::new(
        (rows * pitch) as nat,
        |k: int|
            if k % pitch < copy_width {
                src[(k / pitch) * stride + k % pitch]
            } else {
                0u8
            },
    )
}

/// Whether the source rows that `padded_rows` reads lie inside `len`
/// bytes and the output fits in a `usize`.
pub open spec fn padded_rows_fit(len: int, rows: int, stride: int, copy_width: int, pitch: int) -> bool {
    &&& copy_width <= pitch
    &&& (rows == 0 || copy_width == 0 || (rows - 1) * stride + copy_width <= len)
    &&& rows * pitch <= usize::MAX
}

proof fn lemma_source_row_bound(r: int, c: int, rows: int, stride: int, copy_width: int, len: int)
    requires
        0 <= r < rows,
        0 <= c < copy_width,
        0 <= stride,
        (rows - 1) * stride + copy_width <= len,
    ensures
        0 <= r * stride + c < len,
{
    assert(r * stride <= (rows - 1) * stride) by (nonlinear_arith)
        requires
            0 <= r <= rows - 1,
            0 <= stride,
    ;
    assert(0 <= r * stride) by (nonlinear_arith)
        requires
            0 <= r,
            0 <= stride,
    ;
}

/// Appends `padded_rows`.
fn emit_padded_rows(out: &mut Vec<u8>, src: &[u8], rows: usize, stride: usize, copy_width: usize, pitch: usize)
    requires
        padded_rows_fit(src@.len() as int, rows as int, stride as int, copy_width as int, pitch as int),
    ensures
        final(out)@ == old(out)@ + padded_rows(src@, rows as int, stride as int, copy_width as int, pitch as int),
{
    let ghost plane = padded_rows(src@, rows as int, stride as int, copy_width as int, pitch as int);
    let ghost start = old(out)@;
    let n = src.len();
    let mut r: usize = 0;
    while r < rows
        invariant
            n == src@.len(),
            padded_rows_fit(src@.len() as int, rows as int, stride as int, copy_width as int, pitch as int),
            plane == padded_rows(src@, rows as int, stride as int, copy_width as int, pitch as int),
            0 <= r <= rows,
            out@ == start + plane.take(r * pitch),
        decreases rows - r,
    {
        let mut c: usize = 0;
        while c < pitch
            invariant
                n == src@.len(),
                padded_rows_fit(src@.len() as int, rows as int, stride as int, copy_width as int, pitch as int),
                plane == padded_rows(src@, rows as int, stride as int, copy_width as int, pitch as int),
                0 <= r < rows,
                0 <= c <= pitch,
                out@ == start + plane.take(r * pitch + c),
            decreases pitch - c,
        {
            proof {
                lemma_row_major(r * pitch + c, r as int, c as int, pitch as int);
                lemma_row_bound(r as int, c as int, pitch as int, rows as int);
            }
            let value = if c < copy_width {
                proof {
                    lemma_source_row_bound(
                        r as int,
                        c as int,
                        rows as int,
                        stride as int,
                        copy_width as int,
                        src@.len() as int,
                    );
                }
                src[r * stride + c]
            } else {
                0u8
            };
            out.push(value);
            proof {
                assert(plane.take(r * pitch + c + 1) =~= plane.take(r * pitch + c).push(
                    plane[r * pitch + c],
                ));
            }
            c = c + 1;
        }
        proof {
            assert((r + 1) * pitch == r * pitch + pitch) by (nonlinear_arith);
        }
        r = r + 1;
    }
    proof {
        assert(plane.take(rows * pitch) =~= plane);
    }
}

/// A captured NV12 frame: the luma plane and the interleaved chroma
/// plane with their row strides, and the size of the chroma plane in
/// samples.
pub struct Nv12Capture<'a> {
    pub width: usize,
    pub height: usize,
    pub plane0: &'a [u8],
    pub plane0_stride: usize,
    pub plane1: Option<&'a [u8]>,
    pub plane1_stride: usize,
    pub plane1_width: usize,
    pub plane1_height: usize,
}

/// The sizes the copy computes fit in a `usize`.
pub open spec fn nv12_capture_sizes_fit(f: Nv12Capture) -> bool {
    &&& f.width + 15 <= usize::MAX
    &&& f.plane0_stride * f.height <= usize::MAX
    &&& f.plane1_stride * f.height <= usize::MAX
    &&& f.plane1_width * 2 <= usize::MAX
    &&& spec_align(f.width as int, 16) * f.height + spec_align(f.width as int, 16) * f.height / 2
        <= usize::MAX
}

/// The error a captured NV12 frame is refused with, if any.
pub open spec fn nv12_capture_error(f: Nv12Capture, rotation: Rotation) -> Option<Seq<char>> {
    if !(rotation is Deg0) {
        Some("direct NV12 capture currently requires --rotate 0"@)
    } else if f.plane1 is None {
        Some("NV12 capture frame is missing UV plane"@)
    } else if f.width % 2 != 0 || f.height % 2 != 0 {
        Some("NV12 capture requires even width and height"@)
    } else if f.plane0_stride < f.width || f.plane1_stride < f.width {
        Some("NV12 capture plane stride is smaller than frame width"@)
    } else if f.plane0@.len() < f.plane0_stride * f.height || f.plane1.unwrap()@.len()
        < f.plane1_stride * f.height / 2 {
        Some("NV12 capture plane byte count is shorter than expected"@)
    } else {
        None
    }
}

/// The NV12 frame in the adapter's layout: luma rows and then chroma
/// rows, each padded to the width rounded up to 16; chroma rows past the
/// captured chroma plane, and chroma bytes past twice its width, are
/// zero.
pub open spec fn spec_nv12_copy(f: Nv12Capture) -> Seq<u8> {
    let pitch = spec_align(f.width as int, 16);
    let uv_rows: int = if f.height / 2 < f.plane1_height {
        (f.height / 2) as int
    } else {
        f.plane1_height as int
    };
    let uv_width: int = if f.width < f.plane1_width * 2 {
        f.width as int
    } else {
        f.plane1_width * 2
    };
    padded_rows(f.plane0@, f.height as int, f.plane0_stride as int, f.width as int, pitch)
        + padded_rows(f.plane1.unwrap()@, uv_rows, f.plane1_stride as int, uv_width, pitch)
        + Seq::new((pitch * (f.height / 2 - uv_rows)) as nat, |k: int| 0u8)
}

/// Repacks a captured NV12 frame into the adapter's layout; only unrotated
/// frames with both planes, even dimensions, strides no smaller than the
/// width and planes as long as their strides say are taken.
pub fn copy_captured_nv12(frame: &Nv12Capture, rotation: Rotation) -> (out: Result<Vec<u8>, String>)
    requires
        rotation is Deg0 && frame.plane1 is Some && frame.width % 2 == 0 && frame.height % 2 == 0
            && frame.plane0_stride >= frame.width && frame.plane1_stride >= frame.width
            ==> nv12_capture_sizes_fit(*frame),
    ensures
        match nv12_capture_error(*frame, rotation) {
            Some(msg) => out matches Err(e) && e@ == msg,
            None => out matches Ok(v) && v@ == spec_nv12_copy(*frame),
        },
{
    if let Rotation::Deg0 = rotation {
    } else {
        return Err(String::from_str("direct NV12 capture currently requires --rotate 0"));
    }
    let plane1 = match frame.plane1 {
        Some(p) => p,
        None => {
            return Err(String::from_str("NV12 capture frame is missing UV plane"));
        },
    };
    if frame.width % 2 != 0 || frame.height % 2 != 0 {
        return Err(String::from_str("NV12 capture requires even width and height"));
    }
    if frame.plane0_stride < frame.width || frame.plane1_stride < frame.width {
        return Err(String::from_str("NV12 capture plane stride is smaller than frame width"));
    }
    if frame.plane0.len() < frame.plane0_stride * frame.height || plane1.len()
        < frame.plane1_stride * frame.height / 2 {
        return Err(String::from_str("NV12 capture plane byte count is shorter than expected"));
    }
    proof {
        crate::geometry::lemma_align_facts_pub(frame.width as int, 16);
    }
    let y_pitch = align_usize(frame.width, 16);
    let y_size = y_pitch * frame.height;
    let uv_height = frame.height / 2;
    let uv_copy_width = if frame.width < frame.plane1_width * 2 {
        frame.width
    } else {
        frame.plane1_width * 2
    };
    let uv_rows = if uv_height < frame.plane1_height {
        uv_height
    } else {
        frame.plane1_height
    };
    proof {
        let h = frame.height as int;
        let s0 = frame.plane0_stride as int;
        let s1 = frame.plane1_stride as int;
        if h > 0 {
            assert((h - 1) * s0 + frame.width <= h * s0) by (nonlinear_arith)
                requires
                    frame.width <= s0,
                    h > 0,
            ;
        }
        if uv_rows > 0 {
            assert((uv_rows - 1) * s1 + uv_copy_width <= s1 * h / 2) by (nonlinear_arith)
                requires
                    uv_copy_width <= s1,
                    0 < uv_rows <= h / 2,
                    h % 2 == 0,
            ;
        }
        assert(uv_rows * y_pitch <= y_pitch * h / 2) by (nonlinear_arith)
            requires
                0 <= uv_rows <= h / 2,
                y_pitch >= 0,
                h % 2 == 0,
        ;
        assert(y_pitch * (h / 2) == y_pitch * h / 2) by (nonlinear_arith)
            requires
                h % 2 == 0,
                h >= 0,
        ;
        assert(y_pitch * (h / 2 - uv_rows) == y_pitch * (h / 2) - y_pitch * uv_rows)
            by (nonlinear_arith);
        assert(uv_rows * y_pitch == y_pitch * uv_rows) by (nonlinear_arith);
        assert(h * y_pitch == y_pitch * h) by (nonlinear_arith);
    }
    let mut out: Vec<u8> = Vec::new();
    emit_padded_rows(&mut out, frame.plane0, frame.height, frame.plane0_stride, frame.width, y_pitch);
    emit_padded_rows(&mut out, plane1, uv_rows, frame.plane1_stride, uv_copy_width, y_pitch);
    crate::bytes::append_zeros(&mut out, y_pitch * (uv_height - uv_rows));
    proof {
        assert(crate::bytes::zeros((y_pitch * (uv_height - uv_rows)) as nat) =~= Seq::new(
            (y_pitch * (frame.height / 2 - uv_rows)) as nat,
            |k: int| 0u8,
        ));
    }
    Ok(out)
}

/// Packs `height` rows of `row_bytes` bytes from data whose rows are
/// `stride` bytes apart; an error where a row runs past the data.
pub fn copy_rgb24_rows(data: &[u8], stride: usize, row_bytes: usize, height: usize) -> (out: Result<
    Vec<u8>,
    String,
>)
    requires
        height * row_bytes <= usize::MAX,
        height == 0 || (height - 1) * stride + row_bytes <= usize::MAX,
    ensures
        height > 0 && (height - 1) * stride + row_bytes > data@.len() ==> (out matches Err(e) && e@
            == "decoded RGB frame is shorter than expected"@),
        !(height > 0 && (height - 1) * stride + row_bytes > data@.len()) ==> (out matches Ok(v)
            && v@ == padded_rows(
            data@,
            height as int,
            stride as int,
            row_bytes as int,
            row_bytes as int,
        )),
{
    if height > 0 {
        let last = (height - 1) * stride;
        if last + row_bytes > data.len() {
            return Err(String::from_str("decoded RGB frame is shorter than expected"));
        }
    }
    let mut out: Vec<u8> = Vec::new();
    emit_padded_rows(&mut out, data, height, stride, row_bytes, row_bytes);
    Ok(out)
}

/// The luma of pixel `(x, y)` of a packed RGB image `width` pixels wide.
pub open spec fn luma_at(rgb: Seq<u8>, width: int, x: int, y: int) -> u8 {
    let q = (y * width + x) * 3;
    spec_bgr_to_yuv(rgb[q], rgb[q + 1], rgb[q + 2], YuvMatrix::Bt601, YuvRange::Full).0
}

/// Byte `i` of a luma plane (rows `pitch` bytes apart) once rows before
/// `y`, and row `y` up to column `x`, are filled from the image; other
/// bytes keep their value in `before`.
pub open spec fn luma_filled(
    before: Seq<u8>,
    rgb: Seq<u8>,
    width: int,
    pitch: int,
    y: int,
    x: int,
    i: int,
) -> u8 {
    if (i / pitch < y && i % pitch < width) || (i / pitch == y && i % pitch < x) {
        luma_at(rgb, width, i % pitch, i / pitch)
    } else {
        before[i]
    }
}

proof fn lemma_other_cell(i: int, p: int, y: int, x: int)
    requires
        p > 0,
        0 <= i,
        0 <= x < p,
        0 <= y,
        i != y * p + x,
    ensures
        !(i / p == y && i % p == x),
{
    if i / p == y && i % p == x {
        vstd::arithmetic::div_mod::lemma_fundamental_div_mod(i, p);
        assert(p * y == y * p) by (nonlinear_arith);
    }
}

/// Fills the luma of each pixel of a packed RGB image into a plane whose
/// rows are `y_pitch` bytes apart; the bytes between rows are left alone.
pub fn fill_y_plane(rgb: &[u8], width: usize, height: usize, y_pitch: usize, y_plane: &mut [u8])
    requires
        width <= y_pitch,
        width * height * 3 <= rgb@.len(),
        width == 0 || height == 0 || (height - 1) * y_pitch + width <= old(y_plane)@.len(),
    ensures
        final(y_plane)@.len() == old(y_plane)@.len(),
        width == 0 ==> final(y_plane)@ == old(y_plane)@,
        width > 0 ==> forall|i: int|
            0 <= i < old(y_plane)@.len() ==> #[trigger] final(y_plane)@[i] == luma_filled(
                old(y_plane)@,
                rgb@,
                width as int,
                y_pitch as int,
                height as int,
                0,
                i,
            ),
{
    if width == 0 {
        return;
    }
    let ghost before = y_plane@;
    let ghost w = width as int;
    let ghost p = y_pitch as int;
    let rgb_len = rgb.len();
    let plane_len = y_plane.len();
    let mut y: usize = 0;
    while y < height
        invariant
            rgb_len == rgb@.len(),
            plane_len == before.len(),
            0 < width <= y_pitch,
            w == width,
            p == y_pitch,
            width * height * 3 <= rgb@.len(),
            height == 0 || (height - 1) * y_pitch + width <= before.len(),
            y_plane@.len() == before.len(),
            0 <= y <= height,
            forall|i: int|
                0 <= i < before.len() ==> #[trigger] y_plane@[i] == luma_filled(
                    before,
                    rgb@,
                    w,
                    p,
                    y as int,
                    0,
                    i,
                ),
        decreases height - y,
    {
        let mut x: usize = 0;
        while x < width
            invariant
                rgb_len == rgb@.len(),
                plane_len == before.len(),
                0 < width <= y_pitch,
                w == width,
                p == y_pitch,
                width * height * 3 <= rgb@.len(),
                (height - 1) * y_pitch + width <= before.len(),
                y_plane@.len() == before.len(),
                0 <= y < height,
                0 <= x <= width,
                forall|i: int|
                    0 <= i < before.len() ==> #[trigger] y_plane@[i] == luma_filled(
                        before,
                        rgb@,
                        w,
                        p,
                        y as int,
                        x as int,
                        i,
                    ),
            decreases width - x,
        {
            proof {
                lemma_row_bound(y as int, x as int, w, height as int);
                lemma_source_row_bound(y as int, x as int, height as int, p, w, before.len() as int);
                lemma_row_major(y * y_pitch + x, y as int, x as int, p);
                assert((y * width + x) * 3 + 2 < width * height * 3) by (nonlinear_arith)
                    requires
                        y * width + x < width * height,
                ;
            }
            let offset = (y * width + x) * 3;
            let value = rgb_to_y(rgb[offset], rgb[offset + 1], rgb[offset + 2]);
            let at = y * y_pitch + x;
            let ghost prev = y_plane@;
            y_plane[at] = value;
            proof {
                assert forall|i: int| 0 <= i < before.len() implies #[trigger] y_plane@[i]
                    == luma_filled(before, rgb@, w, p, y as int, x + 1, i) by {
                    if i != at {
                        lemma_other_cell(i, p, y as int, x as int);
                        assert(prev[i] == luma_filled(before, rgb@, w, p, y as int, x as int, i));
                    }
                }
            }
            x = x + 1;
        }
        proof {
            assert forall|i: int| 0 <= i < before.len() implies #[trigger] y_plane@[i]
                == luma_filled(before, rgb@, w, p, y + 1, 0, i) by {
                assert(y_plane@[i] == luma_filled(before, rgb@, w, p, y as int, w, i));
            }
        }
        y = y + 1;
    }
}

} // verus!
