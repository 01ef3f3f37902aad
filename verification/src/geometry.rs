//! Screen geometry: rotations, dirty rectangles, and the 32-pixel-aligned
//! update rectangles and VRAM plane addresses of partial (type 7) updates.
use vstd::prelude::*;

verus! {

/// Clockwise rotation applied between the captured frame and the display.
#[derive(Clone, Copy, Debug, PartialEq, Eq)]
pub enum Rotation {
    Deg0,
    Deg90,
    Deg180,
    Deg270,
}

/// A rectangle as `(x, y, width, height)`.
pub type Rect = (usize, usize, usize, usize);

/// Size of the rotated frame: quarter turns swap width and height.
pub open spec fn spec_rotated_size(width: int, height: int, rotation: Rotation) -> (int, int) {
    match rotation {
        Rotation::Deg0 | Rotation::Deg180 => (width, height),
        Rotation::Deg90 | Rotation::Deg270 => (height, width),
    }
}

impl Rotation {
    /// Size of the output for a `width` x `height` input.
    pub fn output_size(self, width: u16, height: u16) -> (size: (u16, u16))
        ensures
            (size.0 as int, size.1 as int) == spec_rotated_size(width as int, height as int, self),
    {
        match self {
            Rotation::Deg0 | Rotation::Deg180 => (width, height),
            Rotation::Deg90 | Rotation::Deg270 => (height, width),
        }
    }
}

/// Size of the output for a `width` x `height` input.
pub fn rotated_size(width: usize, height: usize, rotation: Rotation) -> (size: (usize, usize))
    ensures
        (size.0 as int, size.1 as int) == spec_rotated_size(width as int, height as int, rotation),
{
    match rotation {
        Rotation::Deg0 | Rotation::Deg180 => (width, height),
        Rotation::Deg90 | Rotation::Deg270 => (height, width),
    }
}

/// Whether a source pixel can be mapped under `rotation` without leaving
/// the non-negative integers.
pub open spec fn source_in_range(x: int, y: int, width: int, height: int, rotation: Rotation) -> bool {
    match rotation {
        Rotation::Deg0 => true,
        Rotation::Deg90 => y < height,
        Rotation::Deg180 => x < width && y < height,
        Rotation::Deg270 => x < width,
    }
}

/// Whether an output pixel can be mapped back under `rotation` without
/// leaving the non-negative integers.
pub open spec fn output_in_range(x: int, y: int, width: int, height: int, rotation: Rotation) -> bool {
    match rotation {
        Rotation::Deg0 => true,
        Rotation::Deg90 => x < height,
        Rotation::Deg180 => x < width && y < height,
        Rotation::Deg270 => y < width,
    }
}

/// Where source pixel `(x, y)` of a `width` x `height` frame lands.
pub open spec fn spec_output_coordinate(
    x: int,
    y: int,
    width: int,
    height: int,
    rotation: Rotation,
) -> (int, int) {
    match rotation {
        Rotation::Deg0 => (x, y),
        Rotation::Deg90 => (height - 1 - y, x),
        Rotation::Deg180 => (width - 1 - x, height - 1 - y),
        Rotation::Deg270 => (y, width - 1 - x),
    }
}

/// Which source pixel of a `width` x `height` frame lands on output pixel
/// `(x, y)`.
pub open spec fn spec_source_coordinate(
    x: int,
    y: int,
    width: int,
    height: int,
    rotation: Rotation,
) -> (int, int) {
    match rotation {
        Rotation::Deg0 => (x, y),
        Rotation::Deg90 => (y, height - 1 - x),
        Rotation::Deg180 => (width - 1 - x, height - 1 - y),
        Rotation::Deg270 => (width - 1 - y, x),
    }
}

/// Where source pixel `(src_x, src_y)` lands in the rotated frame.
pub fn output_coordinate(
    src_x: usize,
    src_y: usize,
    width: usize,
    height: usize,
    rotation: Rotation,
) -> (out: (usize, usize))
    requires
        source_in_range(src_x as int, src_y as int, width as int, height as int, rotation),
    ensures
        (out.0 as int, out.1 as int) == spec_output_coordinate(
            src_x as int,
            src_y as int,
            width as int,
            height as int,
            rotation,
        ),
{
    match rotation {
        Rotation::Deg0 => (src_x, src_y),
        Rotation::Deg90 => (height - 1 - src_y, src_x),
        Rotation::Deg180 => (width - 1 - src_x, height - 1 - src_y),
        Rotation::Deg270 => (src_y, width - 1 - src_x),
    }
}

/// Which source pixel lands on output pixel `(out_x, out_y)`.
pub fn source_coordinate(
    out_x: usize,
    out_y: usize,
    width: usize,
    height: usize,
    rotation: Rotation,
) -> (src: (usize, usize))
    requires
        output_in_range(out_x as int, out_y as int, width as int, height as int, rotation),
    ensures
        (src.0 as int, src.1 as int) == spec_source_coordinate(
            out_x as int,
            out_y as int,
            width as int,
            height as int,
            rotation,
        ),
{
    match rotation {
        Rotation::Deg0 => (out_x, out_y),
        Rotation::Deg90 => (out_y, height - 1 - out_x),
        Rotation::Deg180 => (width - 1 - out_x, height - 1 - out_y),
        Rotation::Deg270 => (width - 1 - out_y, out_x),
    }
}

/// Rotation is a bijection between the pixels of the frame and those of
/// the rotated frame: a source pixel lands inside the rotated frame, and
/// mapping it back gives the pixel again (and the same from the output
/// side).
pub proof fn lemma_rotation_roundtrip(x: int, y: int, width: int, height: int, rotation: Rotation)
    requires
        0 <= x,
        0 <= y,
    ensures
        x < width && y < height ==> {
            let (ox, oy) = spec_output_coordinate(x, y, width, height, rotation);
            let (rw, rh) = spec_rotated_size(width, height, rotation);
            &&& 0 <= ox < rw && 0 <= oy < rh
            &&& spec_source_coordinate(ox, oy, width, height, rotation) == (x, y)
        },
        ({
            let (rw, rh) = spec_rotated_size(width, height, rotation);
            x < rw && y < rh ==> {
                let (sx, sy) = spec_source_coordinate(x, y, width, height, rotation);
                &&& 0 <= sx < width && 0 <= sy < height
                &&& spec_output_coordinate(sx, sy, width, height, rotation) == (x, y)
            }
        }),
{
}

pub open spec fn min2(a: int, b: int) -> int {
    if a <= b {
        a
    } else {
        b
    }
}

pub open spec fn max2(a: int, b: int) -> int {
    if a >= b {
        a
    } else {
        b
    }
}

/// Bounding box of the rotated corners of the box `(x, y, width, height)`.
pub open spec fn spec_rotate_bbox(
    x: usize,
    y: usize,
    width: usize,
    height: usize,
    frame_width: usize,
    frame_height: usize,
    rotation: Rotation,
) -> (int, int, int, int) {
    let x1 = x as int;
    let y1 = y as int;
    let x2 = x.saturating_add(width).saturating_sub(1) as int;
    let y2 = y.saturating_add(height).saturating_sub(1) as int;
    let c1 = spec_output_coordinate(x1, y1, frame_width as int, frame_height as int, rotation);
    let c2 = spec_output_coordinate(x2, y1, frame_width as int, frame_height as int, rotation);
    let c3 = spec_output_coordinate(x1, y2, frame_width as int, frame_height as int, rotation);
    let c4 = spec_output_coordinate(x2, y2, frame_width as int, frame_height as int, rotation);
    let min_x = min2(min2(c1.0, c2.0), min2(c3.0, c4.0));
    let max_x = max2(max2(c1.0, c2.0), max2(c3.0, c4.0));
    let min_y = min2(min2(c1.1, c2.1), min2(c3.1, c4.1));
    let max_y = max2(max2(c1.1, c2.1), max2(c3.1, c4.1));
    (min_x, min_y, max_x - min_x + 1, max_y - min_y + 1)
}

/// Whether the near and far corners of the box map without leaving the
/// non-negative integers (and so do the other two).
pub open spec fn bbox_in_range(
    x: usize,
    y: usize,
    width: usize,
    height: usize,
    frame_width: usize,
    frame_height: usize,
    rotation: Rotation,
) -> bool {
    source_in_range(x as int, y as int, frame_width as int, frame_height as int, rotation)
        && source_in_range(
        x.saturating_add(width).saturating_sub(1) as int,
        y.saturating_add(height).saturating_sub(1) as int,
        frame_width as int,
        frame_height as int,
        rotation,
    )
}

/// The box `(x, y, width, height)` of the source frame as a box of the
/// rotated frame: the bounding box of its rotated corners.
pub fn rotate_bbox(
    x: usize,
    y: usize,
    width: usize,
    height: usize,
    frame_width: usize,
    frame_height: usize,
    rotation: Rotation,
) -> (out: Rect)
    requires
        bbox_in_range(x, y, width, height, frame_width, frame_height, rotation),
    ensures
        (out.0 as int, out.1 as int, out.2 as int, out.3 as int) == spec_rotate_bbox(
            x,
            y,
            width,
            height,
            frame_width,
            frame_height,
            rotation,
        ),
{
    let x1 = x;
    let y1 = y;
    let x2 = x.saturating_add(width).saturating_sub(1);
    let y2 = y.saturating_add(height).saturating_sub(1);
    let c1 = output_coordinate(x1, y1, frame_width, frame_height, rotation);
    let c2 = output_coordinate(x2, y1, frame_width, frame_height, rotation);
    let c3 = output_coordinate(x1, y2, frame_width, frame_height, rotation);
    let c4 = output_coordinate(x2, y2, frame_width, frame_height, rotation);
    let min_x = min_usize(min_usize(c1.0, c2.0), min_usize(c3.0, c4.0));
    let max_x = max_usize(max_usize(c1.0, c2.0), max_usize(c3.0, c4.0));
    let min_y = min_usize(min_usize(c1.1, c2.1), min_usize(c3.1, c4.1));
    let max_y = max_usize(max_usize(c1.1, c2.1), max_usize(c3.1, c4.1));
    (min_x, min_y, max_x - min_x + 1, max_y - min_y + 1)
}

/// A non-empty box inside the frame rotates to the box of the same size
/// (width and height swapped for quarter turns) that lies inside the
/// rotated frame and covers exactly the images of its pixels.
pub proof fn lemma_rotate_bbox_exact(
    x: usize,
    y: usize,
    width: usize,
    height: usize,
    frame_width: usize,
    frame_height: usize,
    rotation: Rotation,
)
    requires
        width > 0,
        height > 0,
        x + width <= frame_width,
        y + height <= frame_height,
    ensures
        ({
            let r = spec_rotate_bbox(x, y, width, height, frame_width, frame_height, rotation);
            let (rw, rh) = spec_rotated_size(frame_width as int, frame_height as int, rotation);
            let (bw, bh) = spec_rotated_size(width as int, height as int, rotation);
            &&& r.2 == bw && r.3 == bh
            &&& 0 <= r.0 && r.0 + r.2 <= rw
            &&& 0 <= r.1 && r.1 + r.3 <= rh
        }),
{
}

fn min_usize(a: usize, b: usize) -> (m: usize)
    ensures
        m == min2(a as int, b as int),
{
    if a <= b {
        a
    } else {
        b
    }
}

fn max_usize(a: usize, b: usize) -> (m: usize)
    ensures
        m == max2(a as int, b as int),
{
    if a >= b {
        a
    } else {
        b
    }
}

/// A rectangle reported as changed by the capture.
#[derive(Clone, Copy, Debug, Default, PartialEq, Eq)]
pub struct DirtyRect {
    pub x: usize,
    pub y: usize,
    pub width: usize,
    pub height: usize,
}

/// What changed in a captured frame: how many rectangles, their bounding
/// box and their total area.
#[derive(Clone, Copy, Debug, Default, PartialEq, Eq)]
pub struct DirtySummary {
    pub rect_count: usize,
    pub min_x: usize,
    pub min_y: usize,
    pub width: usize,
    pub height: usize,
    pub area: u64,
}

impl DirtySummary {
    /// Area of the bounding box, saturating at `u64::MAX`.
    pub fn bbox_area(self) -> (area: u64)
        ensures
            area == if self.width * self.height > u64::MAX {
                u64::MAX as int
            } else {
                self.width * self.height
            },
    {
        match (self.width as u64).checked_mul(self.height as u64) {
            Some(area) => area,
            None => u64::MAX,
        }
    }
}

/// The box `(x, y, width, height)` clipped to the frame; none when it is
/// empty or nothing of it lies inside.
pub open spec fn spec_clamp_rect(
    x: usize,
    y: usize,
    width: usize,
    height: usize,
    frame_width: usize,
    frame_height: usize,
) -> Option<Rect> {
    if width == 0 || height == 0 || frame_width == 0 || frame_height == 0 {
        None
    } else {
        let left = min2(x as int, frame_width as int);
        let top = min2(y as int, frame_height as int);
        let right = min2(x.saturating_add(width) as int, frame_width as int);
        let bottom = min2(y.saturating_add(height) as int, frame_height as int);
        if right <= left || bottom <= top {
            None
        } else {
            Some((left as usize, top as usize, (right - left) as usize, (bottom - top) as usize))
        }
    }
}

fn clamp_rect(
    x: usize,
    y: usize,
    width: usize,
    height: usize,
    frame_width: usize,
    frame_height: usize,
) -> (out: Option<Rect>)
    ensures
        out == spec_clamp_rect(x, y, width, height, frame_width, frame_height),
{
    if width == 0 || height == 0 || frame_width == 0 || frame_height == 0 {
        return None;
    }
    let left = min_usize(x, frame_width);
    let top = min_usize(y, frame_height);
    let right = min_usize(x.saturating_add(width), frame_width);
    let bottom = min_usize(y.saturating_add(height), frame_height);
    if right <= left || bottom <= top {
        return None;
    }
    Some((left, top, right - left, bottom - top))
}

/// The dirty bounding box clipped to the frame.
pub fn clamped_dirty_bbox(dirty: DirtySummary, frame_width: usize, frame_height: usize) -> (out:
    Option<Rect>)
    ensures
        out == spec_clamp_rect(
            dirty.min_x,
            dirty.min_y,
            dirty.width,
            dirty.height,
            frame_width,
            frame_height,
        ),
{
    clamp_rect(dirty.min_x, dirty.min_y, dirty.width, dirty.height, frame_width, frame_height)
}

/// A dirty rectangle clipped to the frame.
pub fn clamped_dirty_rect(rect: DirtyRect, frame_width: usize, frame_height: usize) -> (out:
    Option<Rect>)
    ensures
        out == spec_clamp_rect(rect.x, rect.y, rect.width, rect.height, frame_width, frame_height),
{
    clamp_rect(rect.x, rect.y, rect.width, rect.height, frame_width, frame_height)
}

/// A clipped rectangle is non-empty and lies inside the frame and inside
/// the given box.
pub proof fn lemma_clamp_rect_inside(
    x: usize,
    y: usize,
    width: usize,
    height: usize,
    frame_width: usize,
    frame_height: usize,
)
    ensures
        spec_clamp_rect(x, y, width, height, frame_width, frame_height) matches Some(r) ==> {
            &&& r.2 > 0 && r.3 > 0
            &&& r.0 + r.2 <= frame_width && r.1 + r.3 <= frame_height
            &&& x <= r.0 && r.0 + r.2 <= x + width
            &&& y <= r.1 && r.1 + r.3 <= y + height
        },
{
}

/// Bounding box of two boxes, clipped to the frame.
pub open spec fn spec_union_bbox(a: Rect, b: Rect, frame_width: usize, frame_height: usize) -> Rect {
    let min_x = min2(min2(a.0 as int, b.0 as int), frame_width as int);
    let min_y = min2(min2(a.1 as int, b.1 as int), frame_height as int);
    let max_x = min2(
        max2(a.0.saturating_add(a.2) as int, b.0.saturating_add(b.2) as int),
        frame_width as int,
    );
    let max_y = min2(
        max2(a.1.saturating_add(a.3) as int, b.1.saturating_add(b.3) as int),
        frame_height as int,
    );
    (
        min_x as usize,
        min_y as usize,
        (max_x as usize).saturating_sub(min_x as usize),
        (max_y as usize).saturating_sub(min_y as usize),
    )
}

/// Bounding box of two boxes, clipped to the frame.
pub fn union_bbox(a: Rect, b: Rect, frame_width: usize, frame_height: usize) -> (out: Rect)
    ensures
        out == spec_union_bbox(a, b, frame_width, frame_height),
{
    let min_x = min_usize(min_usize(a.0, b.0), frame_width);
    let min_y = min_usize(min_usize(a.1, b.1), frame_height);
    let max_x = min_usize(max_usize(a.0.saturating_add(a.2), b.0.saturating_add(b.2)), frame_width);
    let max_y = min_usize(
        max_usize(a.1.saturating_add(a.3), b.1.saturating_add(b.3)),
        frame_height,
    );
    (min_x, min_y, max_x.saturating_sub(min_x), max_y.saturating_sub(min_y))
}

/// The union of two boxes inside the frame contains both.
pub proof fn lemma_union_contains(a: Rect, b: Rect, frame_width: usize, frame_height: usize)
    requires
        a.0 + a.2 <= frame_width,
        a.1 + a.3 <= frame_height,
        b.0 + b.2 <= frame_width,
        b.1 + b.3 <= frame_height,
    ensures
        ({
            let u = spec_union_bbox(a, b, frame_width, frame_height);
            &&& u.0 <= a.0 && a.0 + a.2 <= u.0 + u.2
            &&& u.1 <= a.1 && a.1 + a.3 <= u.1 + u.3
            &&& u.0 <= b.0 && b.0 + b.2 <= u.0 + u.2
            &&& u.1 <= b.1 && b.1 + b.3 <= u.1 + u.3
            &&& u.0 + u.2 <= frame_width && u.1 + u.3 <= frame_height
        }),
{
}

/// `value` rounded up to a multiple of `alignment`.
pub open spec fn spec_align(value: int, alignment: int) -> int {
    (value + alignment - 1) / alignment * alignment
}

/// `value` rounded up to a multiple of `alignment`.
pub fn align_usize(value: usize, alignment: usize) -> (aligned: usize)
    requires
        alignment > 0,
        spec_align(value as int, alignment as int) <= usize::MAX,
    ensures
        aligned == spec_align(value as int, alignment as int),
        aligned >= value,
        aligned < value + alignment,
        aligned % alignment == 0,
{
    let q = value / alignment;
    proof {
        lemma_align_facts(value as int, alignment as int);
    }
    if value % alignment == 0 {
        q * alignment
    } else {
        (q + 1) * alignment
    }
}

/// Facts about rounding up to a multiple.
pub proof fn lemma_align_facts_pub(value: int, alignment: int)
    requires
        value >= 0,
        alignment > 0,
    ensures
        spec_align(value, alignment) >= value,
        spec_align(value, alignment) < value + alignment,
        spec_align(value, alignment) % alignment == 0,
{
    lemma_align_facts(value, alignment);
}

proof fn lemma_align_facts(value: int, alignment: int)
    requires
        value >= 0,
        alignment > 0,
    ensures
        spec_align(value, alignment) == if value % alignment == 0 {
            (value / alignment) * alignment
        } else {
            (value / alignment + 1) * alignment
        },
        spec_align(value, alignment) >= value,
        spec_align(value, alignment) < value + alignment,
        spec_align(value, alignment) % alignment == 0,
        (value / alignment) * alignment <= value,
{
    let q = value / alignment;
    let r = value % alignment;
    assert(value == q * alignment + r && 0 <= r < alignment) by (nonlinear_arith)
        requires
            alignment > 0,
            q == value / alignment,
            r == value % alignment,
    ;
    if r == 0 {
        assert((value + alignment - 1) / alignment == q) by (nonlinear_arith)
            requires
                value == q * alignment,
                alignment > 0,
        ;
    } else {
        assert((value + alignment - 1) / alignment == q + 1) by (nonlinear_arith)
            requires
                value == q * alignment + r,
                0 < r < alignment,
        ;
    }
    let a = spec_align(value, alignment);
    let k = (value + alignment - 1) / alignment;
    assert(a % alignment == 0) by (nonlinear_arith)
        requires
            a == k * alignment,
            alignment > 0,
    ;
    assert((q + 1) * alignment == q * alignment + alignment) by (nonlinear_arith);
}

/// `a * b`, or `u32::MAX` when the product does not fit.
pub open spec fn spec_sat_mul_u32(a: u32, b: u32) -> u32 {
    if a * b > u32::MAX {
        u32::MAX
    } else {
        (a * b) as u32
    }
}

/// `a * b`, or `usize::MAX` when the product does not fit.
pub open spec fn spec_sat_mul_usize(a: usize, b: usize) -> usize {
    if a * b > usize::MAX {
        usize::MAX
    } else {
        (a * b) as usize
    }
}

fn sat_mul_u32(a: u32, b: u32) -> (p: u32)
    ensures
        p == spec_sat_mul_u32(a, b),
{
    match a.checked_mul(b) {
        Some(p) => p,
        None => u32::MAX,
    }
}

fn sat_mul_usize(a: usize, b: usize) -> (p: usize)
    ensures
        p == spec_sat_mul_usize(a, b),
{
    match a.checked_mul(b) {
        Some(p) => p,
        None => usize::MAX,
    }
}

/// `value / 16` rounded up.
pub open spec fn spec_div_ceil_16(value: usize) -> usize {
    ((value + 15) / 16) as usize
}

fn div_ceil_16(value: usize) -> (q: usize)
    ensures
        q == spec_div_ceil_16(value),
{
    if value % 16 == 0 {
        value / 16
    } else {
        value / 16 + 1
    }
}

/// How the update rectangle of a partial update is chosen.
#[derive(Clone, Copy, Debug, PartialEq, Eq)]
pub enum Type7RectMode {
    Auto,
    Local,
    HorizontalBand,
    VerticalBand,
}

/// Rounds the box `(x, y, width, height)` out to 32-pixel blocks inside
/// the canvas: the left and top edges go down to the block boundary below
/// the pixel before the box, the right and bottom edges up to a block
/// boundary past the box plus 31, clipped to the canvas, and a side shorter
/// than a block is widened to one block (leftwards or upwards at the
/// canvas edge). None for an empty box or canvas, or when nothing is left.
pub open spec fn spec_align_type7_rect_32(
    x: usize,
    y: usize,
    width: usize,
    height: usize,
    canvas_width: usize,
    canvas_height: usize,
) -> Option<Rect> {
    if width == 0 || height == 0 || canvas_width == 0 || canvas_height == 0 {
        None
    } else {
        let left0 = x.saturating_sub(1) / 32 * 32;
        let top0 = y.saturating_sub(1) / 32 * 32;
        let right0 = min2(
            spec_align(x.saturating_add(width).saturating_add(31) as int, 32),
            canvas_width as int,
        );
        let bottom0 = min2(
            spec_align(y.saturating_add(height).saturating_add(31) as int, 32),
            canvas_height as int,
        );
        if right0 <= left0 || bottom0 <= top0 {
            None
        } else {
            let (left, right) = if right0 - left0 < 32 {
                if right0 == canvas_width {
                    ((left0 as usize).saturating_sub((32 - (right0 - left0)) as usize) as int, right0)
                } else {
                    (left0 as int, min2(left0 + 32, canvas_width as int))
                }
            } else {
                (left0 as int, right0)
            };
            let (top, bottom) = if bottom0 - top0 < 32 {
                if bottom0 == canvas_height {
                    ((top0 as usize).saturating_sub((32 - (bottom0 - top0)) as usize) as int, bottom0)
                } else {
                    (top0 as int, min2(top0 + 32, canvas_height as int))
                }
            } else {
                (top0 as int, bottom0)
            };
            Some((left as usize, top as usize, (right - left) as usize, (bottom - top) as usize))
        }
    }
}

/// Whether the block rounding of the box's far edges fits in `usize`.
pub open spec fn type7_rect_fits(x: usize, y: usize, width: usize, height: usize) -> bool {
    &&& spec_align(x.saturating_add(width).saturating_add(31) as int, 32) <= usize::MAX
    &&& spec_align(y.saturating_add(height).saturating_add(31) as int, 32) <= usize::MAX
}

/// The box rounded out to 32-pixel blocks inside the canvas.
pub fn align_type7_rect_32(
    x: usize,
    y: usize,
    width: usize,
    height: usize,
    canvas_width: usize,
    canvas_height: usize,
) -> (out: Option<Rect>)
    requires
        type7_rect_fits(x, y, width, height),
    ensures
        out == spec_align_type7_rect_32(x, y, width, height, canvas_width, canvas_height),
{
    if width == 0 || height == 0 || canvas_width == 0 || canvas_height == 0 {
        return None;
    }
    let mut left = x.saturating_sub(1) / 32 * 32;
    let mut top = y.saturating_sub(1) / 32 * 32;
    let far_x = align_usize(x.saturating_add(width).saturating_add(31), 32);
    let far_y = align_usize(y.saturating_add(height).saturating_add(31), 32);
    let mut right = min_usize(far_x, canvas_width);
    let mut bottom = min_usize(far_y, canvas_height);
    if right <= left || bottom <= top {
        return None;
    }
    proof {
        let l = x.saturating_sub(1) as int;
        let t = y.saturating_sub(1) as int;
        assert((l / 32) * 32 <= l && ((l / 32) * 32) % 32 == 0) by (nonlinear_arith)
            requires
                l >= 0,
        ;
        assert((t / 32) * 32 <= t && ((t / 32) * 32) % 32 == 0) by (nonlinear_arith)
            requires
                t >= 0,
        ;
    }
    if right - left < 32 {
        if right == canvas_width {
            left = left.saturating_sub(32 - (right - left));
        } else {
            right = min_usize(left + 32, canvas_width);
        }
    }
    if bottom - top < 32 {
        if bottom == canvas_height {
            top = top.saturating_sub(32 - (bottom - top));
        } else {
            bottom = min_usize(top + 32, canvas_height);
        }
    }
    Some((left, top, right - left, bottom - top))
}

/// The update rectangle of a partial update for the box: the box rounded
/// out to blocks, or the full-width band, or the full-height band through
/// it, or for `Auto` the smallest of the three (first in that order on
/// ties). None when the chosen rectangle is empty.
pub open spec fn spec_type7_update_rect(
    x: usize,
    y: usize,
    width: usize,
    height: usize,
    canvas_width: usize,
    canvas_height: usize,
    mode: Type7RectMode,
) -> Option<Rect> {
    match spec_align_type7_rect_32(x, y, width, height, canvas_width, canvas_height) {
        None => None,
        Some(local) => {
            let horizontal: Rect = (0, local.1, canvas_width, local.3);
            let vertical: Rect = (local.0, 0, local.2, canvas_height);
            let selected = match mode {
                Type7RectMode::Local => local,
                Type7RectMode::HorizontalBand => horizontal,
                Type7RectMode::VerticalBand => vertical,
                Type7RectMode::Auto => {
                    let local_area = spec_sat_mul_usize(local.2, local.3);
                    let horizontal_area = spec_sat_mul_usize(horizontal.2, horizontal.3);
                    let vertical_area = spec_sat_mul_usize(vertical.2, vertical.3);
                    if local_area <= horizontal_area && local_area <= vertical_area {
                        local
                    } else if horizontal_area <= vertical_area {
                        horizontal
                    } else {
                        vertical
                    }
                },
            };
            if selected.2 == 0 || selected.3 == 0 {
                None
            } else {
                Some(selected)
            }
        },
    }
}

/// The update rectangle of a partial update for the box.
pub fn type7_update_rect(
    x: usize,
    y: usize,
    width: usize,
    height: usize,
    canvas_width: usize,
    canvas_height: usize,
    mode: Type7RectMode,
) -> (out: Option<Rect>)
    requires
        type7_rect_fits(x, y, width, height),
    ensures
        out == spec_type7_update_rect(x, y, width, height, canvas_width, canvas_height, mode),
{
    let local = match align_type7_rect_32(x, y, width, height, canvas_width, canvas_height) {
        Some(local) => local,
        None => return None,
    };
    let horizontal: Rect = (0, local.1, canvas_width, local.3);
    let vertical: Rect = (local.0, 0, local.2, canvas_height);
    let selected = match mode {
        Type7RectMode::Local => local,
        Type7RectMode::HorizontalBand => horizontal,
        Type7RectMode::VerticalBand => vertical,
        Type7RectMode::Auto => {
            let local_area = sat_mul_usize(local.2, local.3);
            let horizontal_area = sat_mul_usize(horizontal.2, horizontal.3);
            let vertical_area = sat_mul_usize(vertical.2, vertical.3);
            if local_area <= horizontal_area && local_area <= vertical_area {
                local
            } else if horizontal_area <= vertical_area {
                horizontal
            } else {
                vertical
            }
        },
    };
    if selected.2 == 0 || selected.3 == 0 {
        None
    } else {
        Some(selected)
    }
}

/// For a box inside the canvas, the block-rounded rectangle lies inside the
/// canvas and covers the box.
pub proof fn lemma_type7_rect_covers_box(
    x: usize,
    y: usize,
    width: usize,
    height: usize,
    canvas_width: usize,
    canvas_height: usize,
)
    requires
        width > 0,
        height > 0,
        x + width <= canvas_width,
        y + height <= canvas_height,
        type7_rect_fits(x, y, width, height),
    ensures
        spec_align_type7_rect_32(x, y, width, height, canvas_width, canvas_height) matches Some(
            r,
        ) && {
            &&& r.0 <= x && x + width <= r.0 + r.2 && r.0 + r.2 <= canvas_width
            &&& r.1 <= y && y + height <= r.1 + r.3 && r.1 + r.3 <= canvas_height
        },
{
    lemma_align_facts(x.saturating_add(width).saturating_add(31) as int, 32);
    lemma_align_facts(y.saturating_add(height).saturating_add(31) as int, 32);
    let l = x.saturating_sub(1) as int;
    let t = y.saturating_sub(1) as int;
    assert((l / 32) * 32 <= l) by (nonlinear_arith)
        requires
            l >= 0,
    ;
    assert((t / 32) * 32 <= t) by (nonlinear_arith)
        requires
            t >= 0,
    ;
}

/// Base addresses of the luma and chroma planes in a mode-6 slot: the
/// luma plane starts 0x30 bytes into the slot, and the chroma plane one
/// plane span (256 bytes per 16x16 block of the output) after it.
pub open spec fn spec_type7_mode6_slot_bases(
    allocated_base: u32,
    output_width: usize,
    output_height: usize,
) -> (u32, u32, u32) {
    let tile_blocks = spec_sat_mul_usize(
        spec_div_ceil_16(output_width),
        spec_div_ceil_16(output_height),
    );
    let plane_span = spec_sat_mul_u32(tile_blocks as u32, 0x100);
    let base0 = allocated_base.saturating_add(0x30);
    let base1 = base0.saturating_add(plane_span);
    (base0, base1, 0)
}

/// Base addresses of the luma and chroma planes in a mode-6 slot.
pub fn type7_mode6_slot_bases(allocated_base: u32, output_width: usize, output_height: usize) -> (out:
    (u32, u32, u32))
    ensures
        out == spec_type7_mode6_slot_bases(allocated_base, output_width, output_height),
{
    let tile_blocks = sat_mul_usize(div_ceil_16(output_width), div_ceil_16(output_height));
    let plane_span = sat_mul_u32(tile_blocks as u32, 0x100);
    let base0 = allocated_base.saturating_add(0x30);
    let base1 = base0.saturating_add(plane_span);
    (base0, base1, 0)
}

/// Addresses of the update rectangle's top-left pixel in the luma plane
/// (row stride: the canvas width) and in the interleaved chroma plane (half
/// the rows, two bytes per chroma sample).
pub open spec fn spec_type7_mode6_plane_addrs(
    allocated_base: u32,
    left: usize,
    top: usize,
    output_width: usize,
    output_height: usize,
    canvas_width: usize,
) -> (u32, u32, u32) {
    let bases = spec_type7_mode6_slot_bases(allocated_base, output_width, output_height);
    let plane0 = bases.0.saturating_add(spec_sat_mul_u32(canvas_width as u32, top as u32))
        .saturating_add(left as u32);
    let plane1 = bases.1.saturating_add(spec_sat_mul_u32((top / 2) as u32, canvas_width as u32))
        .saturating_add(spec_sat_mul_u32((left / 2) as u32, 2));
    (plane0, plane1, 0)
}

/// Addresses of the update rectangle's top-left pixel in the planes of a
/// mode-6 slot.
pub fn type7_mode6_plane_addrs(
    allocated_base: u32,
    left: usize,
    top: usize,
    output_width: usize,
    output_height: usize,
    canvas_width: usize,
    canvas_height: usize,
) -> (out: (u32, u32, u32))
    ensures
        out == spec_type7_mode6_plane_addrs(
            allocated_base,
            left,
            top,
            output_width,
            output_height,
            canvas_width,
        ),
{
    let (base0, base1, _) = type7_mode6_slot_bases(allocated_base, output_width, output_height);
    let plane0 = base0.saturating_add(sat_mul_u32(canvas_width as u32, top as u32)).saturating_add(
        left as u32,
    );
    let plane1 = base1.saturating_add(sat_mul_u32((top / 2) as u32, canvas_width as u32))
        .saturating_add(sat_mul_u32((left / 2) as u32, 2));
    (plane0, plane1, 0)
}

} // verus!
