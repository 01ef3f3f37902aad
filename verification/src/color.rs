//! Integer colour conversion (BT.601 and BT.709, full or video range) and
//! the choice of one chroma sample for a 2x2 block.
use vstd::prelude::*;

verus! {

/// Colour matrix of a YUV conversion.
#[derive(Clone, Copy, Debug, PartialEq, Eq)]
pub enum YuvMatrix {
    Bt601,
    Bt709,
}

/// Value range of a YUV conversion.
#[derive(Clone, Copy, Debug, PartialEq, Eq)]
pub enum YuvRange {
    Full,
    Video,
}

/// `value` clamped to 0..=255.
pub open spec fn spec_clamp_u8(value: int) -> u8 {
    if value < 0 {
        0
    } else if value > 255 {
        255
    } else {
        value as u8
    }
}

/// `value` clamped to 0..=255.
pub fn clamp_u8(value: i32) -> (out: u8)
    ensures
        out == spec_clamp_u8(value as int),
{
    if value < 0 {
        0
    } else if value > 255 {
        255
    } else {
        value as u8
    }
}

/// Fixed-point weights `(r, g, b, offset)` of the Y, U and V rows of a
/// conversion: each component is `((wr*r + wg*g + wb*b + 128) >> 8)` plus
/// the offset, clamped to a byte.
pub open spec fn yuv_weights(matrix: YuvMatrix, range: YuvRange) -> (
    (int, int, int, int),
    (int, int, int, int),
    (int, int, int, int),
) {
    match (matrix, range) {
        (YuvMatrix::Bt601, YuvRange::Full) => (
            (77, 150, 29, 0),
            (-43, -85, 128, 128),
            (128, -107, -21, 128),
        ),
        (YuvMatrix::Bt709, YuvRange::Full) => (
            (54, 183, 18, 0),
            (-29, -99, 128, 128),
            (128, -116, -12, 128),
        ),
        (YuvMatrix::Bt601, YuvRange::Video) => (
            (66, 129, 25, 16),
            (-38, -74, 112, 128),
            (112, -94, -18, 128),
        ),
        (YuvMatrix::Bt709, YuvRange::Video) => (
            (47, 157, 16, 16),
            (-26, -87, 112, 128),
            (112, -102, -10, 128),
        ),
    }
}

/// One component: the weighted sum rounded by `+ 128`, divided by 256
/// rounding down, offset, clamped.
pub open spec fn yuv_component(w: (int, int, int, int), r: u8, g: u8, b: u8) -> u8 {
    spec_clamp_u8((w.0 * r + w.1 * g + w.2 * b + 128) / 256 + w.3)
}

/// The YUV value of an RGB pixel.
pub open spec fn spec_bgr_to_yuv(r: u8, g: u8, b: u8, matrix: YuvMatrix, range: YuvRange) -> (
    u8,
    u8,
    u8,
) {
    let (wy, wu, wv) = yuv_weights(matrix, range);
    (yuv_component(wy, r, g, b), yuv_component(wu, r, g, b), yuv_component(wv, r, g, b))
}

fn weighted(wr: i32, wg: i32, wb: i32, offset: i32, r: u8, g: u8, b: u8) -> (out: u8)
    requires
        -128 <= wr <= 256,
        -128 <= wg <= 256,
        -128 <= wb <= 256,
        0 <= offset <= 128,
    ensures
        out == yuv_component(
            (wr as int, wg as int, wb as int, offset as int),
            r,
            g,
            b,
        ),
{
    assert(-32640 <= wr * r <= 65280 && -32640 <= wg * g <= 65280 && -32640 <= wb * b <= 65280)
        by (nonlinear_arith)
        requires
            -128 <= wr <= 256,
            -128 <= wg <= 256,
            -128 <= wb <= 256,
            r <= 255,
            g <= 255,
            b <= 255,
    ;
    let t: i32 = wr * (r as i32) + wg * (g as i32) + wb * (b as i32) + 128;
    let shifted: i32 = t >> 8u32;
    assert(shifted as int == (t as int) / 256) by (bit_vector)
        requires
            shifted == t >> 8u32,
    ;
    clamp_u8(shifted + offset)
}

/// The YUV value of an RGB pixel, in integer arithmetic.
pub fn bgr_to_yuv(r: u8, g: u8, b: u8, matrix: YuvMatrix, range: YuvRange) -> (out: (u8, u8, u8))
    ensures
        out == spec_bgr_to_yuv(r, g, b, matrix, range),
{
    match (matrix, range) {
        (YuvMatrix::Bt601, YuvRange::Full) => (
            weighted(77, 150, 29, 0, r, g, b),
            weighted(-43, -85, 128, 128, r, g, b),
            weighted(128, -107, -21, 128, r, g, b),
        ),
        (YuvMatrix::Bt709, YuvRange::Full) => (
            weighted(54, 183, 18, 0, r, g, b),
            weighted(-29, -99, 128, 128, r, g, b),
            weighted(128, -116, -12, 128, r, g, b),
        ),
        (YuvMatrix::Bt601, YuvRange::Video) => (
            weighted(66, 129, 25, 16, r, g, b),
            weighted(-38, -74, 112, 128, r, g, b),
            weighted(112, -94, -18, 128, r, g, b),
        ),
        (YuvMatrix::Bt709, YuvRange::Video) => (
            weighted(47, 157, 16, 16, r, g, b),
            weighted(-26, -87, 112, 128, r, g, b),
            weighted(112, -102, -10, 128, r, g, b),
        ),
    }
}

/// Full-range BT.601 YUV of an RGB pixel.
pub fn rgb_to_yuv(r: u8, g: u8, b: u8) -> (out: (u8, u8, u8))
    ensures
        out == spec_bgr_to_yuv(r, g, b, YuvMatrix::Bt601, YuvRange::Full),
{
    bgr_to_yuv(r, g, b, YuvMatrix::Bt601, YuvRange::Full)
}

/// Full-range BT.601 luma of an RGB pixel.
pub fn rgb_to_y(r: u8, g: u8, b: u8) -> (y: u8)
    ensures
        y == spec_bgr_to_yuv(r, g, b, YuvMatrix::Bt601, YuvRange::Full).0,
{
    rgb_to_yuv(r, g, b).0
}

/// How one chroma sample is chosen for a 2x2 block.
#[derive(Clone, Copy, Debug, PartialEq, Eq)]
pub enum ChromaMode {
    Average,
    Saturated,
    TopLeft,
}

/// Chroma samples of a block, as they are pushed.
#[derive(Clone, Copy, Debug, PartialEq, Eq)]
pub struct ChromaAccumulator {
    pub mode: ChromaMode,
    pub count: u16,
    pub u_sum: u16,
    pub v_sum: u16,
    pub selected_u: u8,
    pub selected_v: u8,
    pub selected_score: i32,
}

/// Squared distance of a chroma sample from neutral grey.
pub open spec fn saturation_score(u: u8, v: u8) -> int {
    (u - 128) * (u - 128) + (v - 128) * (v - 128)
}

/// The accumulator after one more sample: the sums grow; `TopLeft` keeps
/// the first sample and `Saturated` the first sample of highest score.
pub open spec fn spec_push(acc: ChromaAccumulator, u: u8, v: u8) -> ChromaAccumulator {
    let count = (acc.count + 1) as u16;
    let base = ChromaAccumulator {
        count,
        u_sum: (acc.u_sum + u) as u16,
        v_sum: (acc.v_sum + v) as u16,
        ..acc
    };
    match acc.mode {
        ChromaMode::Average => base,
        ChromaMode::TopLeft => if count == 1 {
            ChromaAccumulator { selected_u: u, selected_v: v, ..base }
        } else {
            base
        },
        ChromaMode::Saturated => if saturation_score(u, v) > acc.selected_score {
            ChromaAccumulator {
                selected_score: saturation_score(u, v) as i32,
                selected_u: u,
                selected_v: v,
                ..base
            }
        } else {
            base
        },
    }
}

/// The accumulator after pushing the samples of `us` and `vs` in order.
pub open spec fn spec_push_all(acc: ChromaAccumulator, us: Seq<u8>, vs: Seq<u8>) -> ChromaAccumulator
    decreases us.len(),
{
    if us.len() == 0 {
        acc
    } else {
        spec_push(spec_push_all(acc, us.drop_last(), vs.drop_last()), us.last(), vs.last())
    }
}

/// The chosen sample: the rounded-down averages for `Average`, the
/// selected sample otherwise.
pub open spec fn spec_finish(acc: ChromaAccumulator) -> (u8, u8) {
    match acc.mode {
        ChromaMode::Average => ((acc.u_sum / acc.count) as u8, (acc.v_sum / acc.count) as u8),
        ChromaMode::Saturated | ChromaMode::TopLeft => (acc.selected_u, acc.selected_v),
    }
}

/// A fresh accumulator for `mode`.
pub open spec fn spec_new_accumulator(mode: ChromaMode) -> ChromaAccumulator {
    ChromaAccumulator {
        mode,
        count: 0,
        u_sum: 0,
        v_sum: 0,
        selected_u: 128,
        selected_v: 128,
        selected_score: -1i32,
    }
}

/// The sample chosen for the four samples of a 2x2 block, in the order
/// top-left, top-right, bottom-left, bottom-right.
pub open spec fn spec_chroma_block(mode: ChromaMode, us: Seq<u8>, vs: Seq<u8>) -> (u8, u8) {
    spec_finish(spec_push_all(spec_new_accumulator(mode), us, vs))
}

impl ChromaAccumulator {
    /// A fresh accumulator: no samples, neutral selection.
    pub fn new(mode: ChromaMode) -> (acc: Self)
        ensures
            acc == spec_new_accumulator(mode),
    {
        Self {
            mode,
            count: 0,
            u_sum: 0,
            v_sum: 0,
            selected_u: 128,
            selected_v: 128,
            selected_score: -1,
        }
    }

    /// Adds one chroma sample.
    pub fn push(&mut self, u: u8, v: u8)
        requires
            old(self).count + 1 <= u16::MAX,
            old(self).u_sum + u <= u16::MAX,
            old(self).v_sum + v <= u16::MAX,
        ensures
            *final(self) == spec_push(*old(self), u, v),
    {
        self.count = self.count + 1;
        self.u_sum = self.u_sum + u as u16;
        self.v_sum = self.v_sum + v as u16;
        match self.mode {
            ChromaMode::Average => {},
            ChromaMode::TopLeft => {
                if self.count == 1 {
                    self.selected_u = u;
                    self.selected_v = v;
                }
            },
            ChromaMode::Saturated => {
                let du = u as i32 - 128;
                let dv = v as i32 - 128;
                assert(0 <= du * du <= 16384 && 0 <= dv * dv <= 16384) by (nonlinear_arith)
                    requires
                        -128 <= du <= 127,
                        -128 <= dv <= 127,
                ;
                let score = du * du + dv * dv;
                if score > self.selected_score {
                    self.selected_score = score;
                    self.selected_u = u;
                    self.selected_v = v;
                }
            },
        }
    }

    /// The chosen sample.
    pub fn finish(self) -> (out: (u8, u8))
        requires
            self.mode == ChromaMode::Average ==> self.count > 0,
        ensures
            out == spec_finish(self),
    {
        match self.mode {
            ChromaMode::Average => ((self.u_sum / self.count) as u8, (self.v_sum / self.count) as u8),
            ChromaMode::Saturated | ChromaMode::TopLeft => (self.selected_u, self.selected_v),
        }
    }
}

/// Over the four samples of a block: `Average` gives the rounded-down mean
/// of each component, `TopLeft` the first sample, and `Saturated` a sample
/// of the highest score, the first one among equals.
pub proof fn lemma_chroma_block_choice(mode: ChromaMode, us: Seq<u8>, vs: Seq<u8>)
    requires
        us.len() == 4,
        vs.len() == 4,
    ensures
        mode == ChromaMode::Average ==> spec_chroma_block(mode, us, vs) == (
            ((us[0] + us[1] + us[2] + us[3]) / 4) as u8,
            ((vs[0] + vs[1] + vs[2] + vs[3]) / 4) as u8,
        ),
        mode == ChromaMode::TopLeft ==> spec_chroma_block(mode, us, vs) == (us[0], vs[0]),
        mode == ChromaMode::Saturated ==> exists|k: int|
            0 <= k < 4 && spec_chroma_block(mode, us, vs) == (us[k], vs[k]) && (forall|j: int|
                0 <= j < 4 ==> saturation_score(us[j], vs[j]) <= saturation_score(us[k], vs[k]))
                && (forall|j: int|
                0 <= j < k ==> saturation_score(us[j], vs[j]) < saturation_score(us[k], vs[k])),
{
    reveal_with_fuel(spec_push_all, 5);
    let a0 = spec_new_accumulator(mode);
    assert(us.drop_last().drop_last().drop_last().drop_last() =~= Seq::<u8>::empty());
    assert(vs.drop_last().drop_last().drop_last().drop_last() =~= Seq::<u8>::empty());
    let s0 = saturation_score(us[0], vs[0]);
    let s1 = saturation_score(us[1], vs[1]);
    let s2 = saturation_score(us[2], vs[2]);
    let s3 = saturation_score(us[3], vs[3]);
    assert(0 <= s0 && 0 <= s1 && 0 <= s2 && 0 <= s3) by (nonlinear_arith)
        requires
            s0 == saturation_score(us[0], vs[0]),
            s1 == saturation_score(us[1], vs[1]),
            s2 == saturation_score(us[2], vs[2]),
            s3 == saturation_score(us[3], vs[3]),
    ;
    assert(s0 <= 32768 && s1 <= 32768 && s2 <= 32768 && s3 <= 32768) by (nonlinear_arith)
        requires
            s0 == saturation_score(us[0], vs[0]),
            s1 == saturation_score(us[1], vs[1]),
            s2 == saturation_score(us[2], vs[2]),
            s3 == saturation_score(us[3], vs[3]),
            us[0] <= 255 && us[1] <= 255 && us[2] <= 255 && us[3] <= 255,
            vs[0] <= 255 && vs[1] <= 255 && vs[2] <= 255 && vs[3] <= 255,
    ;
    if mode == ChromaMode::Saturated {
        if s0 >= s1 && s0 >= s2 && s0 >= s3 {
            assert(spec_chroma_block(mode, us, vs) == (us[0], vs[0]));
        } else if s1 >= s2 && s1 >= s3 {
            assert(spec_chroma_block(mode, us, vs) == (us[1], vs[1]));
        } else if s2 >= s3 {
            assert(spec_chroma_block(mode, us, vs) == (us[2], vs[2]));
        } else {
            assert(spec_chroma_block(mode, us, vs) == (us[3], vs[3]));
        }
    }
}

} // verus!
