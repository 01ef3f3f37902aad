//! JPEG marker walking: reading the frame header (SOF), and the rewrites
//! that make an encoder's JPEG acceptable to the adapter's partial-update
//! decoder.
use vstd::prelude::*;

use crate::bytes::read_be_u16;
use crate::text::{decimal, push_decimal, push_str};

verus! {

/// Whether `marker` starts a frame header (SOF0..SOF15 except DHT, JPG and
/// DAC).
pub open spec fn is_sof_marker(marker: u8) -> bool {
    marker == 0xc0 || marker == 0xc1 || marker == 0xc2 || marker == 0xc3 || marker == 0xc5
        || marker == 0xc6 || marker == 0xc7 || marker == 0xc9 || marker == 0xca || marker == 0xcb
        || marker == 0xcd || marker == 0xce || marker == 0xcf
}

/// Whether `marker` is a progressive frame header.
pub open spec fn is_progressive_marker(marker: u8) -> bool {
    marker == 0xc2 || marker == 0xc6 || marker == 0xca || marker == 0xce
}

fn sof_marker(marker: u8) -> (b: bool)
    ensures
        b == is_sof_marker(marker),
{
    marker == 0xc0 || marker == 0xc1 || marker == 0xc2 || marker == 0xc3 || marker == 0xc5
        || marker == 0xc6 || marker == 0xc7 || marker == 0xc9 || marker == 0xca || marker == 0xcb
        || marker == 0xcd || marker == 0xce || marker == 0xcf
}

/// Whether the data starts with the JPEG start-of-image marker (and has at
/// least four bytes).
pub open spec fn has_jpeg_signature(s: Seq<u8>) -> bool {
    s.len() >= 4 && s[0] == 0xff && s[1] == 0xd8
}

/// The first index at or after `i` that does not hold a 0xff fill byte.
pub open spec fn skip_fill(s: Seq<u8>, i: int) -> int
    decreases s.len() - i,
{
    if 0 <= i < s.len() && s[i] == 0xff {
        skip_fill(s, i + 1)
    } else {
        i
    }
}

proof fn lemma_skip_fill_bounds(s: Seq<u8>, i: int)
    requires
        0 <= i,
    ensures
        i <= skip_fill(s, i),
        i <= s.len() ==> skip_fill(s, i) <= s.len(),
        skip_fill(s, i) < s.len() ==> s[skip_fill(s, i)] != 0xff,
    decreases s.len() - i,
{
    if 0 <= i < s.len() && s[i] == 0xff {
        lemma_skip_fill_bounds(s, i + 1);
    }
}

/// One component of a frame header.
#[derive(Clone, Copy, Debug, PartialEq, Eq)]
pub struct JpegComponent {
    pub id: u8,
    pub h_sampling: u8,
    pub v_sampling: u8,
}

/// What the frame header of a JPEG says.
#[derive(Clone, Debug, PartialEq, Eq)]
pub struct JpegInfo {
    pub width: u16,
    pub height: u16,
    pub sof_marker: u8,
    pub is_progressive: bool,
    pub components: Vec<JpegComponent>,
}

/// How a walk over the segments for the frame header ends.
pub enum SofScan {
    /// A frame header at `at` (the index of its length field), with a
    /// complete component table.
    Found { marker: u8, at: int },
    /// A frame header whose component table runs past its segment.
    BadTable,
    /// No usable frame header before the data ran out or broke off.
    NotFound,
    /// A frame header of length 7 that ends the data, whose component count
    /// lies past the end.
    Truncated,
}

/// Walks the segments from `index`: skips fill bytes, steps over SOI/EOI
/// markers, stops at the first frame header, and gives up at anything
/// malformed.
pub open spec fn sof_scan(s: Seq<u8>, index: int) -> SofScan
    decreases s.len() - index,
{
    if index < 0 || index + 4 > s.len() {
        SofScan::NotFound
    } else {
        let i = skip_fill(s, index);
        if i >= s.len() {
            SofScan::NotFound
        } else {
            let marker = s[i];
            let j = i + 1;
            if marker == 0xd8 || marker == 0xd9 {
                if index <= i {
                    sof_scan(s, j)
                } else {
                    SofScan::NotFound
                }
            } else if j + 2 > s.len() {
                SofScan::NotFound
            } else {
                let seg = read_be_u16(s, j);
                if seg < 2 || j + seg > s.len() {
                    SofScan::NotFound
                } else if is_sof_marker(marker) {
                    if seg < 7 {
                        SofScan::NotFound
                    } else if j + 7 >= s.len() {
                        SofScan::Truncated
                    } else if j + 8 + 3 * s[j + 7] > j + seg {
                        SofScan::BadTable
                    } else {
                        SofScan::Found { marker, at: j }
                    }
                } else if index <= i {
                    sof_scan(s, j + seg)
                } else {
                    SofScan::NotFound
                }
            }
        }
    }
}

/// Component `c` of the table of the frame header at `at`.
pub open spec fn sof_component(s: Seq<u8>, at: int, c: int) -> JpegComponent {
    let base = at + 8 + 3 * c;
    JpegComponent { id: s[base], h_sampling: s[base + 1] >> 4, v_sampling: s[base + 1] & 0x0f }
}

/// Whether parsing the frame header would read past the end of the data.
pub open spec fn jpeg_info_truncated(s: Seq<u8>) -> bool {
    has_jpeg_signature(s) && sof_scan(s, 2) is Truncated
}

/// Reads width, height, frame type and component table from the first
/// frame header of a JPEG.
pub fn parse_jpeg_info(jpeg: &[u8]) -> (out: Result<JpegInfo, String>)
    requires
        !jpeg_info_truncated(jpeg@),
    ensures
        !has_jpeg_signature(jpeg@) ==> (out matches Err(e) && e@ == "input is not a JPEG file"@),
        has_jpeg_signature(jpeg@) ==> match sof_scan(jpeg@, 2) {
            SofScan::Found { marker, at } => (out matches Ok(info) && {
                &&& info.height == read_be_u16(jpeg@, at + 3)
                &&& info.width == read_be_u16(jpeg@, at + 5)
                &&& info.sof_marker == marker
                &&& info.is_progressive == is_progressive_marker(marker)
                &&& info.components@.len() == jpeg@[at + 7]
                &&& forall|c: int|
                    0 <= c < info.components@.len() ==> #[trigger] info.components@[c]
                        == sof_component(jpeg@, at, c)
            }),
            SofScan::BadTable => (out matches Err(e) && e@ == "invalid JPEG SOF component table"@),
            SofScan::NotFound => (out matches Err(e) && e@ == "could not find JPEG dimensions"@),
            SofScan::Truncated => false,
        },
{
    let len = jpeg.len();
    if len < 4 || jpeg[0] != 0xff || jpeg[1] != 0xd8 {
        return Err(String::from_str("input is not a JPEG file"));
    }
    let mut index: usize = 2;
    while len - index >= 4
        invariant_except_break
            len == jpeg@.len(),
            has_jpeg_signature(jpeg@),
            !jpeg_info_truncated(jpeg@),
            2 <= index <= len,
            sof_scan(jpeg@, index as int) == sof_scan(jpeg@, 2),
        ensures
            sof_scan(jpeg@, 2) is NotFound,
        decreases len - index,
    {
        let ghost start = index;
        proof {
            lemma_skip_fill_bounds(jpeg@, index as int);
        }
        while index < len && jpeg[index] == 0xff
            invariant
                len == jpeg@.len(),
                start <= index <= len,
                skip_fill(jpeg@, index as int) == skip_fill(jpeg@, start as int),
            decreases len - index,
        {
            index = index + 1;
        }
        assert(index == skip_fill(jpeg@, start as int));
        if index >= len {
            break;
        }
        let marker = jpeg[index];
        index = index + 1;
        if marker == 0xd8 || marker == 0xd9 {
            continue;
        }
        if len - index < 2 {
            break;
        }
        let segment_len = (jpeg[index] as usize) * 256 + jpeg[index + 1] as usize;
        assert(segment_len == read_be_u16(jpeg@, index as int));
        if segment_len < 2 || segment_len > len - index {
            break;
        }
        if sof_marker(marker) {
            if segment_len < 7 {
                break;
            }
            assert(!(sof_scan(jpeg@, start as int) is Truncated));
            let height = (jpeg[index + 3] as u16) * 256 + jpeg[index + 4] as u16;
            let width = (jpeg[index + 5] as u16) * 256 + jpeg[index + 6] as u16;
            let component_count = jpeg[index + 7] as usize;
            if 8 + 3 * component_count > segment_len {
                return Err(String::from_str("invalid JPEG SOF component table"));
            }
            let mut components: Vec<JpegComponent> = Vec::new();
            let mut component_index = index + 8;
            let mut k: usize = 0;
            while k < component_count
                invariant
                    len == jpeg@.len(),
                    index + segment_len <= len,
                    8 + 3 * component_count <= segment_len,
                    component_index == index + 8 + 3 * k,
                    0 <= k <= component_count,
                    components@.len() == k,
                    forall|c: int|
                        0 <= c < k ==> #[trigger] components@[c] == sof_component(
                            jpeg@,
                            index as int,
                            c,
                        ),
                decreases component_count - k,
            {
                let sampling = jpeg[component_index + 1];
                components.push(
                    JpegComponent {
                        id: jpeg[component_index],
                        h_sampling: sampling >> 4,
                        v_sampling: sampling & 0x0f,
                    },
                );
                component_index = component_index + 3;
                k = k + 1;
            }
            return Ok(
                JpegInfo {
                    width,
                    height,
                    sof_marker: marker,
                    is_progressive: marker == 0xc2 || marker == 0xc6 || marker == 0xca || marker
                        == 0xce,
                    components,
                },
            );
        }
        index = index + segment_len;
    }
    Err(String::from_str("could not find JPEG dimensions"))
}

impl JpegInfo {
    /// Whether the JPEG is baseline with three components sampled 2x2,
    /// 1x1, 1x1: what the adapter decodes as 4:2:0.
    pub fn looks_like_baseline_ycbcr_420(&self) -> (b: bool)
        ensures
            b == (self.sof_marker == 0xc0 && self.components@.len() == 3
                && self.components@[0].h_sampling == 2 && self.components@[0].v_sampling == 2
                && self.components@[1].h_sampling == 1 && self.components@[1].v_sampling == 1
                && self.components@[2].h_sampling == 1 && self.components@[2].v_sampling == 1),
    {
        self.sof_marker == 0xc0 && self.components.len() == 3 && self.components[0].h_sampling
            == 2 && self.components[0].v_sampling == 2 && self.components[1].h_sampling == 1
            && self.components[1].v_sampling == 1 && self.components[2].h_sampling == 1
            && self.components[2].v_sampling == 1
    }
}

} // verus!

verus! {

/// How a component-id rewrite can fail.
#[derive(Clone, Copy, Debug, PartialEq, Eq)]
pub enum JpegPatchError {
    /// A frame header shorter than its fixed fields.
    SofSegment,
    /// A frame header whose component table runs past its segment.
    SofTable,
    /// A scan header shorter than its fixed fields.
    SosSegment,
    /// A scan header whose component table runs past its segment.
    SosTable,
}

/// The message each failure is reported with.
pub open spec fn patch_error_text(e: JpegPatchError) -> Seq<char> {
    match e {
        JpegPatchError::SofSegment => "invalid JPEG SOF segment"@,
        JpegPatchError::SofTable => "invalid JPEG SOF component table"@,
        JpegPatchError::SosSegment => "invalid JPEG SOS segment"@,
        JpegPatchError::SosTable => "invalid JPEG SOS component table"@,
    }
}

fn patch_error_string(e: JpegPatchError) -> (msg: String)
    ensures
        msg@ == patch_error_text(e),
{
    match e {
        JpegPatchError::SofSegment => String::from_str("invalid JPEG SOF segment"),
        JpegPatchError::SofTable => String::from_str("invalid JPEG SOF component table"),
        JpegPatchError::SosSegment => String::from_str("invalid JPEG SOS segment"),
        JpegPatchError::SosTable => String::from_str("invalid JPEG SOS component table"),
    }
}

/// `s` with the id byte of each of the first `n` entries of a component
/// table at `table` (entries `stride` bytes apart) set to the entry's
/// index; positions outside `s` are left alone.
pub open spec fn number_ids(s: Seq<u8>, table: int, stride: int, n: nat) -> Seq<u8>
    decreases n,
{
    if n == 0 {
        s
    } else {
        let prev = number_ids(s, table, stride, (n - 1) as nat);
        let at = table + stride * (n - 1);
        if 0 <= at < prev.len() {
            prev.update(at, (n - 1) as u8)
        } else {
            prev
        }
    }
}

proof fn lemma_number_ids_len(s: Seq<u8>, table: int, stride: int, n: nat)
    ensures
        number_ids(s, table, stride, n).len() == s.len(),
    decreases n,
{
    if n > 0 {
        lemma_number_ids_len(s, table, stride, (n - 1) as nat);
    }
}

/// The smaller of a component count and three.
pub open spec fn first_three(n: u8) -> nat {
    if n < 3 {
        n as nat
    } else {
        3
    }
}

/// Walks the segments from `index`, numbering the components of each frame
/// header 0, 1, 2 and those of the first scan header likewise, then stops.
/// Gives the bytes as they stand when the walk ends and, where it ends on
/// a malformed header, what was wrong with it.
pub open spec fn zero_ids_walk(s: Seq<u8>, index: int) -> (Seq<u8>, Option<JpegPatchError>)
    decreases s.len() - index,
{
    if index < 0 || index + 4 > s.len() {
        (s, None)
    } else {
        let i = skip_fill(s, index);
        if i >= s.len() || i < index {
            (s, None)
        } else {
            let marker = s[i];
            let j = i + 1;
            if marker == 0xd8 || marker == 0xd9 {
                zero_ids_walk(s, j)
            } else if j + 2 > s.len() {
                (s, None)
            } else {
                let seg = read_be_u16(s, j);
                if seg < 2 || j + seg > s.len() {
                    (s, None)
                } else if is_sof_marker(marker) {
                    if seg < 8 {
                        (s, Some(JpegPatchError::SofSegment))
                    } else if j + 8 + 3 * s[j + 7] > j + seg {
                        (s, Some(JpegPatchError::SofTable))
                    } else {
                        let t = number_ids(s, j + 8, 3, first_three(s[j + 7]));
                        if t.len() == s.len() {
                            zero_ids_walk(t, j + seg)
                        } else {
                            (t, None)
                        }
                    }
                } else if marker == 0xda {
                    if seg < 4 {
                        (s, Some(JpegPatchError::SosSegment))
                    } else if j + 3 + 2 * s[j + 2] > j + seg {
                        (s, Some(JpegPatchError::SosTable))
                    } else {
                        (number_ids(s, j + 3, 2, first_three(s[j + 2])), None)
                    }
                } else {
                    zero_ids_walk(s, j + seg)
                }
            }
        }
    }
}

/// Numbers the components of the JPEG's frame headers, and of its first
/// scan header, 0, 1, 2 (at most three of each), as the adapter's decoder
/// expects.
pub fn patch_jpeg_component_ids_zero_based(jpeg: &mut [u8]) -> (out: Result<(), String>)
    ensures
        !has_jpeg_signature(old(jpeg)@) ==> (out matches Err(e) && e@
            == "input is not a JPEG file"@) && final(jpeg)@ == old(jpeg)@,
        has_jpeg_signature(old(jpeg)@) ==> {
            let (bytes, failure) = zero_ids_walk(old(jpeg)@, 2);
            &&& final(jpeg)@ == bytes
            &&& match failure {
                None => out is Ok,
                Some(e) => out matches Err(msg) && msg@ == patch_error_text(e),
            }
        },
{
    let len = jpeg.len();
    if len < 4 || jpeg[0] != 0xff || jpeg[1] != 0xd8 {
        return Err(String::from_str("input is not a JPEG file"));
    }
    let mut index: usize = 2;
    while len - index >= 4
        invariant_except_break
            len == jpeg@.len(),
            2 <= index <= len,
            zero_ids_walk(jpeg@, index as int) == zero_ids_walk(old(jpeg)@, 2),
        invariant
            len == jpeg@.len(),
            has_jpeg_signature(old(jpeg)@),
        ensures
            zero_ids_walk(old(jpeg)@, 2) == (jpeg@, None::<JpegPatchError>),
        decreases len - index,
    {
        let ghost start = index;
        proof {
            lemma_skip_fill_bounds(jpeg@, index as int);
        }
        while index < len && jpeg[index] == 0xff
            invariant
                len == jpeg@.len(),
                start <= index <= len,
                skip_fill(jpeg@, index as int) == skip_fill(jpeg@, start as int),
            decreases len - index,
        {
            index = index + 1;
        }
        assert(index == skip_fill(jpeg@, start as int));
        if index >= len {
            break;
        }
        let marker = jpeg[index];
        index = index + 1;
        if marker == 0xd8 || marker == 0xd9 {
            continue;
        }
        if len - index < 2 {
            break;
        }
        let segment_len = (jpeg[index] as usize) * 256 + jpeg[index + 1] as usize;
        assert(segment_len == read_be_u16(jpeg@, index as int));
        if segment_len < 2 || segment_len > len - index {
            break;
        }
        if sof_marker(marker) {
            if segment_len < 8 {
                return Err(patch_error_string(JpegPatchError::SofSegment));
            }
            let component_count = jpeg[index + 7] as usize;
            let component_table = index + 8;
            if 8 + component_count * 3 > segment_len {
                return Err(patch_error_string(JpegPatchError::SofTable));
            }
            let ghost before = jpeg@;
            let count = if component_count < 3 {
                component_count
            } else {
                3
            };
            let mut component: usize = 0;
            while component < count
                invariant
                    len == jpeg@.len(),
                    len == before.len(),
                    count <= component_count,
                    component_table + 3 * component_count <= len,
                    0 <= component <= count <= 3,
                    jpeg@ == number_ids(before, component_table as int, 3, component as nat),
                decreases count - component,
            {
                proof {
                    lemma_number_ids_len(before, component_table as int, 3, component as nat);
                }
                jpeg[component_table + component * 3] = component as u8;
                component = component + 1;
            }
            proof {
                lemma_number_ids_len(before, component_table as int, 3, count as nat);
            }
        } else if marker == 0xda {
            if segment_len < 4 {
                return Err(patch_error_string(JpegPatchError::SosSegment));
            }
            let component_count = jpeg[index + 2] as usize;
            let component_table = index + 3;
            if 3 + component_count * 2 > segment_len {
                return Err(patch_error_string(JpegPatchError::SosTable));
            }
            let ghost before = jpeg@;
            let count = if component_count < 3 {
                component_count
            } else {
                3
            };
            let mut component: usize = 0;
            while component < count
                invariant
                    len == jpeg@.len(),
                    len == before.len(),
                    count <= component_count,
                    component_table + 2 * component_count <= len,
                    0 <= component <= count <= 3,
                    jpeg@ == number_ids(before, component_table as int, 2, component as nat),
                decreases count - component,
            {
                proof {
                    lemma_number_ids_len(before, component_table as int, 2, component as nat);
                }
                jpeg[component_table + component * 2] = component as u8;
                component = component + 1;
            }
            break;
        }
        index = index + segment_len;
    }
    Ok(())
}

} // verus!

verus! {

/// Whether the five bytes at `at` spell the JFIF identifier "JFIF\0".
pub open spec fn is_jfif_identifier(s: Seq<u8>, at: int) -> bool {
    &&& 0 <= at
    &&& at + 5 <= s.len()
    &&& s[at] == 0x4a
    &&& s[at + 1] == 0x46
    &&& s[at + 2] == 0x49
    &&& s[at + 3] == 0x46
    &&& s[at + 4] == 0x00
}

/// Walks the segments from `index` up to the first scan or end-of-image
/// marker; in the first JFIF APP0 segment found (of length 14 or more) it
/// sets the version bytes to 1.02.
pub open spec fn jfif_walk(s: Seq<u8>, index: int) -> Seq<u8>
    decreases s.len() - index,
{
    if index < 0 || index + 4 > s.len() {
        s
    } else {
        let i = skip_fill(s, index);
        if i >= s.len() || i < index {
            s
        } else {
            let marker = s[i];
            let j = i + 1;
            if marker == 0xda || marker == 0xd9 || j + 2 > s.len() {
                s
            } else {
                let seg = read_be_u16(s, j);
                if seg < 2 || j + seg > s.len() {
                    s
                } else if marker == 0xe0 && seg >= 14 && is_jfif_identifier(s, j + 2) {
                    s.update(j + 7, 0x01).update(j + 8, 0x02)
                } else {
                    jfif_walk(s, j + seg)
                }
            }
        }
    }
}

/// Marks the JPEG's JFIF header as version 1.02.
pub fn patch_jfif_version_102(jpeg: &mut [u8]) -> (out: Result<(), String>)
    ensures
        !has_jpeg_signature(old(jpeg)@) ==> (out matches Err(e) && e@
            == "input is not a JPEG file"@) && final(jpeg)@ == old(jpeg)@,
        has_jpeg_signature(old(jpeg)@) ==> out is Ok && final(jpeg)@ == jfif_walk(
            old(jpeg)@,
            2,
        ),
{
    let len = jpeg.len();
    if len < 4 || jpeg[0] != 0xff || jpeg[1] != 0xd8 {
        return Err(String::from_str("input is not a JPEG file"));
    }
    let mut index: usize = 2;
    while len - index >= 4
        invariant_except_break
            len == jpeg@.len(),
            2 <= index <= len,
            jpeg@ == old(jpeg)@,
            jfif_walk(jpeg@, index as int) == jfif_walk(old(jpeg)@, 2),
        invariant
            len == jpeg@.len(),
        ensures
            jfif_walk(old(jpeg)@, 2) == jpeg@,
        decreases len - index,
    {
        let ghost start = index;
        proof {
            lemma_skip_fill_bounds(jpeg@, index as int);
        }
        while index < len && jpeg[index] == 0xff
            invariant
                len == jpeg@.len(),
                start <= index <= len,
                skip_fill(jpeg@, index as int) == skip_fill(jpeg@, start as int),
            decreases len - index,
        {
            index = index + 1;
        }
        assert(index == skip_fill(jpeg@, start as int));
        if index >= len {
            break;
        }
        let marker = jpeg[index];
        index = index + 1;
        if marker == 0xda || marker == 0xd9 {
            break;
        }
        if len - index < 2 {
            break;
        }
        let segment_len = (jpeg[index] as usize) * 256 + jpeg[index + 1] as usize;
        assert(segment_len == read_be_u16(jpeg@, index as int));
        if segment_len < 2 || segment_len > len - index {
            break;
        }
        let payload_start = index + 2;
        if marker == 0xe0 && segment_len >= 14 && jpeg[payload_start] == 0x4a && jpeg[payload_start
            + 1] == 0x46 && jpeg[payload_start + 2] == 0x49 && jpeg[payload_start + 3] == 0x46
            && jpeg[payload_start + 4] == 0x00 {
            jpeg[payload_start + 5] = 0x01;
            jpeg[payload_start + 6] = 0x02;
            break;
        }
        index = index + segment_len;
    }
    Ok(())
}

/// The comment that the adapter's own encoder writes into its JPEGs.
pub open spec fn ipp_comment() -> Seq<u8> {
    seq![
        0x49u8, 0x6e, 0x74, 0x65, 0x6c, 0x28, 0x52, 0x29, 0x20, 0x49, 0x50, 0x50, 0x20, 0x4a,
        0x50, 0x45, 0x47, 0x20, 0x65, 0x6e, 0x63, 0x6f, 0x64, 0x65, 0x72, 0x20, 0x5b, 0x37,
        0x2e, 0x31, 0x2e, 0x33, 0x37, 0x34, 0x36, 0x36, 0x5d, 0x20, 0x2d, 0x20, 0x53, 0x65,
        0x70, 0x20, 0x32, 0x35, 0x20, 0x32, 0x30, 0x31, 0x32, 0x3b, 0x00,
    ]
}

/// The comment bytes: "Intel(R) IPP JPEG encoder [7.1.37466] - Sep 25 2012;"
/// and a terminating zero.
fn ipp_comment_bytes() -> (v: Vec<u8>)
    ensures
        v@ == ipp_comment(),
{
    let v: Vec<u8> = vec![
        0x49u8, 0x6e, 0x74, 0x65, 0x6c, 0x28, 0x52, 0x29, 0x20, 0x49, 0x50, 0x50, 0x20, 0x4a,
        0x50, 0x45, 0x47, 0x20, 0x65, 0x6e, 0x63, 0x6f, 0x64, 0x65, 0x72, 0x20, 0x5b, 0x37,
        0x2e, 0x31, 0x2e, 0x33, 0x37, 0x34, 0x36, 0x36, 0x5d, 0x20, 0x2d, 0x20, 0x53, 0x65,
        0x70, 0x20, 0x32, 0x35, 0x20, 0x32, 0x30, 0x31, 0x32, 0x3b, 0x00,
    ];
    assert(v@ =~= ipp_comment());
    v
}

/// Whether `w` occurs in `s` as a run of consecutive bytes.
pub open spec fn contains_run(s: Seq<u8>, w: Seq<u8>) -> bool {
    exists|at: int| 0 <= at && at + w.len() <= s.len() && #[trigger] s.subrange(at, at + w.len()) == w
}

fn run_at(s: &[u8], w: &[u8], at: usize) -> (b: bool)
    requires
        at + w@.len() <= s@.len(),
    ensures
        b == (s@.subrange(at as int, at + w@.len()) == w@),
{
    let n = s.len();
    let mut k: usize = 0;
    while k < w.len()
        invariant
            n == s@.len(),
            at + w@.len() <= s@.len(),
            0 <= k <= w@.len(),
            forall|m: int| 0 <= m < k ==> s@[at + m] == w@[m],
        decreases w.len() - k,
    {
        if s[at + k] != w[k] {
            assert(s@.subrange(at as int, at + w@.len())[k as int] != w@[k as int]);
            return false;
        }
        k = k + 1;
    }
    assert(s@.subrange(at as int, at + w@.len()) =~= w@);
    true
}

fn find_run(s: &[u8], w: &[u8]) -> (b: bool)
    ensures
        b == contains_run(s@, w@),
{
    if w.len() > s.len() {
        return false;
    }
    let last = s.len() - w.len();
    let mut at: usize = 0;
    loop
        invariant
            last + w@.len() == s@.len(),
            at <= last,
            forall|p: int| 0 <= p < at ==> #[trigger] s@.subrange(p, p + w@.len()) != w@,
        ensures
            forall|p: int| 0 <= p <= last ==> #[trigger] s@.subrange(p, p + w@.len()) != w@,
        decreases last - at,
    {
        if run_at(s, w, at) {
            assert(s@.subrange(at as int, at + w@.len()) == w@);
            return true;
        }
        if at == last {
            break;
        }
        at = at + 1;
    }
    assert forall|p: int| 0 <= p && p + w@.len() <= s@.len() implies #[trigger] s@.subrange(
        p,
        p + w@.len(),
    ) != w@ by {
        assert(p <= last);
    }
    false
}

/// Where the comment segment goes: after a leading APP0 segment that fits
/// in the data, else right after the start-of-image marker.
pub open spec fn comment_position(s: Seq<u8>) -> int {
    if s.len() >= 6 && s[2] == 0xff && s[3] == 0xe0 && read_be_u16(s, 4) >= 2 && 4 + read_be_u16(
        s,
        4,
    ) <= s.len() {
        4 + read_be_u16(s, 4)
    } else {
        2
    }
}

/// The COM segment that carries the comment.
pub open spec fn comment_segment() -> Seq<u8> {
    seq![0xffu8, 0xfe, 0x00, 55] + ipp_comment()
}

/// `s` with the comment segment inserted at `comment_position`, unless the
/// comment already occurs in it.
pub open spec fn with_ipp_comment(s: Seq<u8>) -> Seq<u8> {
    if contains_run(s, ipp_comment()) {
        s
    } else {
        let at = comment_position(s);
        s.subrange(0, at) + comment_segment() + s.subrange(at, s.len() as int)
    }
}

/// Adds the comment that the adapter's own encoder writes, as a COM
/// segment after the JFIF header, unless the JPEG already holds it.
pub fn insert_intel_ipp_comment(jpeg: &mut Vec<u8>) -> (out: Result<(), String>)
    ensures
        !has_jpeg_signature(old(jpeg)@) ==> (out matches Err(e) && e@
            == "input is not a JPEG file"@) && final(jpeg)@ == old(jpeg)@,
        has_jpeg_signature(old(jpeg)@) ==> out is Ok && final(jpeg)@ == with_ipp_comment(
            old(jpeg)@,
        ),
{
    let len = jpeg.len();
    if len < 4 || jpeg[0] != 0xff || jpeg[1] != 0xd8 {
        return Err(String::from_str("input is not a JPEG file"));
    }
    let comment = ipp_comment_bytes();
    if find_run(jpeg.as_slice(), comment.as_slice()) {
        return Ok(());
    }
    let mut insert_at: usize = 2;
    if len >= 6 && jpeg[2] == 0xff && jpeg[3] == 0xe0 {
        let segment_len = (jpeg[4] as usize) * 256 + jpeg[5] as usize;
        if segment_len >= 2 && 4 + segment_len <= len {
            insert_at = 4 + segment_len;
        }
    }
    assert(insert_at == comment_position(old(jpeg)@));
    let mut segment: Vec<u8> = Vec::new();
    segment.push(0xff);
    segment.push(0xfe);
    segment.push(0x00);
    segment.push(55);
    crate::bytes::append_slice(&mut segment, comment.as_slice());
    assert(segment@ =~= comment_segment());
    let mut rebuilt: Vec<u8> = Vec::new();
    let mut i: usize = 0;
    while i < insert_at
        invariant
            len == jpeg@.len(),
            insert_at <= len,
            0 <= i <= insert_at,
            rebuilt@ == jpeg@.subrange(0, i as int),
        decreases insert_at - i,
    {
        rebuilt.push(jpeg[i]);
        i = i + 1;
    }
    crate::bytes::append_slice(&mut rebuilt, segment.as_slice());
    while i < len
        invariant
            len == jpeg@.len(),
            insert_at <= i <= len,
            rebuilt@ == jpeg@.subrange(0, insert_at as int) + comment_segment() + jpeg@.subrange(
                insert_at as int,
                i as int,
            ),
        decreases len - i,
    {
        rebuilt.push(jpeg[i]);
        i = i + 1;
        proof {
            assert(jpeg@.subrange(insert_at as int, i as int) =~= jpeg@.subrange(
                insert_at as int,
                i - 1,
            ).push(jpeg@[i - 1]));
        }
    }
    *jpeg = rebuilt;
    Ok(())
}

} // verus!

verus! {

/// What the component-id rewrite gives for `s`: the bytes, and the error
/// message where it fails.
pub open spec fn zero_ids_result(s: Seq<u8>) -> (Seq<u8>, Option<Seq<char>>) {
    if !has_jpeg_signature(s) {
        (s, Some("input is not a JPEG file"@))
    } else {
        let (bytes, failure) = zero_ids_walk(s, 2);
        match failure {
            None => (bytes, None),
            Some(e) => (bytes, Some(patch_error_text(e))),
        }
    }
}

/// What the JFIF version rewrite gives for `s`.
pub open spec fn jfif_result(s: Seq<u8>) -> (Seq<u8>, Option<Seq<char>>) {
    if !has_jpeg_signature(s) {
        (s, Some("input is not a JPEG file"@))
    } else {
        (jfif_walk(s, 2), None)
    }
}

/// What the comment insertion gives for `s`.
pub open spec fn comment_result(s: Seq<u8>) -> (Seq<u8>, Option<Seq<char>>) {
    if !has_jpeg_signature(s) {
        (s, Some("input is not a JPEG file"@))
    } else {
        (with_ipp_comment(s), None)
    }
}

/// Which component ids the adapter's partial-update path is sent.
#[derive(Clone, Copy, Debug, PartialEq, Eq)]
pub enum Type7JpegComponentIds {
    /// Renumber the components 0, 1, 2.
    ZeroBased,
    /// Keep the encoder's ids.
    Original,
}

/// The three rewrites in order, stopping at the first that fails: the
/// component ids (when asked for), the JFIF version, the comment.
pub open spec fn mode6_compat_result(s: Seq<u8>, ids: Type7JpegComponentIds) -> (
    Seq<u8>,
    Option<Seq<char>>,
) {
    let first = if ids is ZeroBased {
        zero_ids_result(s)
    } else {
        (s, None)
    };
    if first.1 is Some {
        first
    } else {
        let second = jfif_result(first.0);
        if second.1 is Some {
            second
        } else {
            comment_result(second.0)
        }
    }
}

/// Rewrites a JPEG in place into the form the adapter's partial-update
/// decoder accepts; on failure the bytes are left as the failing step
/// left them.
pub fn patch_jpeg_type7_mode6_compat(jpeg: &mut Vec<u8>, component_ids: Type7JpegComponentIds) -> (out: Result<(), String>)
    ensures
        final(jpeg)@ == mode6_compat_result(old(jpeg)@, component_ids).0,
        match mode6_compat_result(old(jpeg)@, component_ids).1 {
            None => out is Ok,
            Some(msg) => out matches Err(e) && e@ == msg,
        },
{
    if let Type7JpegComponentIds::ZeroBased = component_ids {
        match patch_jpeg_component_ids_zero_based(jpeg.as_mut_slice()) {
            Ok(()) => {},
            Err(e) => return Err(e),
        }
    }
    match patch_jfif_version_102(jpeg.as_mut_slice()) {
        Ok(()) => {},
        Err(e) => return Err(e),
    }
    insert_intel_ipp_comment(jpeg)
}

/// A rewritten copy of a JPEG, as `patch_jpeg_type7_mode6_compat` makes
/// it; the input is left alone.
pub fn type7_mode6_jpeg_compat(jpeg: &[u8], component_ids: Type7JpegComponentIds) -> (out: Result<Vec<u8>, String>)
    ensures
        match mode6_compat_result(jpeg@, component_ids).1 {
            None => out matches Ok(v) && v@ == mode6_compat_result(jpeg@, component_ids).0,
            Some(msg) => out matches Err(e) && e@ == msg,
        },
{
    let mut patched: Vec<u8> = Vec::new();
    crate::bytes::append_slice(&mut patched, jpeg);
    assert(patched@ =~= jpeg@);
    match patch_jpeg_type7_mode6_compat(&mut patched, component_ids) {
        Ok(()) => Ok(patched),
        Err(e) => Err(e),
    }
}

} // verus!

verus! {

/// How one component reads in a sampling summary: "id<id>:<h>x<v>".
pub open spec fn component_summary(c: JpegComponent) -> Seq<char> {
    "id"@ + decimal(c.id as nat) + ":"@ + decimal(c.h_sampling as nat) + "x"@ + decimal(
        c.v_sampling as nat,
    )
}

/// The summaries of the first `n` components, separated by commas.
pub open spec fn sampling_text(cs: Seq<JpegComponent>, n: nat) -> Seq<char>
    decreases n,
{
    if n == 0 {
        Seq::empty()
    } else if n == 1 {
        component_summary(cs[0])
    } else {
        sampling_text(cs, (n - 1) as nat) + ","@ + component_summary(cs[n - 1])
    }
}

impl JpegInfo {
    /// The components' ids and sampling factors, such as
    /// "id1:2x2,id2:1x1,id3:1x1".
    pub fn sampling_summary(&self) -> (s: String)
        ensures
            s@ == sampling_text(self.components@, self.components@.len()),
    {
        let mut out = String::new();
        let mut k: usize = 0;
        while k < self.components.len()
            invariant
                0 <= k <= self.components@.len(),
                out@ == sampling_text(self.components@, k as nat),
            decreases self.components@.len() - k,
        {
            let c = self.components[k];
            let ghost before = out@;
            if k > 0 {
                push_str(&mut out, ",");
            }
            push_str(&mut out, "id");
            push_decimal(&mut out, c.id as u64);
            push_str(&mut out, ":");
            push_decimal(&mut out, c.h_sampling as u64);
            push_str(&mut out, "x");
            push_decimal(&mut out, c.v_sampling as u64);
            proof {
                if k == 0 {
                    assert(before =~= Seq::<char>::empty());
                    assert(out@ =~= component_summary(c));
                } else {
                    assert(out@ =~= before + ","@ + component_summary(c));
                }
            }
            k = k + 1;
        }
        out
    }
}

} // verus!

verus! {

/// Whether reading the frame header of a JPEG would run past its end (a
/// frame header of length 7 that ends the data).
pub fn jpeg_info_would_truncate(jpeg: &[u8]) -> (b: bool)
    ensures
        b == jpeg_info_truncated(jpeg@),
{
    let len = jpeg.len();
    if len < 4 || jpeg[0] != 0xff || jpeg[1] != 0xd8 {
        return false;
    }
    let mut index: usize = 2;
    while len - index >= 4
        invariant_except_break
            len == jpeg@.len(),
            has_jpeg_signature(jpeg@),
            2 <= index <= len,
            sof_scan(jpeg@, index as int) == sof_scan(jpeg@, 2),
        invariant
            len == jpeg@.len(),
            has_jpeg_signature(jpeg@),
        ensures
            sof_scan(jpeg@, 2) is NotFound,
        decreases len - index,
    {
        let ghost start = index;
        proof {
            lemma_skip_fill_bounds(jpeg@, index as int);
        }
        while index < len && jpeg[index] == 0xff
            invariant
                len == jpeg@.len(),
                start <= index <= len,
                skip_fill(jpeg@, index as int) == skip_fill(jpeg@, start as int),
            decreases len - index,
        {
            index = index + 1;
        }
        assert(index == skip_fill(jpeg@, start as int));
        if index >= len {
            break;
        }
        let marker = jpeg[index];
        index = index + 1;
        if marker == 0xd8 || marker == 0xd9 {
            continue;
        }
        if len - index < 2 {
            break;
        }
        let segment_len = (jpeg[index] as usize) * 256 + jpeg[index + 1] as usize;
        assert(segment_len == read_be_u16(jpeg@, index as int));
        if segment_len < 2 || segment_len > len - index {
            break;
        }
        if sof_marker(marker) {
            if segment_len < 7 {
                break;
            }
            return index + 7 >= len;
        }
        index = index + segment_len;
    }
    false
}

} // verus!

verus! {

/// Adding the comment a second time changes nothing: the first insertion
/// leaves a JPEG that already holds it.
pub proof fn lemma_ipp_comment_idempotent(s: Seq<u8>)
    requires
        has_jpeg_signature(s),
    ensures
        has_jpeg_signature(comment_result(s).0),
        comment_result(comment_result(s).0) == comment_result(s),
{
    let t = with_ipp_comment(s);
    if !contains_run(s, ipp_comment()) {
        let at = comment_position(s);
        assert(2 <= at <= s.len());
        let w = ipp_comment();
        assert(t.subrange(at + 4, at + 4 + w.len()) =~= w);
        assert(contains_run(t, w));
        assert(t[0] == s[0] && t[1] == s[1]);
    }
}

} // verus!

verus! {

proof fn lemma_number_ids_keeps_prefix(s: Seq<u8>, table: int, stride: int, n: nat, k: int)
    requires
        stride >= 0,
        0 <= k < table,
        k < s.len(),
    ensures
        number_ids(s, table, stride, n)[k] == s[k],
        number_ids(s, table, stride, n).len() == s.len(),
    decreases n,
{
    lemma_number_ids_len(s, table, stride, n);
    if n > 0 {
        lemma_number_ids_keeps_prefix(s, table, stride, (n - 1) as nat, k);
        lemma_number_ids_len(s, table, stride, (n - 1) as nat);
    }
}

proof fn lemma_zero_ids_walk_shape(s: Seq<u8>, index: int)
    requires
        index >= 2,
    ensures
        zero_ids_walk(s, index).0.len() == s.len(),
        forall|k: int| 0 <= k < 2 && k < s.len() ==> #[trigger] zero_ids_walk(s, index).0[k] == s[k],
    decreases s.len() - index,
{
    if !(index < 0 || index + 4 > s.len()) {
        let i = skip_fill(s, index);
        if !(i >= s.len() || i < index) {
            let marker = s[i];
            let j = i + 1;
            if marker == 0xd8 || marker == 0xd9 {
                lemma_zero_ids_walk_shape(s, j);
            } else if !(j + 2 > s.len()) {
                let seg = read_be_u16(s, j);
                if !(seg < 2 || j + seg > s.len()) {
                    if is_sof_marker(marker) {
                        if !(seg < 8) && !(j + 8 + 3 * s[j + 7] > j + seg) {
                            let t = number_ids(s, j + 8, 3, first_three(s[j + 7]));
                            lemma_number_ids_len(s, j + 8, 3, first_three(s[j + 7]));
                            lemma_zero_ids_walk_shape(t, j + seg);
                            assert forall|k: int| 0 <= k < 2 && k < s.len() implies #[trigger] t[k]
                                == s[k] by {
                                lemma_number_ids_keeps_prefix(s, j + 8, 3, first_three(s[j + 7]), k);
                            }
                        }
                    } else if marker == 0xda {
                        if !(seg < 4) && !(j + 3 + 2 * s[j + 2] > j + seg) {
                            lemma_number_ids_len(s, j + 3, 2, first_three(s[j + 2]));
                            let t = number_ids(s, j + 3, 2, first_three(s[j + 2]));
                            assert forall|k: int| 0 <= k < 2 && k < s.len() implies #[trigger] t[k]
                                == s[k] by {
                                lemma_number_ids_keeps_prefix(s, j + 3, 2, first_three(s[j + 2]), k);
                            }
                        }
                    } else {
                        lemma_zero_ids_walk_shape(s, j + seg);
                    }
                }
            }
        }
    }
}

proof fn lemma_jfif_walk_shape(s: Seq<u8>, index: int)
    requires
        index >= 2,
    ensures
        jfif_walk(s, index).len() == s.len(),
        forall|k: int| 0 <= k < 2 && k < s.len() ==> #[trigger] jfif_walk(s, index)[k] == s[k],
    decreases s.len() - index,
{
    if !(index < 0 || index + 4 > s.len()) {
        let i = skip_fill(s, index);
        if !(i >= s.len() || i < index) {
            let marker = s[i];
            let j = i + 1;
            if !(marker == 0xda || marker == 0xd9 || j + 2 > s.len()) {
                let seg = read_be_u16(s, j);
                if !(seg < 2 || j + seg > s.len()) && !(marker == 0xe0 && seg >= 14
                    && is_jfif_identifier(s, j + 2)) {
                    lemma_jfif_walk_shape(s, j + seg);
                }
            }
        }
    }
}

/// The three rewrites keep a JPEG a JPEG: the component renumbering and the
/// version rewrite keep the length and the start-of-image marker, and the
/// comment adds exactly its 57-byte segment when it is missing; so the
/// whole rewrite of a JPEG that succeeds is again a JPEG.
pub proof fn lemma_rewrites_keep_jpeg(s: Seq<u8>, ids: Type7JpegComponentIds)
    requires
        has_jpeg_signature(s),
    ensures
        zero_ids_result(s).0.len() == s.len(),
        has_jpeg_signature(zero_ids_result(s).0),
        jfif_result(s).0.len() == s.len(),
        has_jpeg_signature(jfif_result(s).0),
        comment_result(s).0.len() == s.len() + (if contains_run(s, ipp_comment()) {
            0int
        } else {
            57
        }),
        has_jpeg_signature(comment_result(s).0),
        mode6_compat_result(s, ids).1 is None ==> has_jpeg_signature(
            mode6_compat_result(s, ids).0,
        ),
{
    lemma_zero_ids_walk_shape(s, 2);
    lemma_jfif_walk_shape(s, 2);
    lemma_ipp_comment_idempotent(s);
    let first = if ids is ZeroBased {
        zero_ids_result(s)
    } else {
        (s, None)
    };
    if first.1 is None {
        lemma_jfif_walk_shape(first.0, 2);
        let second = jfif_result(first.0);
        if second.1 is None {
            lemma_ipp_comment_idempotent(second.0);
        }
    }
    if !contains_run(s, ipp_comment()) {
        let at = comment_position(s);
        assert(ipp_comment().len() == 53);
        assert(comment_segment().len() == 57);
    }
}

} // verus!
