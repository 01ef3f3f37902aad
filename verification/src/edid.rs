//! EDID decoding: block checksums, the extension count, detailed timing
//! descriptors, and the monitor name and serial descriptors.
use vstd::prelude::*;

use crate::EDID_BLOCK_SIZE;
use crate::EDID_MAX_BLOCKS;

verus! {

/// The EDID blocks read from a monitor, base block first.
#[derive(Clone, Debug, Eq, PartialEq)]
pub struct Edid {
    blocks: Vec<[u8; 128]>,
}

/// One detailed timing descriptor.
#[derive(Clone, Copy, Debug, Eq, PartialEq)]
pub struct EdidDetailedTiming {
    pub pixel_clock_khz: u32,
    pub horizontal_active: u16,
    pub horizontal_blanking: u16,
    pub vertical_active: u16,
    pub vertical_blanking: u16,
    pub refresh_hz: Option<u16>,
}

impl View for Edid {
    type V = Seq<Seq<u8>>;

    /// The bytes of each block, in order.
    closed spec fn view(&self) -> Seq<Seq<u8>> {
        self.blocks@.map_values(|b: [u8; 128]| b@)
    }
}

/// The sum of the bytes of `s`.
pub open spec fn byte_sum(s: Seq<u8>) -> int
    decreases s.len(),
{
    if s.len() == 0 {
        0
    } else {
        byte_sum(s.drop_last()) + s.last()
    }
}

/// A block is valid when its bytes sum to a multiple of 256.
pub open spec fn checksum_ok(s: Seq<u8>) -> bool {
    byte_sum(s) % 256 == 0
}

/// The 16-bit value of the two little-endian bytes at `at`.
pub open spec fn le16(d: Seq<u8>, at: int) -> int {
    d[at] + 256 * d[at + 1]
}

/// A 12-bit field: the low byte at `lo`, the high nibble taken from the
/// upper (`upper`) or lower half of the byte at `hi`.
pub open spec fn twelve_bit(d: Seq<u8>, lo: int, hi: int, upper: bool) -> int {
    if upper {
        d[lo] + 256 * (d[hi] / 16)
    } else {
        d[lo] + 256 * (d[hi] % 16)
    }
}

/// The timing an 18-byte detailed timing descriptor describes; none for a
/// pixel clock of zero (a display descriptor) or a descriptor of another
/// length. The refresh rate is the pixel clock over the total raster, cut
/// to 16 bits, and absent when the raster is empty.
pub open spec fn spec_detailed_timing(d: Seq<u8>) -> Option<EdidDetailedTiming> {
    if d.len() != 18 || le16(d, 0) == 0 {
        None
    } else {
        let ha = twelve_bit(d, 2, 4, true);
        let hb = twelve_bit(d, 3, 4, false);
        let va = twelve_bit(d, 5, 7, true);
        let vb = twelve_bit(d, 6, 7, false);
        let khz = 10 * le16(d, 0);
        Some(
            EdidDetailedTiming {
                pixel_clock_khz: khz as u32,
                horizontal_active: ha as u16,
                horizontal_blanking: hb as u16,
                vertical_active: va as u16,
                vertical_blanking: vb as u16,
                refresh_hz: if ha + hb == 0 || va + vb == 0 {
                    None
                } else {
                    Some((khz * 1000 / (ha + hb) / (va + vb)) as u16)
                },
            },
        )
    }
}

/// The descriptor of 18 bytes that starts at `start`.
pub open spec fn descriptor_at(b: Seq<u8>, start: int) -> Seq<u8> {
    b.subrange(start, start + 18)
}

/// A sequence of the value in `o`, or an empty one.
pub open spec fn option_seq<T>(o: Option<T>) -> Seq<T> {
    match o {
        Some(v) => seq![v],
        None => Seq::empty(),
    }
}

/// The timings of the first `n` descriptors from `start`, 18 bytes apart,
/// skipping those that hold no timing.
pub open spec fn timings_from(b: Seq<u8>, start: int, n: nat) -> Seq<EdidDetailedTiming>
    decreases n,
{
    if n == 0 {
        Seq::empty()
    } else {
        timings_from(b, start, (n - 1) as nat) + option_seq(
            spec_detailed_timing(descriptor_at(b, start + 18 * (n - 1))),
        )
    }
}

/// The timings of a CTA extension block: descriptors from the offset in
/// byte 2 up to the end of the block; none for another kind of block or an
/// offset of zero or past the block.
pub open spec fn extension_timings(b: Seq<u8>) -> Seq<EdidDetailedTiming> {
    if b[0] != 0x02 || b[2] == 0 || b[2] >= 128 {
        Seq::empty()
    } else {
        timings_from(b, b[2] as int, ((128 - b[2]) / 18) as nat)
    }
}

/// The timings of the extension blocks before index `k` (the base block
/// excluded).
pub open spec fn extensions_timings(blocks: Seq<Seq<u8>>, k: int) -> Seq<EdidDetailedTiming>
    decreases k,
{
    if k <= 1 {
        Seq::empty()
    } else {
        extensions_timings(blocks, k - 1) + extension_timings(blocks[k - 1])
    }
}

/// Every detailed timing: the four descriptors of the base block, then
/// those of each CTA extension block.
pub open spec fn all_timings(blocks: Seq<Seq<u8>>) -> Seq<EdidDetailedTiming> {
    if blocks.len() == 0 {
        Seq::empty()
    } else {
        timings_from(blocks[0], 54, 4) + extensions_timings(blocks, blocks.len() as int)
    }
}

/// The first of the descriptors `k..4` of the base block that holds a
/// timing.
pub open spec fn first_timing(b: Seq<u8>, k: int) -> Option<EdidDetailedTiming>
    decreases 4 - k,
{
    if k >= 4 || k < 0 {
        None
    } else {
        match spec_detailed_timing(descriptor_at(b, 54 + 18 * k)) {
            Some(t) => Some(t),
            None => first_timing(b, k + 1),
        }
    }
}

/// The number of blocks an EDID declares: its extension count (byte 126
/// of the base block, zero without one) plus the base block.
pub open spec fn declared_blocks(blocks: Seq<Seq<u8>>) -> int {
    (if blocks.len() == 0 {
        0
    } else {
        blocks[0][126] as int
    }) + 1
}

/// Whether a timing is 3840 pixels wide or 2160 lines high or more.
pub open spec fn is_4k_hint(t: EdidDetailedTiming) -> bool {
    t.horizontal_active >= 3840 || t.vertical_active >= 2160
}

fn timing_at(b: &[u8], start: usize) -> (t: Option<EdidDetailedTiming>)
    requires
        start + 18 <= b@.len(),
    ensures
        t == spec_detailed_timing(descriptor_at(b@, start as int)),
{
    let d0 = b[start] as u32;
    let d1 = b[start + 1] as u32;
    let pixel_clock_10khz = d0 + 256 * d1;
    if pixel_clock_10khz == 0 {
        return None;
    }
    let d2 = b[start + 2] as u16;
    let d3 = b[start + 3] as u16;
    let d4 = b[start + 4] as u16;
    let d5 = b[start + 5] as u16;
    let d6 = b[start + 6] as u16;
    let d7 = b[start + 7] as u16;
    let horizontal_active = d2 + 256 * (d4 / 16);
    let horizontal_blanking = d3 + 256 * (d4 % 16);
    let vertical_active = d5 + 256 * (d7 / 16);
    let vertical_blanking = d6 + 256 * (d7 % 16);
    let horizontal_total = (horizontal_active + horizontal_blanking) as u32;
    let vertical_total = (vertical_active + vertical_blanking) as u32;
    let pixel_clock_khz = pixel_clock_10khz * 10;
    let refresh_hz = if horizontal_total == 0 || vertical_total == 0 {
        None
    } else {
        Some(#[verifier::truncate] ((pixel_clock_khz * 1000 / horizontal_total / vertical_total) as u16))
    };
    let ghost d = descriptor_at(b@, start as int);
    assert(d[0] == b@[start as int] && d[1] == b@[start + 1] && d[2] == b@[start + 2] && d[3]
        == b@[start + 3] && d[4] == b@[start + 4] && d[5] == b@[start + 5] && d[6] == b@[start
        + 6] && d[7] == b@[start + 7]);
    Some(
        EdidDetailedTiming {
            pixel_clock_khz,
            horizontal_active,
            horizontal_blanking,
            vertical_active,
            vertical_blanking,
            refresh_hz,
        },
    )
}

/// Decodes an 18-byte detailed timing descriptor.
pub fn parse_detailed_timing(descriptor: &[u8]) -> (t: Option<EdidDetailedTiming>)
    ensures
        t == spec_detailed_timing(descriptor@),
{
    if descriptor.len() != 18 {
        return None;
    }
    let t = timing_at(descriptor, 0);
    assert(descriptor_at(descriptor@, 0) =~= descriptor@);
    t
}

/// Whether the bytes of an EDID block sum to a multiple of 256.
pub fn edid_checksum_is_valid(block: &[u8; 128]) -> (b: bool)
    ensures
        b == checksum_ok(block@),
{
    let mut sum: u8 = 0;
    let mut i: usize = 0;
    while i < EDID_BLOCK_SIZE
        invariant
            0 <= i <= 128,
            block@.len() == 128,
            sum == byte_sum(block@.take(i as int)) % 256,
        decreases 128 - i,
    {
        proof {
            assert(block@.take(i + 1).drop_last() =~= block@.take(i as int));
        }
        sum = sum.wrapping_add(block[i]);
        i = i + 1;
    }
    assert(block@.take(128) =~= block@);
    sum == 0
}

/// What `String::from_utf8_lossy` makes of some bytes.
pub uninterp spec fn utf8_lossy(bytes: Seq<u8>) -> Seq<char>;

/// Whether every byte is ASCII.
pub open spec fn all_ascii(bytes: Seq<u8>) -> bool {
    forall|i: int| 0 <= i < bytes.len() ==> bytes[i] < 0x80
}

/// Whether `c` has the Unicode White_Space property: tab, line feed,
/// vertical tab, form feed, carriage return, space, next line, no-break
/// space, ogham space mark, the spaces U+2000 to U+200A, line and paragraph
/// separators, narrow no-break space, medium mathematical space and
/// ideographic space.
pub open spec fn is_white_space(c: char) -> bool {
    let u = c as u32;
    (0x09 <= u <= 0x0d) || u == 0x20 || u == 0x85 || u == 0xa0 || u == 0x1680 || (0x2000 <= u
        <= 0x200a) || u == 0x2028 || u == 0x2029 || u == 0x202f || u == 0x205f || u == 0x3000
}

/// `s` without its leading white space.
pub open spec fn trim_start_white(s: Seq<char>) -> Seq<char>
    decreases s.len(),
{
    if s.len() > 0 && is_white_space(s[0]) {
        trim_start_white(s.drop_first())
    } else {
        s
    }
}

/// `s` without its trailing white space.
pub open spec fn trim_end_white(s: Seq<char>) -> Seq<char>
    decreases s.len(),
{
    if s.len() > 0 && is_white_space(s.last()) {
        trim_end_white(s.drop_last())
    } else {
        s
    }
}

/// `String::from_utf8_lossy`: decodes bytes as UTF-8, putting U+FFFD in
/// place of each invalid sequence. Claimed: the result is `utf8_lossy` of
/// the bytes, and ASCII bytes decode to the characters of the same codes.
#[verifier::external_body]
fn decode_utf8_lossy(bytes: &[u8]) -> (s: String)
    ensures
        s@ == utf8_lossy(bytes@),
        all_ascii(bytes@) ==> s@ == bytes@.map_values(|b: u8| b as char),
{
    String::from_utf8_lossy(bytes).into_owned()
}

/// `str::trim`: drops the leading and trailing characters with the Unicode
/// White_Space property. Claimed: exactly that.
#[verifier::external_body]
fn trim_whitespace(s: &str) -> (t: String)
    ensures
        t@ == trim_end_white(trim_start_white(s@)),
{
    s.trim().to_string()
}

/// The bytes of `s` up to the first line feed or zero byte.
pub open spec fn text_prefix(s: Seq<u8>) -> Seq<u8>
    decreases s.len(),
{
    if s.len() == 0 || s[0] == 0x0a || s[0] == 0 {
        Seq::empty()
    } else {
        seq![s[0]] + text_prefix(s.drop_first())
    }
}

/// The 13 text bytes of display descriptor `k` of the base block.
pub open spec fn descriptor_field(b: Seq<u8>, k: int) -> Seq<u8> {
    b.subrange(54 + 18 * k + 5, 54 + 18 * k + 18)
}

/// The text of the display descriptor `k` of the base block: its 13 text
/// bytes up to a line feed or zero, decoded and trimmed.
pub open spec fn descriptor_text(b: Seq<u8>, k: int) -> Seq<char> {
    trim_end_white(trim_start_white(utf8_lossy(text_prefix(descriptor_field(b, k)))))
}

/// The text of display descriptor `k` when its bytes are ASCII: each byte
/// up to a line feed or zero is the character of the same code, and
/// leading and trailing white space is dropped.
pub open spec fn ascii_descriptor_text(b: Seq<u8>, k: int) -> Seq<char> {
    trim_end_white(
        trim_start_white(text_prefix(descriptor_field(b, k)).map_values(|x: u8| x as char)),
    )
}

/// The first of the descriptors `k..4` with the tag whose ASCII text is
/// not empty.
pub open spec fn ascii_tagged_text(b: Seq<u8>, tag: u8, k: int) -> Option<Seq<char>>
    decreases 4 - k,
{
    if k >= 4 || k < 0 {
        None
    } else if is_tagged_descriptor(b, k, tag) && ascii_descriptor_text(b, k).len() > 0 {
        Some(ascii_descriptor_text(b, k))
    } else {
        ascii_tagged_text(b, tag, k + 1)
    }
}

/// Whether the text bytes of every descriptor of the base block that has
/// the tag are ASCII.
pub open spec fn tagged_fields_ascii(blocks: Seq<Seq<u8>>, tag: u8) -> bool {
    blocks.len() > 0 ==> forall|k: int|
        0 <= k < 4 && #[trigger] is_tagged_descriptor(blocks[0], k, tag) ==> all_ascii(
            descriptor_field(blocks[0], k),
        )
}

/// The text of the first display descriptor with the tag, read as ASCII.
pub open spec fn spec_ascii_descriptor_string(blocks: Seq<Seq<u8>>, tag: u8) -> Option<Seq<char>> {
    if blocks.len() == 0 {
        None
    } else {
        ascii_tagged_text(blocks[0], tag, 0)
    }
}

/// The text up to a line feed or zero is a prefix of the bytes, so it is
/// ASCII when they are.
proof fn lemma_text_prefix_ascii(s: Seq<u8>)
    requires
        all_ascii(s),
    ensures
        all_ascii(text_prefix(s)),
    decreases s.len(),
{
    if s.len() > 0 && s[0] != 0x0a && s[0] != 0 {
        lemma_text_prefix_ascii(s.drop_first());
        let rest = text_prefix(s.drop_first());
        assert forall|i: int| 0 <= i < text_prefix(s).len() implies text_prefix(s)[i] < 0x80 by {
            if i > 0 {
                assert(text_prefix(s)[i] == rest[i - 1]);
            }
        }
    }
}

/// Whether descriptor `k` of the base block is a display descriptor with
/// the given tag.
pub open spec fn is_tagged_descriptor(b: Seq<u8>, k: int, tag: u8) -> bool {
    let start = 54 + 18 * k;
    b[start] == 0 && b[start + 1] == 0 && b[start + 2] == 0 && b[start + 3] == tag
}

/// The text of the first of the descriptors `k..4` with the tag whose text
/// is not empty.
pub open spec fn tagged_text(b: Seq<u8>, tag: u8, k: int) -> Option<Seq<char>>
    decreases 4 - k,
{
    if k >= 4 || k < 0 {
        None
    } else if is_tagged_descriptor(b, k, tag) && descriptor_text(b, k).len() > 0 {
        Some(descriptor_text(b, k))
    } else {
        tagged_text(b, tag, k + 1)
    }
}

/// The text of the first display descriptor with the tag, if the EDID has
/// a base block.
pub open spec fn spec_descriptor_string(blocks: Seq<Seq<u8>>, tag: u8) -> Option<Seq<char>> {
    if blocks.len() == 0 {
        None
    } else {
        tagged_text(blocks[0], tag, 0)
    }
}

/// The view of an optional string.
pub open spec fn opt_view(s: Option<String>) -> Option<Seq<char>> {
    match s {
        Some(v) => Some(v@),
        None => None,
    }
}

impl Edid {
    proof fn lemma_view(&self)
        ensures
            self@.len() == self.blocks@.len(),
            forall|k: int| 0 <= k < self@.len() ==> #[trigger] self@[k] == self.blocks@[k]@,
            forall|k: int| 0 <= k < self@.len() ==> #[trigger] self@[k].len() == 128,
    {
    }

    /// The EDID made of these blocks.
    pub fn from_blocks(blocks: Vec<[u8; 128]>) -> (e: Self)
        ensures
            e@ == blocks@.map_values(|b: [u8; 128]| b@),
    {
        Edid { blocks }
    }

    /// The blocks, base block first.
    pub fn blocks(&self) -> (b: &[[u8; 128]])
        ensures
            b@.map_values(|x: [u8; 128]| x@) == self@,
    {
        self.blocks.as_slice()
    }

    /// The number of extension blocks the base block declares (byte 126);
    /// zero without a base block.
    pub fn extension_count(&self) -> (n: u8)
        ensures
            n == (if self@.len() == 0 {
                0
            } else {
                self@[0][126]
            }),
    {
        proof {
            self.lemma_view();
        }
        if self.blocks.len() == 0 {
            0
        } else {
            self.blocks[0][126]
        }
    }

    /// The number of blocks the EDID declares, the base block included.
    pub fn declared_block_count(&self) -> (n: usize)
        ensures
            n == declared_blocks(self@),
    {
        self.extension_count() as usize + 1
    }

    /// The declared block count, but at most `EDID_MAX_BLOCKS`.
    pub fn clamped_block_count(&self) -> (n: usize)
        ensures
            n == (if declared_blocks(self@) < EDID_MAX_BLOCKS {
                declared_blocks(self@)
            } else {
                EDID_MAX_BLOCKS as int
            }),
    {
        let declared = self.declared_block_count();
        if declared < EDID_MAX_BLOCKS {
            declared
        } else {
            EDID_MAX_BLOCKS
        }
    }

    /// Whether there is a base block and its checksum holds.
    pub fn is_base_checksum_valid(&self) -> (b: bool)
        ensures
            b == (self@.len() > 0 && checksum_ok(self@[0])),
    {
        proof {
            self.lemma_view();
        }
        if self.blocks.len() == 0 {
            false
        } else {
            edid_checksum_is_valid(&self.blocks[0])
        }
    }

    /// Whether the checksum of each block holds, in block order.
    pub fn block_checksum_validity(&self) -> (v: Vec<bool>)
        ensures
            v@.len() == self@.len(),
            forall|k: int| 0 <= k < v@.len() ==> #[trigger] v@[k] == checksum_ok(self@[k]),
    {
        proof {
            self.lemma_view();
        }
        let mut v: Vec<bool> = Vec::new();
        let mut k: usize = 0;
        while k < self.blocks.len()
            invariant
                0 <= k <= self.blocks@.len(),
                self@.len() == self.blocks@.len(),
                forall|j: int| 0 <= j < self@.len() ==> #[trigger] self@[j] == self.blocks@[j]@,
                v@.len() == k,
                forall|j: int| 0 <= j < k ==> #[trigger] v@[j] == checksum_ok(self@[j]),
            decreases self.blocks@.len() - k,
        {
            v.push(edid_checksum_is_valid(&self.blocks[k]));
            k = k + 1;
        }
        v
    }

    /// The timing of the first of the four descriptors of the base block
    /// that holds one.
    pub fn preferred_timing(&self) -> (t: Option<EdidDetailedTiming>)
        ensures
            t == (if self@.len() == 0 {
                None
            } else {
                first_timing(self@[0], 0)
            }),
    {
        proof {
            self.lemma_view();
        }
        if self.blocks.len() == 0 {
            return None;
        }
        let base = self.blocks[0].as_slice();
        let mut k: usize = 0;
        while k < 4
            invariant
                0 <= k <= 4,
                self@.len() > 0,
                base@ == self@[0],
                base@.len() == 128,
                first_timing(base@, 0) == first_timing(base@, k as int),
            decreases 4 - k,
        {
            let timing = timing_at(base, 54 + k * 18);
            if timing.is_some() {
                return timing;
            }
            k = k + 1;
        }
        None
    }

    /// Every detailed timing of the base block and of the CTA extension
    /// blocks, in block and descriptor order.
    pub fn detailed_timings(&self) -> (v: Vec<EdidDetailedTiming>)
        ensures
            v@ == all_timings(self@),
    {
        proof {
            self.lemma_view();
        }
        let mut timings: Vec<EdidDetailedTiming> = Vec::new();
        if self.blocks.len() == 0 {
            return timings;
        }
        let base = self.blocks[0].as_slice();
        let mut k: usize = 0;
        while k < 4
            invariant
                0 <= k <= 4,
                base@ == self@[0],
                base@.len() == 128,
                timings@ == timings_from(base@, 54, k as nat),
            decreases 4 - k,
        {
            let timing = timing_at(base, 54 + k * 18);
            if let Some(t) = timing {
                timings.push(t);
            }
            k = k + 1;
        }
        let mut e: usize = 1;
        while e < self.blocks.len()
            invariant
                1 <= e <= self.blocks@.len(),
                self@.len() == self.blocks@.len(),
                forall|j: int| 0 <= j < self@.len() ==> #[trigger] self@[j] == self.blocks@[j]@,
                forall|j: int| 0 <= j < self@.len() ==> #[trigger] self@[j].len() == 128,
                timings@ == timings_from(self@[0], 54, 4) + extensions_timings(self@, e as int),
            decreases self.blocks@.len() - e,
        {
            let ghost before = timings@;
            let extension = self.blocks[e].as_slice();
            assert(extension@ == self@[e as int]);
            if extension[0] == 0x02 {
                let dtd_start = extension[2] as usize;
                if dtd_start != 0 && dtd_start < EDID_BLOCK_SIZE {
                    let mut start = dtd_start;
                    let ghost count = ((128 - dtd_start) / 18) as nat;
                    let mut n: usize = 0;
                    while start + 18 <= EDID_BLOCK_SIZE
                        invariant
                            extension@.len() == 128,
                            1 <= dtd_start < 128,
                            start == dtd_start + 18 * n,
                            count == ((128 - dtd_start) / 18) as nat,
                            n <= count,
                            timings@ == before + timings_from(extension@, dtd_start as int, n as nat),
                        decreases 128 - start,
                    {
                        let timing = timing_at(extension, start);
                        if let Some(t) = timing {
                            timings.push(t);
                        }
                        start = start + 18;
                        n = n + 1;
                    }
                    assert(n == count);
                }
            }
            assert(timings@ =~= timings_from(self@[0], 54, 4) + extensions_timings(self@, e + 1));
            e = e + 1;
        }
        assert(timings@ =~= all_timings(self@));
        timings
    }

    /// Whether some detailed timing is 3840 wide or 2160 high or more.
    pub fn has_4k_timing_hint(&self) -> (b: bool)
        ensures
            b == (exists|i: int| 0 <= i < all_timings(self@).len() && is_4k_hint(#[trigger] all_timings(self@)[i])),
    {
        let timings = self.detailed_timings();
        let mut i: usize = 0;
        while i < timings.len()
            invariant
                timings@ == all_timings(self@),
                0 <= i <= timings@.len(),
                forall|j: int| 0 <= j < i ==> !is_4k_hint(#[trigger] timings@[j]),
            decreases timings@.len() - i,
        {
            let t = timings[i];
            if t.horizontal_active >= 3840 || t.vertical_active >= 2160 {
                assert(is_4k_hint(all_timings(self@)[i as int]));
                return true;
            }
            i = i + 1;
        }
        false
    }

    fn descriptor_string(&self, tag: u8) -> (s: Option<String>)
        ensures
            opt_view(s) == spec_descriptor_string(self@, tag),
            tagged_fields_ascii(self@, tag) ==> opt_view(s) == spec_ascii_descriptor_string(
                self@,
                tag,
            ),
    {
        proof {
            self.lemma_view();
        }
        if self.blocks.len() == 0 {
            return None;
        }
        let base = self.blocks[0].as_slice();
        let mut k: usize = 0;
        while k < 4
            invariant
                0 <= k <= 4,
                self@.len() > 0,
                base@ == self@[0],
                base@.len() == 128,
                tagged_text(base@, tag, 0) == tagged_text(base@, tag, k as int),
                tagged_fields_ascii(self@, tag) ==> ascii_tagged_text(base@, tag, 0)
                    == ascii_tagged_text(base@, tag, k as int),
            decreases 4 - k,
        {
            let start = 54 + k * 18;
            if base[start] == 0 && base[start + 1] == 0 && base[start + 2] == 0 && base[start + 3]
                == tag {
                let mut text: Vec<u8> = Vec::new();
                let mut i: usize = start + 5;
                let ghost raw = base@.subrange(start + 5, start + 18);
                while i < start + 18 && base[i] != 0x0a && base[i] != 0
                    invariant
                        base@.len() == 128,
                        start == 54 + 18 * k,
                        k < 4,
                        raw == base@.subrange(start + 5, start + 18),
                        start + 5 <= i <= start + 18,
                        text@ + text_prefix(base@.subrange(i as int, start + 18)) == text_prefix(
                            raw,
                        ),
                    decreases start + 18 - i,
                {
                    proof {
                        let rest = base@.subrange(i as int, start + 18);
                        assert(rest.drop_first() =~= base@.subrange(i + 1, start + 18));
                        assert(text@.push(base@[i as int]) + text_prefix(rest.drop_first())
                            =~= text@ + text_prefix(rest));
                    }
                    text.push(base[i]);
                    i = i + 1;
                }
                proof {
                    let rest = base@.subrange(i as int, start + 18);
                    assert(text_prefix(rest) =~= Seq::<u8>::empty());
                    assert(text@ =~= text_prefix(raw));
                }
                let decoded = decode_utf8_lossy(text.as_slice());
                proof {
                    assert(raw == descriptor_field(base@, k as int));
                    if tagged_fields_ascii(self@, tag) {
                        assert(is_tagged_descriptor(base@, k as int, tag));
                        lemma_text_prefix_ascii(raw);
                    }
                }
                let value = trim_whitespace(decoded.as_str());
                if !value.as_str().is_empty() {
                    return Some(value);
                }
            }
            k = k + 1;
        }
        None
    }

    /// The monitor name descriptor's text (tag 0xfc).
    pub fn monitor_name(&self) -> (s: Option<String>)
        ensures
            opt_view(s) == spec_descriptor_string(self@, 0xfc),
            tagged_fields_ascii(self@, 0xfc) ==> opt_view(s) == spec_ascii_descriptor_string(
                self@,
                0xfc,
            ),
    {
        self.descriptor_string(0xfc)
    }

    /// The monitor serial descriptor's text (tag 0xff).
    pub fn monitor_serial(&self) -> (s: Option<String>)
        ensures
            opt_view(s) == spec_descriptor_string(self@, 0xff),
            tagged_fields_ascii(self@, 0xff) ==> opt_view(s) == spec_ascii_descriptor_string(
                self@,
                0xff,
            ),
    {
        self.descriptor_string(0xff)
    }
}

} // verus!

verus! {

/// The preferred timing is the first of the detailed timings: it is there
/// exactly when some descriptor of the base block holds a timing, and the
/// list starts with it.
pub proof fn lemma_preferred_timing_leads_timings(blocks: Seq<Seq<u8>>)
    requires
        blocks.len() > 0,
    ensures
        first_timing(blocks[0], 0) == (if timings_from(blocks[0], 54, 4).len() > 0 {
            Some(all_timings(blocks)[0])
        } else {
            None::<EdidDetailedTiming>
        }),
        first_timing(blocks[0], 0) is None <==> timings_from(blocks[0], 54, 4).len() == 0,
{
    let b = blocks[0];
    reveal_with_fuel(timings_from, 5);
    reveal_with_fuel(first_timing, 5);
    let t0 = spec_detailed_timing(descriptor_at(b, 54));
    let t1 = spec_detailed_timing(descriptor_at(b, 72));
    let t2 = spec_detailed_timing(descriptor_at(b, 90));
    let t3 = spec_detailed_timing(descriptor_at(b, 108));
    assert(timings_from(b, 54, 4) =~= option_seq(t0) + option_seq(t1) + option_seq(t2)
        + option_seq(t3));
    let base = timings_from(b, 54, 4);
    assert(all_timings(blocks) == base + extensions_timings(blocks, blocks.len() as int));
    if base.len() > 0 {
        assert(all_timings(blocks)[0] == base[0]);
    }
}


/// Reading more descriptors only adds timings after those already read.
proof fn lemma_timings_from_prefix(b: Seq<u8>, start: int, m: nat, n: nat)
    requires
        m <= n,
    ensures
        timings_from(b, start, m).len() <= timings_from(b, start, n).len(),
        forall|i: int|
            0 <= i < timings_from(b, start, m).len() ==> timings_from(b, start, n)[i]
                == timings_from(b, start, m)[i],
    decreases n,
{
    if m < n {
        lemma_timings_from_prefix(b, start, m, (n - 1) as nat);
    }
}

/// Reading more extension blocks only adds timings after those already read.
proof fn lemma_extensions_prefix(blocks: Seq<Seq<u8>>, m: int, n: int)
    requires
        m <= n,
    ensures
        extensions_timings(blocks, m).len() <= extensions_timings(blocks, n).len(),
        forall|i: int|
            0 <= i < extensions_timings(blocks, m).len() ==> extensions_timings(blocks, n)[i]
                == extensions_timings(blocks, m)[i],
    decreases n,
{
    if m < n && n > 1 {
        lemma_extensions_prefix(blocks, m, n - 1);
    }
}

/// Where the timing of descriptor `k` of CTA extension block `j` stands
/// in the list of all timings.
spec fn cta_timing_index(blocks: Seq<Seq<u8>>, j: int, k: int) -> int {
    (timings_from(blocks[0], 54, 4).len() + extensions_timings(blocks, j).len() + timings_from(
        blocks[j],
        blocks[j][2] as int,
        k as nat,
    ).len()) as int
}

/// The timing of descriptor `k` of CTA extension block `j` stands at
/// `cta_timing_index` in the list of all timings, and later descriptors of
/// the block stand after it.
proof fn lemma_cta_timing_at(blocks: Seq<Seq<u8>>, j: int, k: int)
    requires
        1 <= j < blocks.len(),
        blocks[j].len() == 128,
        blocks[j][0] == 0x02,
        0 < blocks[j][2],
        0 <= k,
        blocks[j][2] + 18 * (k + 1) <= 128,
        spec_detailed_timing(descriptor_at(blocks[j], blocks[j][2] + 18 * k)) is Some,
    ensures
        0 <= cta_timing_index(blocks, j, k) < all_timings(blocks).len(),
        all_timings(blocks)[cta_timing_index(blocks, j, k)] == spec_detailed_timing(
            descriptor_at(blocks[j], blocks[j][2] + 18 * k),
        )->0,
        cta_timing_index(blocks, j, k) < cta_timing_index(blocks, j, k + 1),
{
    let b = blocks[j];
    let d = b[2] as int;
    let cnt = ((128 - d) / 18) as nat;
    assert(k + 1 <= cnt) by (nonlinear_arith)
        requires
            d + 18 * (k + 1) <= 128,
            cnt == (128 - d) / 18,
            0 < d,
    ;
    let t = spec_detailed_timing(descriptor_at(b, d + 18 * k))->0;
    let tk = timings_from(b, d, k as nat);
    assert(timings_from(b, d, (k + 1) as nat) == tk + seq![t]);
    lemma_timings_from_prefix(b, d, (k + 1) as nat, cnt);
    let ext = extension_timings(b);
    assert(ext == timings_from(b, d, cnt));
    assert(ext[tk.len() as int] == t);
    let ej = extensions_timings(blocks, j);
    assert(extensions_timings(blocks, j + 1) == ej + ext);
    assert(extensions_timings(blocks, j + 1)[(ej.len() + tk.len()) as int] == t);
    lemma_extensions_prefix(blocks, j + 1, blocks.len() as int);
    let base = timings_from(blocks[0], 54, 4);
    assert(all_timings(blocks) == base + extensions_timings(blocks, blocks.len() as int));
}

/// Every descriptor of a CTA extension block that fits between the
/// block's descriptor offset (byte 2) and the block's end and has a
/// nonzero pixel clock gives a detailed timing: however many such
/// descriptors the block holds, each of their timings is in the EDID's
/// list, and a later descriptor's timing comes after an earlier one's.
pub proof fn lemma_cta_descriptors_all_listed(blocks: Seq<Seq<u8>>, j: int, k1: int, k2: int)
    requires
        1 <= j < blocks.len(),
        blocks[j].len() == 128,
        blocks[j][0] == 0x02,
        0 < blocks[j][2],
        0 <= k1 < k2,
        blocks[j][2] + 18 * (k2 + 1) <= 128,
        le16(descriptor_at(blocks[j], blocks[j][2] + 18 * k1), 0) != 0,
        le16(descriptor_at(blocks[j], blocks[j][2] + 18 * k2), 0) != 0,
    ensures
        exists|i1: int, i2: int|
            0 <= i1 < i2 < all_timings(blocks).len() && all_timings(blocks)[i1]
                == spec_detailed_timing(descriptor_at(blocks[j], blocks[j][2] + 18 * k1))->0
                && all_timings(blocks)[i2] == spec_detailed_timing(
                descriptor_at(blocks[j], blocks[j][2] + 18 * k2),
            )->0,
{
    let d = blocks[j][2] as int;
    lemma_cta_timing_at(blocks, j, k1);
    lemma_cta_timing_at(blocks, j, k2);
    let b = blocks[j];
    lemma_timings_from_prefix(b, d, (k1 + 1) as nat, k2 as nat);
    let i1 = cta_timing_index(blocks, j, k1);
    let i2 = cta_timing_index(blocks, j, k2);
    assert(i1 < i2);
    assert(all_timings(blocks)[i1] == spec_detailed_timing(descriptor_at(b, d + 18 * k1))->0);
}

/// Each descriptor of a CTA extension block that fits between the block's
/// descriptor offset and its end and has a nonzero pixel clock gives a
/// timing in the EDID's list; one 3840 wide or 2160 high makes the 4K hint
/// hold.
pub proof fn lemma_cta_descriptor_listed(blocks: Seq<Seq<u8>>, j: int, k: int)
    requires
        1 <= j < blocks.len(),
        blocks[j].len() == 128,
        blocks[j][0] == 0x02,
        0 < blocks[j][2],
        0 <= k,
        blocks[j][2] + 18 * (k + 1) <= 128,
        le16(descriptor_at(blocks[j], blocks[j][2] + 18 * k), 0) != 0,
    ensures
        all_timings(blocks).contains(
            spec_detailed_timing(descriptor_at(blocks[j], blocks[j][2] + 18 * k))->0,
        ),
        is_4k_hint(spec_detailed_timing(descriptor_at(blocks[j], blocks[j][2] + 18 * k))->0)
            ==> exists|i: int|
            0 <= i < all_timings(blocks).len() && is_4k_hint(#[trigger] all_timings(blocks)[i]),
{
    lemma_cta_timing_at(blocks, j, k);
    let i = cta_timing_index(blocks, j, k);
    assert(all_timings(blocks)[i] == spec_detailed_timing(
        descriptor_at(blocks[j], blocks[j][2] + 18 * k),
    )->0);
}


/// Each of the four descriptors of the base block with a nonzero pixel
/// clock gives a timing in the EDID's list, in descriptor order, ahead of
/// every timing of the extension blocks.
pub proof fn lemma_base_descriptors_listed(blocks: Seq<Seq<u8>>, k1: int, k2: int)
    requires
        blocks.len() > 0,
        blocks[0].len() == 128,
        0 <= k1 < k2 < 4,
        le16(descriptor_at(blocks[0], 54 + 18 * k1), 0) != 0,
        le16(descriptor_at(blocks[0], 54 + 18 * k2), 0) != 0,
    ensures
        exists|i1: int, i2: int|
            0 <= i1 < i2 < all_timings(blocks).len() && all_timings(blocks)[i1]
                == spec_detailed_timing(descriptor_at(blocks[0], 54 + 18 * k1))->0
                && all_timings(blocks)[i2] == spec_detailed_timing(
                descriptor_at(blocks[0], 54 + 18 * k2),
            )->0,
{
    let b = blocks[0];
    let t1 = spec_detailed_timing(descriptor_at(b, 54 + 18 * k1))->0;
    let t2 = spec_detailed_timing(descriptor_at(b, 54 + 18 * k2))->0;
    let p1 = timings_from(b, 54, k1 as nat);
    let p2 = timings_from(b, 54, k2 as nat);
    assert(timings_from(b, 54, (k1 + 1) as nat) == p1 + seq![t1]);
    assert(timings_from(b, 54, (k2 + 1) as nat) == p2 + seq![t2]);
    lemma_timings_from_prefix(b, 54, (k1 + 1) as nat, 4);
    lemma_timings_from_prefix(b, 54, (k2 + 1) as nat, 4);
    lemma_timings_from_prefix(b, 54, (k1 + 1) as nat, k2 as nat);
    let base = timings_from(b, 54, 4);
    assert(all_timings(blocks) == base + extensions_timings(blocks, blocks.len() as int));
    assert(base[p1.len() as int] == t1);
    assert(base[p2.len() as int] == t2);
    assert(all_timings(blocks)[p1.len() as int] == t1);
    assert(all_timings(blocks)[p2.len() as int] == t2);
}

} // verus!

