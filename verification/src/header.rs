//! The bulk DMA header that precedes every bulk transfer, and the video flip
//! header that starts every display payload.
use vstd::prelude::*;

use crate::bytes::{
    le_u16, le_u32, lemma_le_u16_roundtrip, lemma_le_u32_roundtrip, put_le_u16, put_le_u32,
    read_le_u16, read_le_u32,
};
use crate::{
    BULK_DMA_HEADER_SIZE, PACKET_FLAG_CONTINUE_TO_SEND, PACKET_FLAG_NONE, SIGNATURE_DISPLAY,
    VIDEO_CMD_FLIP_PRIMARY, VIDEO_CMD_FLIP_SECONDARY, VIDEO_COLOR_JPEG, VIDEO_COLOR_NV12,
    VIDEO_COLOR_RGB24, VIDEO_COLOR_YUV444, VIDEO_COLOR_YV12, VIDEO_FLIP_HEADER_SIZE,
};

verus! {

/// Header of one bulk transfer: which part of which payload follows.
#[derive(Clone, Debug, PartialEq, Eq)]
pub struct BulkDmaHeader {
    pub signature: u32,
    pub payload_length: u32,
    pub payload_address: u32,
    pub packet_size: u32,
    pub packet_offset: u32,
    pub packet_flags: u8,
    pub function_specific: [u8; 8],
}

impl BulkDmaHeader {
    /// The 32 bytes that describe this header on the wire.
    pub open spec fn spec_bytes(&self) -> Seq<u8> {
        le_u32(self.signature) + le_u32(self.payload_length) + le_u32(self.payload_address)
            + le_u32(self.packet_size) + le_u32(self.packet_offset) + seq![
            self.packet_flags,
            0u8,
            0u8,
            0u8,
        ] + self.function_specific@
    }

    /// Whether this is the display header for the fragment of
    /// `packet_size` bytes at `packet_offset` of a payload.
    pub open spec fn is_display_header(
        &self,
        payload_length: u32,
        payload_address: u32,
        packet_size: u32,
        packet_offset: u32,
        more_packets: bool,
    ) -> bool {
        &&& self.signature == SIGNATURE_DISPLAY
        &&& self.payload_length == payload_length
        &&& self.payload_address == payload_address
        &&& self.packet_size == packet_size
        &&& self.packet_offset == packet_offset
        &&& self.packet_flags == if more_packets {
            PACKET_FLAG_CONTINUE_TO_SEND
        } else {
            PACKET_FLAG_NONE
        }
        &&& self.function_specific@ == Seq::new(8, |i: int| 0u8)
    }

    /// A display header for the fragment of `packet_size` bytes at
    /// `packet_offset` of a payload; the continue flag marks that more
    /// fragments follow.
    pub fn display(
        payload_length: u32,
        payload_address: u32,
        packet_size: u32,
        packet_offset: u32,
        more_packets: bool,
    ) -> (header: Self)
        ensures
            header.is_display_header(
                payload_length,
                payload_address,
                packet_size,
                packet_offset,
                more_packets,
            ),
    {
        let header = Self {
            signature: SIGNATURE_DISPLAY,
            payload_length,
            payload_address,
            packet_size,
            packet_offset,
            packet_flags: if more_packets {
                PACKET_FLAG_CONTINUE_TO_SEND
            } else {
                PACKET_FLAG_NONE
            },
            function_specific: [0u8; 8],
        };
        assert(header.function_specific@ =~= Seq::new(8, |i: int| 0u8));
        header
    }

    /// The wire form: each 32-bit field little-endian at offsets 0, 4, 8,
    /// 12 and 16, the flags at 20, zeros at 21..24, then the eight
    /// function-specific bytes.
    pub fn to_bytes(&self) -> (out: [u8; BULK_DMA_HEADER_SIZE])
        ensures
            out@ == self.spec_bytes(),
    {
        let mut out = [0u8; BULK_DMA_HEADER_SIZE];
        put_le_u32(&mut out, 0, self.signature);
        put_le_u32(&mut out, 4, self.payload_length);
        put_le_u32(&mut out, 8, self.payload_address);
        put_le_u32(&mut out, 12, self.packet_size);
        put_le_u32(&mut out, 16, self.packet_offset);
        out[20] = self.packet_flags;
        let mut i: usize = 0;
        while i < 8
            invariant
                0 <= i <= 8,
                out@.len() == 32,
                forall|k: int| 0 <= k < 20 ==> #[trigger] out@[k] == self.spec_bytes()[k],
                out@[20] == self.packet_flags,
                forall|k: int| 21 <= k < 24 ==> #[trigger] out@[k] == 0u8,
                forall|k: int| 24 <= k < 24 + i ==> #[trigger] out@[k] == self.function_specific@[k - 24],
            decreases 8 - i,
        {
            out[24 + i] = self.function_specific[i];
            i = i + 1;
        }
        assert(out@ =~= self.spec_bytes());
        out
    }
}

/// Header at the start of every display payload: which display, what the
/// payload holds, and where the decoded planes go in the adapter's VRAM.
#[derive(Clone, Debug, PartialEq, Eq)]
pub struct VideoFlipHeader {
    pub command: u32,
    pub payload_size: u32,
    pub fence_id: u32,
    pub target_format: u32,
    pub y_rgb_pitch: u16,
    pub uv_pitch: u16,
    pub y_rgb_data_fb_offset: u32,
    pub u_uv_data_offset: u32,
    pub v_data_offset: u32,
    pub source_format: u32,
    pub flags: u8,
}

/// The flip command for a display: primary for display 0, secondary otherwise.
pub open spec fn spec_flip_command(display_index: u8) -> u32 {
    if display_index == 0 {
        VIDEO_CMD_FLIP_PRIMARY
    } else {
        VIDEO_CMD_FLIP_SECONDARY
    }
}

/// `value` rounded up to a multiple of `alignment`, kept to its low 16 bits.
pub open spec fn spec_align_u16(value: u16, alignment: u16) -> u16 {
    (((value + alignment - 1) / (alignment as int) * alignment) % 65536) as u16
}

/// Header fields for a JPEG payload decoded into `target_format`.
pub open spec fn spec_jpeg_flip(
    display_index: u8,
    payload_size: u32,
    width: u16,
    height: u16,
    framebuffer_address: u32,
    target_format: u32,
    flags: u8,
) -> VideoFlipHeader {
    let pitch = spec_align_u16(width, 32);
    let y_block_size = pitch * spec_align_u16(height, 32) + 1024;
    VideoFlipHeader {
        command: spec_flip_command(display_index),
        payload_size,
        fence_id: 0,
        target_format,
        y_rgb_pitch: pitch,
        uv_pitch: pitch,
        y_rgb_data_fb_offset: framebuffer_address,
        u_uv_data_offset: (framebuffer_address + y_block_size) as u32,
        v_data_offset: 0,
        source_format: VIDEO_COLOR_JPEG,
        flags,
    }
}

/// Whether the chroma address of a JPEG header fits in 32 bits.
pub open spec fn jpeg_flip_fits(width: u16, height: u16, framebuffer_address: u32) -> bool {
    framebuffer_address + spec_align_u16(width, 32) * spec_align_u16(height, 32) + 1024
        <= u32::MAX
}

/// Header fields for a raw NV12 payload that follows the header.
pub open spec fn spec_nv12_flip(
    display_index: u8,
    payload_size: u32,
    width: u16,
    height: u16,
    framebuffer_address: u32,
    flags: u8,
) -> VideoFlipHeader {
    let pitch = spec_align_u16(width, 16);
    let data_start = framebuffer_address + VIDEO_FLIP_HEADER_SIZE;
    VideoFlipHeader {
        command: spec_flip_command(display_index),
        payload_size,
        fence_id: 0,
        target_format: VIDEO_COLOR_NV12,
        y_rgb_pitch: pitch,
        uv_pitch: pitch,
        y_rgb_data_fb_offset: data_start as u32,
        u_uv_data_offset: (data_start + pitch * height) as u32,
        v_data_offset: 0,
        source_format: VIDEO_COLOR_NV12,
        flags,
    }
}

/// Whether the plane addresses of an NV12 header fit in 32 bits.
pub open spec fn nv12_flip_fits(width: u16, height: u16, framebuffer_address: u32) -> bool {
    framebuffer_address + VIDEO_FLIP_HEADER_SIZE + spec_align_u16(width, 16) * height <= u32::MAX
}

/// Header fields for a raw YV12 payload that follows the header.
pub open spec fn spec_yv12_flip(
    display_index: u8,
    payload_size: u32,
    width: u16,
    height: u16,
    framebuffer_address: u32,
    flags: u8,
) -> VideoFlipHeader {
    let y_pitch = spec_align_u16(width, 16);
    let uv_pitch = spec_align_u16(width / 2, 16);
    let y_offset = y_pitch * height;
    let v_offset = y_offset + uv_pitch * (height / 2);
    let data_start = framebuffer_address + VIDEO_FLIP_HEADER_SIZE;
    VideoFlipHeader {
        command: spec_flip_command(display_index),
        payload_size,
        fence_id: 0,
        target_format: VIDEO_COLOR_YV12,
        y_rgb_pitch: y_pitch,
        uv_pitch,
        y_rgb_data_fb_offset: data_start as u32,
        u_uv_data_offset: (data_start + y_offset) as u32,
        v_data_offset: (data_start + v_offset) as u32,
        source_format: VIDEO_COLOR_YV12,
        flags,
    }
}

/// Whether the plane addresses of a YV12 header fit in 32 bits.
pub open spec fn yv12_flip_fits(width: u16, height: u16, framebuffer_address: u32) -> bool {
    framebuffer_address + VIDEO_FLIP_HEADER_SIZE + spec_align_u16(width, 16) * height
        + spec_align_u16(width / 2, 16) * (height / 2) <= u32::MAX
}

/// Header fields for a packed 3-byte-per-pixel payload (`RGB24` or
/// `YUV444`) that follows the header.
pub open spec fn spec_packed_flip(
    display_index: u8,
    payload_size: u32,
    width: u16,
    framebuffer_address: u32,
    format: u32,
    flags: u8,
) -> VideoFlipHeader {
    VideoFlipHeader {
        command: spec_flip_command(display_index),
        payload_size,
        fence_id: 0,
        target_format: format,
        y_rgb_pitch: (width * 3) as u16,
        uv_pitch: 0,
        y_rgb_data_fb_offset: (framebuffer_address + VIDEO_FLIP_HEADER_SIZE) as u32,
        u_uv_data_offset: 0,
        v_data_offset: 0,
        source_format: format,
        flags,
    }
}

/// Whether a packed header's pitch and data address fit their fields.
pub open spec fn packed_flip_fits(width: u16, framebuffer_address: u32) -> bool {
    width * 3 <= u16::MAX && framebuffer_address + VIDEO_FLIP_HEADER_SIZE <= u32::MAX
}

impl VideoFlipHeader {
    /// The 48 bytes that describe this header on the wire.
    pub open spec fn spec_bytes(&self) -> Seq<u8> {
        le_u32(self.command) + le_u32(self.payload_size) + le_u32(self.fence_id) + le_u32(
            self.target_format,
        ) + le_u16(self.y_rgb_pitch) + le_u16(self.uv_pitch) + le_u32(self.y_rgb_data_fb_offset)
            + le_u32(self.u_uv_data_offset) + le_u32(self.v_data_offset) + le_u32(
            self.source_format,
        ) + Seq::new(11, |i: int| 0u8) + seq![self.flags]
    }

    /// Header for a JPEG payload that the adapter decodes into NV12.
    pub fn jpeg(
        display_index: u8,
        payload_size: u32,
        width: u16,
        height: u16,
        framebuffer_address: u32,
        flags: u8,
    ) -> (header: Self)
        requires
            jpeg_flip_fits(width, height, framebuffer_address),
        ensures
            header == spec_jpeg_flip(
                display_index,
                payload_size,
                width,
                height,
                framebuffer_address,
                VIDEO_COLOR_NV12,
                flags,
            ),
    {
        Self::jpeg_with_target_format(
            display_index,
            payload_size,
            width,
            height,
            framebuffer_address,
            VIDEO_COLOR_NV12,
            flags,
        )
    }

    /// Header for a JPEG payload that the adapter decodes into
    /// `target_format`: pitch is the width rounded up to 32, and the chroma
    /// plane starts after the 32-aligned luma block and 1024 bytes.
    pub fn jpeg_with_target_format(
        display_index: u8,
        payload_size: u32,
        width: u16,
        height: u16,
        framebuffer_address: u32,
        target_format: u32,
        flags: u8,
    ) -> (header: Self)
        requires
            jpeg_flip_fits(width, height, framebuffer_address),
        ensures
            header == spec_jpeg_flip(
                display_index,
                payload_size,
                width,
                height,
                framebuffer_address,
                target_format,
                flags,
            ),
    {
        let pitch = align_u16(width, 32);
        let aligned_height = align_u16(height, 32);
        assert(pitch * aligned_height <= 65535 * 65535) by (nonlinear_arith)
            requires
                pitch <= 65535,
                aligned_height <= 65535,
        ;
        let y_block_size = (pitch as u32) * (aligned_height as u32) + 1024;
        Self {
            command: flip_command(display_index),
            payload_size,
            fence_id: 0,
            target_format,
            y_rgb_pitch: pitch,
            uv_pitch: pitch,
            y_rgb_data_fb_offset: framebuffer_address,
            u_uv_data_offset: framebuffer_address + y_block_size,
            v_data_offset: 0,
            source_format: VIDEO_COLOR_JPEG,
            flags,
        }
    }

    /// Header for raw NV12 data that follows the header: pitch is the width
    /// rounded up to 16 and the interleaved chroma plane follows the luma
    /// plane.
    pub fn nv12(
        display_index: u8,
        payload_size: u32,
        width: u16,
        height: u16,
        framebuffer_address: u32,
        flags: u8,
    ) -> (header: Self)
        requires
            nv12_flip_fits(width, height, framebuffer_address),
        ensures
            header == spec_nv12_flip(
                display_index,
                payload_size,
                width,
                height,
                framebuffer_address,
                flags,
            ),
    {
        let pitch = align_u16(width, 16);
        assert(pitch * height <= 65535 * 65535) by (nonlinear_arith)
            requires
                pitch <= 65535,
                height <= 65535,
        ;
        let uv_offset = (pitch as u32) * (height as u32);
        let data_start = framebuffer_address + VIDEO_FLIP_HEADER_SIZE as u32;
        Self {
            command: flip_command(display_index),
            payload_size,
            fence_id: 0,
            target_format: VIDEO_COLOR_NV12,
            y_rgb_pitch: pitch,
            uv_pitch: pitch,
            y_rgb_data_fb_offset: data_start,
            u_uv_data_offset: data_start + uv_offset,
            v_data_offset: 0,
            source_format: VIDEO_COLOR_NV12,
            flags,
        }
    }

    /// Header for raw YV12 data that follows the header: luma pitch is the
    /// width rounded up to 16, chroma pitch is half the width rounded up to
    /// 16, and the two chroma planes follow the luma plane.
    pub fn yv12(
        display_index: u8,
        payload_size: u32,
        width: u16,
        height: u16,
        framebuffer_address: u32,
        flags: u8,
    ) -> (header: Self)
        requires
            yv12_flip_fits(width, height, framebuffer_address),
        ensures
            header == spec_yv12_flip(
                display_index,
                payload_size,
                width,
                height,
                framebuffer_address,
                flags,
            ),
    {
        let y_pitch = align_u16(width, 16);
        let uv_pitch = align_u16(width / 2, 16);
        let half_height = height / 2;
        assert(y_pitch * height <= 65535 * 65535) by (nonlinear_arith)
            requires
                y_pitch <= 65535,
                height <= 65535,
        ;
        assert(uv_pitch * half_height <= 65535 * 65535) by (nonlinear_arith)
            requires
                uv_pitch <= 65535,
                half_height <= 65535,
        ;
        let y_offset = (y_pitch as u32) * (height as u32);
        let v_offset = y_offset + (uv_pitch as u32) * (half_height as u32);
        let data_start = framebuffer_address + VIDEO_FLIP_HEADER_SIZE as u32;
        Self {
            command: flip_command(display_index),
            payload_size,
            fence_id: 0,
            target_format: VIDEO_COLOR_YV12,
            y_rgb_pitch: y_pitch,
            uv_pitch,
            y_rgb_data_fb_offset: data_start,
            u_uv_data_offset: data_start + y_offset,
            v_data_offset: data_start + v_offset,
            source_format: VIDEO_COLOR_YV12,
            flags,
        }
    }

    /// Header for packed RGB24 data that follows the header.
    pub fn rgb24(
        display_index: u8,
        payload_size: u32,
        width: u16,
        framebuffer_address: u32,
        flags: u8,
    ) -> (header: Self)
        requires
            packed_flip_fits(width, framebuffer_address),
        ensures
            header == spec_packed_flip(
                display_index,
                payload_size,
                width,
                framebuffer_address,
                VIDEO_COLOR_RGB24,
                flags,
            ),
    {
        let data_start = framebuffer_address + VIDEO_FLIP_HEADER_SIZE as u32;
        Self {
            command: flip_command(display_index),
            payload_size,
            fence_id: 0,
            target_format: VIDEO_COLOR_RGB24,
            y_rgb_pitch: width * 3,
            uv_pitch: 0,
            y_rgb_data_fb_offset: data_start,
            u_uv_data_offset: 0,
            v_data_offset: 0,
            source_format: VIDEO_COLOR_RGB24,
            flags,
        }
    }

    /// Header for packed YUV 4:4:4 data that follows the header.
    pub fn yuv444(
        display_index: u8,
        payload_size: u32,
        width: u16,
        framebuffer_address: u32,
        flags: u8,
    ) -> (header: Self)
        requires
            packed_flip_fits(width, framebuffer_address),
        ensures
            header == spec_packed_flip(
                display_index,
                payload_size,
                width,
                framebuffer_address,
                VIDEO_COLOR_YUV444,
                flags,
            ),
    {
        let data_start = framebuffer_address + VIDEO_FLIP_HEADER_SIZE as u32;
        Self {
            command: flip_command(display_index),
            payload_size,
            fence_id: 0,
            target_format: VIDEO_COLOR_YUV444,
            y_rgb_pitch: width * 3,
            uv_pitch: 0,
            y_rgb_data_fb_offset: data_start,
            u_uv_data_offset: 0,
            v_data_offset: 0,
            source_format: VIDEO_COLOR_YUV444,
            flags,
        }
    }

    /// The wire form: the ten fields little-endian in declaration order
    /// (bytes 0..36), zeros at 36..47, and the flags in the last byte.
    pub fn to_bytes(&self) -> (out: [u8; VIDEO_FLIP_HEADER_SIZE])
        ensures
            out@ == self.spec_bytes(),
    {
        let mut out = [0u8; VIDEO_FLIP_HEADER_SIZE];
        put_le_u32(&mut out, 0, self.command);
        put_le_u32(&mut out, 4, self.payload_size);
        put_le_u32(&mut out, 8, self.fence_id);
        put_le_u32(&mut out, 12, self.target_format);
        put_le_u16(&mut out, 16, self.y_rgb_pitch);
        put_le_u16(&mut out, 18, self.uv_pitch);
        put_le_u32(&mut out, 20, self.y_rgb_data_fb_offset);
        put_le_u32(&mut out, 24, self.u_uv_data_offset);
        put_le_u32(&mut out, 28, self.v_data_offset);
        put_le_u32(&mut out, 32, self.source_format);
        out[47] = self.flags;
        assert(out@ =~= self.spec_bytes());
        out
    }
}

/// Every field of a bulk header can be read back from its wire form.
pub proof fn lemma_bulk_header_fields_roundtrip(header: BulkDmaHeader)
    ensures
        header.spec_bytes().len() == BULK_DMA_HEADER_SIZE,
        read_le_u32(header.spec_bytes(), 0) == header.signature,
        read_le_u32(header.spec_bytes(), 4) == header.payload_length,
        read_le_u32(header.spec_bytes(), 8) == header.payload_address,
        read_le_u32(header.spec_bytes(), 12) == header.packet_size,
        read_le_u32(header.spec_bytes(), 16) == header.packet_offset,
        header.spec_bytes()[20] == header.packet_flags,
        header.spec_bytes().subrange(24, 32) == header.function_specific@,
{
    let s = header.spec_bytes();
    lemma_le_u32_roundtrip(header.signature);
    lemma_le_u32_roundtrip(header.payload_length);
    lemma_le_u32_roundtrip(header.payload_address);
    lemma_le_u32_roundtrip(header.packet_size);
    lemma_le_u32_roundtrip(header.packet_offset);
    assert(read_le_u32(s, 0) == read_le_u32(le_u32(header.signature), 0));
    assert(read_le_u32(s, 4) == read_le_u32(le_u32(header.payload_length), 0));
    assert(read_le_u32(s, 8) == read_le_u32(le_u32(header.payload_address), 0));
    assert(read_le_u32(s, 12) == read_le_u32(le_u32(header.packet_size), 0));
    assert(read_le_u32(s, 16) == read_le_u32(le_u32(header.packet_offset), 0));
    assert(s.subrange(24, 32) =~= header.function_specific@);
}

/// Every field of a video flip header can be read back from its wire form.
pub proof fn lemma_flip_header_fields_roundtrip(header: VideoFlipHeader)
    ensures
        header.spec_bytes().len() == VIDEO_FLIP_HEADER_SIZE,
        read_le_u32(header.spec_bytes(), 0) == header.command,
        read_le_u32(header.spec_bytes(), 4) == header.payload_size,
        read_le_u32(header.spec_bytes(), 8) == header.fence_id,
        read_le_u32(header.spec_bytes(), 12) == header.target_format,
        read_le_u16(header.spec_bytes(), 16) == header.y_rgb_pitch,
        read_le_u16(header.spec_bytes(), 18) == header.uv_pitch,
        read_le_u32(header.spec_bytes(), 20) == header.y_rgb_data_fb_offset,
        read_le_u32(header.spec_bytes(), 24) == header.u_uv_data_offset,
        read_le_u32(header.spec_bytes(), 28) == header.v_data_offset,
        read_le_u32(header.spec_bytes(), 32) == header.source_format,
        header.spec_bytes()[47] == header.flags,
{
    let s = header.spec_bytes();
    lemma_le_u32_roundtrip(header.command);
    lemma_le_u32_roundtrip(header.payload_size);
    lemma_le_u32_roundtrip(header.fence_id);
    lemma_le_u32_roundtrip(header.target_format);
    lemma_le_u16_roundtrip(header.y_rgb_pitch);
    lemma_le_u16_roundtrip(header.uv_pitch);
    lemma_le_u32_roundtrip(header.y_rgb_data_fb_offset);
    lemma_le_u32_roundtrip(header.u_uv_data_offset);
    lemma_le_u32_roundtrip(header.v_data_offset);
    lemma_le_u32_roundtrip(header.source_format);
    assert(read_le_u32(s, 0) == read_le_u32(le_u32(header.command), 0));
    assert(read_le_u32(s, 4) == read_le_u32(le_u32(header.payload_size), 0));
    assert(read_le_u32(s, 8) == read_le_u32(le_u32(header.fence_id), 0));
    assert(read_le_u32(s, 12) == read_le_u32(le_u32(header.target_format), 0));
    assert(read_le_u16(s, 16) == read_le_u16(le_u16(header.y_rgb_pitch), 0));
    assert(read_le_u16(s, 18) == read_le_u16(le_u16(header.uv_pitch), 0));
    assert(read_le_u32(s, 20) == read_le_u32(le_u32(header.y_rgb_data_fb_offset), 0));
    assert(read_le_u32(s, 24) == read_le_u32(le_u32(header.u_uv_data_offset), 0));
    assert(read_le_u32(s, 28) == read_le_u32(le_u32(header.v_data_offset), 0));
    assert(read_le_u32(s, 32) == read_le_u32(le_u32(header.source_format), 0));
}

fn flip_command(display_index: u8) -> (command: u32)
    ensures
        command == spec_flip_command(display_index),
{
    if display_index == 0 {
        VIDEO_CMD_FLIP_PRIMARY
    } else {
        VIDEO_CMD_FLIP_SECONDARY
    }
}

fn align_u16(value: u16, alignment: u16) -> (aligned: u16)
    requires
        alignment > 0,
    ensures
        aligned == spec_align_u16(value, alignment),
{
    let v = value as u32;
    let a = alignment as u32;
    let q = (v + a - 1) / a;
    assert(q * a <= v + a - 1) by (nonlinear_arith)
        requires
            a > 0,
            q == (v + a - 1) / (a as int),
            v + a - 1 >= 0,
    ;
    let product = q * a;
    assert(product as u16 == product % 65536) by (bit_vector);
    product as u16
}

/// Whether a JPEG frame of this size decodes into framebuffer addresses
/// that stay within 32 bits.
pub fn jpeg_frame_fits(width: u16, height: u16, framebuffer_address: u32) -> (b: bool)
    ensures
        b == jpeg_flip_fits(width, height, framebuffer_address),
{
    let pitch = align_u16(width, 32) as u64;
    let rows = align_u16(height, 32) as u64;
    assert(pitch * rows <= 65535 * 65535) by (nonlinear_arith)
        requires
            pitch <= 65535,
            rows <= 65535,
    ;
    framebuffer_address as u64 + pitch * rows + 1024 <= u32::MAX as u64
}


/// JPEG flip headers: the chroma rows are as wide as the luma rows, whose
/// pitch is the width rounded up to a multiple of 32 (for widths that
/// leave room for the rounding in 16 bits); on the wire the two pitches
/// are the same two bytes, and the chroma plane starts one aligned luma
/// plane plus 1024 bytes after the framebuffer address.
pub proof fn lemma_jpeg_flip_pitches(
    display_index: u8,
    payload_size: u32,
    width: u16,
    height: u16,
    framebuffer_address: u32,
    target_format: u32,
    flags: u8,
)
    ensures
        ({
            let h = spec_jpeg_flip(
                display_index,
                payload_size,
                width,
                height,
                framebuffer_address,
                target_format,
                flags,
            );
            &&& h.uv_pitch == h.y_rgb_pitch
            &&& read_le_u16(h.spec_bytes(), 18) == read_le_u16(h.spec_bytes(), 16)
            &&& width <= 65504 ==> (h.y_rgb_pitch % 32 == 0 && width <= h.y_rgb_pitch
                < width + 32)
            &&& h.payload_size == payload_size
            &&& h.y_rgb_data_fb_offset == framebuffer_address
        }),
{
    let h = spec_jpeg_flip(
        display_index,
        payload_size,
        width,
        height,
        framebuffer_address,
        target_format,
        flags,
    );
    lemma_flip_header_fields_roundtrip(h);
    if width <= 65504 {
        let w = width as int;
        let q = (w + 31) / 32;
        assert(q * 32 <= w + 31 && w + 31 < q * 32 + 32) by (nonlinear_arith)
            requires
                q == (w + 31) / 32,
                w >= 0,
        ;
        assert(q * 32 < 65536);
        assert((q * 32) % 65536 == q * 32);
        assert((q * 32) % 32 == 0) by (nonlinear_arith);
    }
}

/// Raw NV12 flip headers have chroma rows as wide as the luma rows too.
pub proof fn lemma_nv12_flip_pitches(
    display_index: u8,
    payload_size: u32,
    width: u16,
    height: u16,
    framebuffer_address: u32,
    flags: u8,
)
    ensures
        ({
            let h = spec_nv12_flip(
                display_index,
                payload_size,
                width,
                height,
                framebuffer_address,
                flags,
            );
            &&& h.uv_pitch == h.y_rgb_pitch
            &&& width <= 65520 ==> (h.y_rgb_pitch % 16 == 0 && width <= h.y_rgb_pitch
                < width + 16)
        }),
{
    if width <= 65520 {
        let w = width as int;
        let q = (w + 15) / 16;
        assert(q * 16 <= w + 15 && w + 15 < q * 16 + 16) by (nonlinear_arith)
            requires
                q == (w + 15) / 16,
                w >= 0,
        ;
        assert((q * 16) % 65536 == q * 16);
        assert((q * 16) % 16 == 0) by (nonlinear_arith);
    }
}

} // verus!
