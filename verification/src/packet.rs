//! Display payloads (a video flip header followed by frame data) and their
//! split into bulk transfers.
use vstd::prelude::*;

use crate::bytes::{append_slice, append_zeros, zeros};
use crate::fragment::{
    fragments, lemma_fragments_tile_payload, spec_fragment, spec_fragment_count,
    spec_fragment_offset, spec_fragment_size,
};
use crate::header::{
    jpeg_flip_fits, nv12_flip_fits, packed_flip_fits, spec_jpeg_flip, spec_nv12_flip,
    spec_packed_flip, spec_yv12_flip, yv12_flip_fits, lemma_flip_header_fields_roundtrip,
    BulkDmaHeader, VideoFlipHeader,
};
use crate::{
    JPEG_PADDING_SIZE, VIDEO_COLOR_NV12, VIDEO_COLOR_RGB24, VIDEO_COLOR_YUV444,
    VIDEO_FLIP_HEADER_SIZE,
};

verus! {

/// A JPEG frame: flip header, JPEG data and padding, sent to `payload_address`.
#[derive(Clone, Debug, PartialEq, Eq)]
pub struct JpegFramePacket {
    pub payload_address: u32,
    pub payload: Vec<u8>,
}

/// A raw frame: flip header and pixel data, sent to `payload_address`.
#[derive(Clone, Debug, PartialEq, Eq)]
pub struct RawFramePacket {
    pub payload_address: u32,
    pub payload: Vec<u8>,
}

/// One bulk transfer: its header and the payload bytes that follow it.
#[derive(Clone, Debug, PartialEq, Eq)]
pub struct BulkTransferChunk<'a> {
    pub header: BulkDmaHeader,
    pub data: &'a [u8],
}

/// The payload of a frame: header bytes, then the data, then `padding`
/// zero bytes.
pub open spec fn spec_frame_payload(header: VideoFlipHeader, data: Seq<u8>, padding: nat) -> Seq<
    u8,
> {
    header.spec_bytes() + data + zeros(padding)
}

/// Whether `chunk` is the transfer for fragment `i` of `payload` at `address`.
pub open spec fn chunk_matches(
    chunk: BulkTransferChunk,
    payload: Seq<u8>,
    address: u32,
    max_packet_size: u32,
    i: int,
) -> bool {
    let length = payload.len() as u32;
    let fragment = spec_fragment(length, max_packet_size, i);
    &&& chunk.header.is_display_header(
        length,
        address,
        fragment.size,
        fragment.offset,
        fragment.more,
    )
    &&& chunk.data@ == payload.subrange(
        fragment.offset as int,
        fragment.offset + fragment.size,
    )
}

/// Whether `chunks` are exactly the transfers for `payload` at `address`.
pub open spec fn chunks_match(
    chunks: Seq<BulkTransferChunk>,
    payload: Seq<u8>,
    address: u32,
    max_packet_size: u32,
) -> bool {
    &&& chunks.len() == spec_fragment_count(payload.len() as u32, max_packet_size)
    &&& forall|i: int|
        0 <= i < chunks.len() ==> #[trigger] chunk_matches(
            chunks[i],
            payload,
            address,
            max_packet_size,
            i,
        )
}

/// The bytes that a sequence of transfers carries, in order.
pub open spec fn chunk_data_concat(chunks: Seq<BulkTransferChunk>) -> Seq<u8>
    decreases chunks.len(),
{
    if chunks.len() == 0 {
        Seq::empty()
    } else {
        chunk_data_concat(chunks.drop_last()) + chunks.last().data@
    }
}

fn bulk_chunks_of<'a>(payload: &'a [u8], address: u32, max_packet_size: u32) -> (chunks: Vec<
    BulkTransferChunk<'a>,
>)
    ensures
        chunks_match(chunks@, payload@, address, max_packet_size),
{
    let plen: usize = payload.len();
    let length = plen as u32;
    assert(length <= plen) by (bit_vector)
        requires
            length == plen as u32,
    ;
    let parts = fragments(length, max_packet_size);
    let mut chunks: Vec<BulkTransferChunk<'a>> = Vec::new();
    let mut i: usize = 0;
    while i < parts.len()
        invariant
            length == payload@.len() as u32,
            length <= payload@.len(),
            parts@.len() == spec_fragment_count(length, max_packet_size),
            forall|k: int|
                0 <= k < parts@.len() ==> #[trigger] parts@[k] == spec_fragment(
                    length,
                    max_packet_size,
                    k,
                ),
            0 <= i <= parts@.len(),
            chunks@.len() == i,
            forall|k: int|
                0 <= k < i ==> #[trigger] chunk_matches(
                    chunks@[k],
                    payload@,
                    address,
                    max_packet_size,
                    k,
                ),
        decreases parts@.len() - i,
    {
        let fragment = parts[i];
        proof {
            lemma_fragments_tile_payload(length, max_packet_size, i as int);
        }
        let data = vstd::slice::slice_subrange(
            payload,
            fragment.offset as usize,
            (fragment.offset + fragment.size) as usize,
        );
        let header = BulkDmaHeader::display(
            length,
            address,
            fragment.size,
            fragment.offset,
            fragment.more,
        );
        chunks.push(BulkTransferChunk { header, data });
        i = i + 1;
    }
    chunks
}

/// Builds header bytes, then `data`, then `padding` zero bytes.
fn frame_payload(header: &VideoFlipHeader, data: &[u8], padding: usize) -> (payload: Vec<u8>)
    ensures
        payload@ == spec_frame_payload(*header, data@, padding as nat),
{
    let header_bytes = header.to_bytes();
    let mut payload: Vec<u8> = Vec::new();
    append_slice(&mut payload, header_bytes.as_slice());
    append_slice(&mut payload, data);
    append_zeros(&mut payload, padding);
    payload
}

impl JpegFramePacket {
    /// A JPEG frame decoded into NV12.
    pub fn new(
        display_index: u8,
        jpeg: &[u8],
        width: u16,
        height: u16,
        cmd_addr: u32,
        fb_addr: u32,
        flags: u8,
    ) -> (packet: Self)
        requires
            jpeg@.len() + JPEG_PADDING_SIZE <= usize::MAX,
            jpeg_flip_fits(width, height, fb_addr),
        ensures
            packet.payload_address == cmd_addr,
            packet.payload@ == spec_frame_payload(
                spec_jpeg_flip(
                    display_index,
                    (jpeg@.len() + JPEG_PADDING_SIZE) as u32,
                    width,
                    height,
                    fb_addr,
                    VIDEO_COLOR_NV12,
                    flags,
                ),
                jpeg@,
                JPEG_PADDING_SIZE as nat,
            ),
    {
        Self::new_with_target_format(
            display_index,
            jpeg,
            width,
            height,
            cmd_addr,
            fb_addr,
            VIDEO_COLOR_NV12,
            flags,
        )
    }

    /// A JPEG frame decoded into `target_format`: the flip header (whose
    /// payload size counts the JPEG and the padding), the JPEG, then 1024
    /// zero bytes, to be sent to `cmd_addr`.
    pub fn new_with_target_format(
        display_index: u8,
        jpeg: &[u8],
        width: u16,
        height: u16,
        cmd_addr: u32,
        fb_addr: u32,
        target_format: u32,
        flags: u8,
    ) -> (packet: Self)
        requires
            jpeg@.len() + JPEG_PADDING_SIZE <= usize::MAX,
            jpeg_flip_fits(width, height, fb_addr),
        ensures
            packet.payload_address == cmd_addr,
            packet.payload@ == spec_frame_payload(
                spec_jpeg_flip(
                    display_index,
                    (jpeg@.len() + JPEG_PADDING_SIZE) as u32,
                    width,
                    height,
                    fb_addr,
                    target_format,
                    flags,
                ),
                jpeg@,
                JPEG_PADDING_SIZE as nat,
            ),
    {
        let payload_size = #[verifier::truncate] ((jpeg.len() + JPEG_PADDING_SIZE) as u32);
        let header = VideoFlipHeader::jpeg_with_target_format(
            display_index,
            payload_size,
            width,
            height,
            fb_addr,
            target_format,
            flags,
        );
        let payload = frame_payload(&header, jpeg, JPEG_PADDING_SIZE);
        Self { payload_address: cmd_addr, payload }
    }

    /// The bulk transfers that carry this frame, `max_packet_size` bytes at
    /// most each.
    pub fn bulk_chunks(&self, max_packet_size: u32) -> (chunks: Vec<BulkTransferChunk<'_>>)
        ensures
            chunks_match(chunks@, self.payload@, self.payload_address, max_packet_size),
    {
        bulk_chunks_of(self.payload.as_slice(), self.payload_address, max_packet_size)
    }
}

impl RawFramePacket {
    /// An RGB24 frame: the flip header, then the pixels, sent to the
    /// framebuffer address itself.
    pub fn rgb24(
        display_index: u8,
        rgb: &[u8],
        width: u16,
        height: u16,
        fb_addr: u32,
        flags: u8,
    ) -> (packet: Self)
        requires
            rgb@.len() == width * height * 3,
            packed_flip_fits(width, fb_addr),
        ensures
            packet.payload_address == fb_addr,
            packet.payload@ == spec_frame_payload(
                spec_packed_flip(
                    display_index,
                    rgb@.len() as u32,
                    width,
                    fb_addr,
                    VIDEO_COLOR_RGB24,
                    flags,
                ),
                rgb@,
                0,
            ),
    {
        let payload_size = rgb.len() as u32;
        let header = VideoFlipHeader::rgb24(display_index, payload_size, width, fb_addr, flags);
        let payload = frame_payload(&header, rgb, 0);
        Self { payload_address: fb_addr, payload }
    }

    /// An NV12 frame: the flip header, the planes, then 1024 zero bytes.
    pub fn nv12(
        display_index: u8,
        nv12: &[u8],
        width: u16,
        height: u16,
        fb_addr: u32,
        flags: u8,
    ) -> (packet: Self)
        requires
            nv12@.len() + JPEG_PADDING_SIZE <= usize::MAX,
            nv12_flip_fits(width, height, fb_addr),
        ensures
            packet.payload_address == fb_addr,
            packet.payload@ == spec_frame_payload(
                spec_nv12_flip(
                    display_index,
                    (nv12@.len() + JPEG_PADDING_SIZE) as u32,
                    width,
                    height,
                    fb_addr,
                    flags,
                ),
                nv12@,
                JPEG_PADDING_SIZE as nat,
            ),
    {
        let payload_size = #[verifier::truncate] ((nv12.len() + JPEG_PADDING_SIZE) as u32);
        let header = VideoFlipHeader::nv12(
            display_index,
            payload_size,
            width,
            height,
            fb_addr,
            flags,
        );
        let payload = frame_payload(&header, nv12, JPEG_PADDING_SIZE);
        Self { payload_address: fb_addr, payload }
    }

    /// A YV12 frame: the flip header, the planes, then 1024 zero bytes.
    pub fn yv12(
        display_index: u8,
        yv12: &[u8],
        width: u16,
        height: u16,
        fb_addr: u32,
        flags: u8,
    ) -> (packet: Self)
        requires
            yv12@.len() + JPEG_PADDING_SIZE <= usize::MAX,
            yv12_flip_fits(width, height, fb_addr),
        ensures
            packet.payload_address == fb_addr,
            packet.payload@ == spec_frame_payload(
                spec_yv12_flip(
                    display_index,
                    (yv12@.len() + JPEG_PADDING_SIZE) as u32,
                    width,
                    height,
                    fb_addr,
                    flags,
                ),
                yv12@,
                JPEG_PADDING_SIZE as nat,
            ),
    {
        let payload_size = #[verifier::truncate] ((yv12.len() + JPEG_PADDING_SIZE) as u32);
        let header = VideoFlipHeader::yv12(
            display_index,
            payload_size,
            width,
            height,
            fb_addr,
            flags,
        );
        let payload = frame_payload(&header, yv12, JPEG_PADDING_SIZE);
        Self { payload_address: fb_addr, payload }
    }

    /// A YUV 4:4:4 frame: the flip header, then the packed pixels.
    pub fn yuv444(
        display_index: u8,
        yuv444: &[u8],
        width: u16,
        height: u16,
        fb_addr: u32,
        flags: u8,
    ) -> (packet: Self)
        requires
            yuv444@.len() == width * height * 3,
            packed_flip_fits(width, fb_addr),
        ensures
            packet.payload_address == fb_addr,
            packet.payload@ == spec_frame_payload(
                spec_packed_flip(
                    display_index,
                    yuv444@.len() as u32,
                    width,
                    fb_addr,
                    VIDEO_COLOR_YUV444,
                    flags,
                ),
                yuv444@,
                0,
            ),
    {
        let payload_size = yuv444.len() as u32;
        let header = VideoFlipHeader::yuv444(display_index, payload_size, width, fb_addr, flags);
        let payload = frame_payload(&header, yuv444, 0);
        Self { payload_address: fb_addr, payload }
    }

    /// The bulk transfers that carry this frame, `max_packet_size` bytes at
    /// most each.
    pub fn bulk_chunks(&self, max_packet_size: u32) -> (chunks: Vec<BulkTransferChunk<'_>>)
        ensures
            chunks_match(chunks@, self.payload@, self.payload_address, max_packet_size),
    {
        bulk_chunks_of(self.payload.as_slice(), self.payload_address, max_packet_size)
    }

    /// The frame as one bulk transfer: a display header for the whole
    /// payload (its length cut to 32 bits) with no continuation, and the
    /// payload.
    pub fn single_bulk_chunk(&self) -> (chunk: BulkTransferChunk<'_>)
        ensures
            chunk.header.is_display_header(
                self.payload@.len() as u32,
                self.payload_address,
                self.payload@.len() as u32,
                0,
                false,
            ),
            chunk.data@ == self.payload@,
    {
        let length = #[verifier::truncate] (self.payload.len() as u32);
        BulkTransferChunk {
            header: BulkDmaHeader::display(length, self.payload_address, length, 0, false),
            data: self.payload.as_slice(),
        }
    }
}

/// The first `k` transfers carry the payload up to where transfer `k`
/// starts (up to its end once all are taken).
proof fn lemma_chunk_prefix<'a>(
    chunks: Seq<BulkTransferChunk<'a>>,
    payload: Seq<u8>,
    address: u32,
    max_packet_size: u32,
    k: int,
)
    requires
        payload.len() <= u32::MAX,
        max_packet_size > 0,
        chunks_match(chunks, payload, address, max_packet_size),
        0 <= k <= chunks.len(),
    ensures
        chunk_data_concat(chunks.take(k)) == payload.subrange(
            0,
            if k < chunks.len() {
                spec_fragment_offset(max_packet_size, k)
            } else {
                payload.len() as int
            },
        ),
    decreases k,
{
    let length = payload.len() as u32;
    let count = chunks.len() as int;
    assert(length == payload.len());
    if k == 0 {
        assert(chunks.take(0) =~= Seq::<BulkTransferChunk<'a>>::empty());
        if count == 0 {
            if length > 0 {
                let n = length as int;
                let d = max_packet_size as int;
                assert((n + d - 1) / d >= 1) by (nonlinear_arith)
                    requires
                        n >= 1,
                        d >= 1,
                ;
            }
            assert(payload =~= Seq::<u8>::empty());
        }
        assert(payload.subrange(0, 0) =~= Seq::<u8>::empty());
    } else {
        let j = k - 1;
        lemma_chunk_prefix(chunks, payload, address, max_packet_size, j);
        lemma_fragments_tile_payload(length, max_packet_size, j);
        assert(chunk_matches(chunks[j], payload, address, max_packet_size, j));
        let start = spec_fragment_offset(max_packet_size, j);
        let end = start + spec_fragment_size(length, max_packet_size, j);
        assert(chunks.take(k).drop_last() =~= chunks.take(j));
        assert(chunks.take(k).last() == chunks[j]);
        assert(payload.subrange(0, end) =~= payload.subrange(0, start) + payload.subrange(
            start,
            end,
        ));
    }
}

/// Sending the transfers in order delivers the payload: the data of the
/// chunks, concatenated, is exactly the payload (for a payload whose length
/// fits the 32-bit length field and a non-zero packet size).
pub proof fn lemma_chunks_reassemble_payload<'a>(
    chunks: Seq<BulkTransferChunk<'a>>,
    payload: Seq<u8>,
    address: u32,
    max_packet_size: u32,
)
    requires
        payload.len() <= u32::MAX,
        max_packet_size > 0,
        chunks_match(chunks, payload, address, max_packet_size),
    ensures
        chunk_data_concat(chunks) == payload,
{
    lemma_chunk_prefix(chunks, payload, address, max_packet_size, chunks.len() as int);
    assert(chunks.take(chunks.len() as int) =~= chunks);
    assert(payload.subrange(0, payload.len() as int) =~= payload);
}


/// A JPEG frame's payload is the 48-byte flip header, then the JPEG bytes
/// unchanged, then 1024 zero bytes: its length is 48 + the JPEG + 1024,
/// which is 48 more than the payload size the header announces (when that
/// fits in 32 bits), the header's own bytes lead it, and every byte after
/// the JPEG is zero.
pub proof fn lemma_jpeg_payload_layout(
    display_index: u8,
    jpeg: Seq<u8>,
    width: u16,
    height: u16,
    fb_addr: u32,
    target_format: u32,
    flags: u8,
)
    requires
        jpeg.len() + 1024 <= u32::MAX,
    ensures
        ({
            let header = spec_jpeg_flip(
                display_index,
                (jpeg.len() + JPEG_PADDING_SIZE) as u32,
                width,
                height,
                fb_addr,
                target_format,
                flags,
            );
            let payload = spec_frame_payload(header, jpeg, JPEG_PADDING_SIZE as nat);
            &&& payload.len() == 48 + jpeg.len() + 1024
            &&& payload.len() == 48 + header.payload_size
            &&& payload.subrange(0, 48) == header.spec_bytes()
            &&& payload.subrange(48, (48 + jpeg.len()) as int) == jpeg
            &&& forall|i: int| 48 + jpeg.len() <= i < payload.len() ==> payload[i] == 0
        }),
{
    let header = spec_jpeg_flip(
        display_index,
        (jpeg.len() + JPEG_PADDING_SIZE) as u32,
        width,
        height,
        fb_addr,
        target_format,
        flags,
    );
    lemma_flip_header_fields_roundtrip(header);
    let hb = header.spec_bytes();
    let payload = spec_frame_payload(header, jpeg, JPEG_PADDING_SIZE as nat);
    assert(payload.subrange(0, 48) =~= hb);
    assert(payload.subrange(48, (48 + jpeg.len()) as int) =~= jpeg);
    assert forall|i: int| 48 + jpeg.len() <= i < payload.len() implies payload[i] == 0 by {
        assert(payload[i] == zeros(1024)[i - 48 - jpeg.len()]);
    }
}

} // verus!
