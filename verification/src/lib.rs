//! Protocol building blocks for MCT Trigger 6 (T6) USB display adapters:
//! bulk DMA and video flip headers, frame packets, VRAM scheduling, EDID
//! decoding, interrupt decoding, and the pixel, geometry and JPEG helpers
//! that the display tools build frames with.
#![allow(unused_imports)]

pub mod bytes;
pub mod header;
pub mod fragment;
pub mod packet;
pub mod vram;
pub mod interrupt;
pub mod geometry;
pub mod color;
pub mod convert;
pub mod jpeg;
pub mod edid;
pub mod text;
pub mod cli;
pub mod number;
pub mod replay;
pub mod tools;
pub mod device;
pub mod capture;
pub mod type7;

pub use header::{BulkDmaHeader, VideoFlipHeader};
pub use interrupt::{DisplayInterrupt, InterruptWaitSummary};
pub use vram::{FrameAddresses, FrameScheduler, VramLayout, jpeg_cmd_offset};
pub use packet::{BulkTransferChunk, JpegFramePacket, RawFramePacket};
pub use fragment::{Fragment, fragment_count, fragment_offset, fragment_size, fragments};

use vstd::prelude::*;

verus! {

pub const VENDOR_ID: u16 = 0x0711;

pub const PRODUCT_ID_JUA365: u16 = 0x5601;

pub const EP_BULK_OUT: u8 = 0x02;

pub const EP_BULK_IN: u8 = 0x81;

pub const EP_INTERRUPT_IN: u8 = 0x83;

pub const VENDOR_REQ_SET_MONITOR_CONTROL: u8 = 0x03;

pub const VENDOR_REQ_SET_RESOLUTION: u8 = 0x08;

pub const VENDOR_REQ_SET_RESOLUTION_DETAIL_TIMING: u8 = 0x12;

pub const VENDOR_REQ_SET_SOFTWARE_READY: u8 = 0x31;

pub const VENDOR_REQ_GET_EDID: u8 = 0x80;

pub const VENDOR_REQ_GET_RESOLUTION_TABLE_COUNT: u8 = 0x84;

pub const VENDOR_REQ_GET_RESOLUTION_TABLE_DATA: u8 = 0x85;

pub const VENDOR_REQ_RESET_JPEG_ENGINE: u8 = 0x86;

pub const VENDOR_REQ_QUERY_MONITOR_CONNECTION_STATUS: u8 = 0x87;

pub const VENDOR_REQ_QUERY_VIDEO_RAM_SIZE: u8 = 0x88;

pub const VENDOR_REQ_GET_RESOLUTION_TIMING_TABLE: u8 = 0x89;

pub const SIGNATURE_DISPLAY: u32 = 0x00;

pub const SIGNATURE_AUDIO: u32 = 0x03;

pub const SIGNATURE_NV12DMA: u32 = 0x07;

pub const PACKET_FLAG_NONE: u8 = 0x00;

pub const PACKET_FLAG_CONTINUE_TO_SEND: u8 = 0x01;

pub const DISPLAY_EXT_NONE: u8 = 0x00;

pub const DISPLAY_EXT_FLIP_PRIMARY: u8 = 0x03;

pub const DISPLAY_EXT_FLIP_SECONDARY: u8 = 0x04;

pub const DISPLAY_EXT_CLIP_PRIMARY: u8 = 0x05;

pub const DISPLAY_EXT_CLIP_SECONDARY: u8 = 0x06;

pub const INT_FUNC_DISPLAY: u8 = 0x04;

pub const INT_DISPLAY_EVENT_HDMI_CONNECT: u8 = 0x01;

pub const INT_DISPLAY_EVENT_VGA_CONNECT: u8 = 0x02;

pub const INT_DISPLAY_EVENT_FENCE_ID: u8 = 0x04;

pub const INT_DISPLAY_EVENT_JPEG_ERROR: u8 = 0x08;

pub const VIDEO_CMD_CLIP_PRIMARY: u32 = 1;

pub const VIDEO_CMD_CLIP_SECONDARY: u32 = 2;

pub const VIDEO_CMD_FLIP_PRIMARY: u32 = 3;

pub const VIDEO_CMD_FLIP_SECONDARY: u32 = 4;

pub const VIDEO_COLOR_YV12: u32 = 4;

pub const VIDEO_COLOR_NV12: u32 = 6;

pub const VIDEO_COLOR_RGB32: u32 = 8;

pub const VIDEO_COLOR_RGB24: u32 = 9;

pub const VIDEO_COLOR_YUV444: u32 = 11;

pub const VIDEO_COLOR_JPEG: u32 = 13;

pub const BULK_DMA_HEADER_SIZE: usize = 32;

pub const VIDEO_FLIP_HEADER_SIZE: usize = 48;

pub const INTERRUPT_PACKET_SIZE: usize = 64;

pub const EDID_BLOCK_SIZE: usize = 128;

pub const EDID_MAX_BLOCKS: usize = 4;

pub const DEFAULT_MAX_BULK_PACKET_SIZE: u32 = 0x19000;

pub const JPEG_PADDING_SIZE: usize = 1024;

pub const VIDEO_FLAG_RESET_JPEG: u8 = 0x80;

} // verus!
