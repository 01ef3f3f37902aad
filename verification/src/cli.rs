//! The display tool's settings: the values each command-line option
//! takes, and the small decisions made from them (pixel formats, colour
//! codes, quality adaptation, pacing, fence ids).
use vstd::prelude::*;

use crate::color::{ChromaMode, YuvMatrix, YuvRange};
use crate::geometry::{Rotation, Type7RectMode};
use crate::jpeg::Type7JpegComponentIds;
use crate::text::{push_str, str_eq};
use crate::{VIDEO_COLOR_NV12, VIDEO_COLOR_YUV444, VIDEO_COLOR_YV12};

verus! {

/// Which address ring partial updates use.
#[derive(Clone, Copy, Debug, PartialEq, Eq)]
pub enum Type7RingMode {
    Windows,
    Legacy,
}

/// How a partial update is set up.
#[derive(Clone, Copy, Debug, PartialEq, Eq)]
pub enum Type7SetupMode {
    LegacyFullJpeg,
    SyntheticType4,
    PairedType4Type7,
}

/// What is done with the dirty rectangles of a captured frame.
#[derive(Clone, Copy, Debug, PartialEq, Eq)]
pub enum DirtyMode {
    Off,
    Log,
    Bbox,
    TileSend,
}

/// The surface format the adapter decodes a JPEG into.
#[derive(Clone, Copy, Debug, PartialEq, Eq)]
pub enum JpegTarget {
    Nv12,
    Yv12,
    Yuv444,
}

/// Which encoder makes the JPEGs.
#[derive(Clone, Copy, Debug, PartialEq, Eq)]
pub enum JpegEncoder {
    TurboBgra,
    T6Yuv420,
    VideoToolbox,
    VideoToolboxFullTurboTiles,
}

/// How raw frames are split into bulk transfers.
#[derive(Clone, Copy, Debug, PartialEq, Eq)]
pub enum RawBulkMode {
    Fragmented,
    Single,
}

/// The pixel format frames are captured in.
#[derive(Clone, Copy, Debug, PartialEq, Eq)]
pub enum CaptureFormat {
    Bgra,
    Nv12FullRange,
    Nv12VideoRange,
}

/// How frames travel to the adapter.
#[derive(Clone, Copy, Debug, PartialEq, Eq)]
pub enum Transport {
    Jpeg,
    JpegType7,
    Nv12,
    Nv12Type7,
    Rgb24,
    Yv12,
    Yuv444,
}

/// Chroma subsampling of encoded JPEGs.
#[derive(Clone, Copy, Debug, PartialEq, Eq)]
pub enum JpegSubsampling {
    Yuv420,
    Yuv422,
    Yuv444,
}

/// The path a frame took to the adapter.
#[derive(Clone, Copy, Debug, PartialEq, Eq)]
pub enum SendPath {
    Unknown,
    FullJpeg,
    RawNv12,
    Type4Setup,
    Type4SetupOnly,
    Type4SetupAndType7,
    Type7Tile,
}

/// The partial-update rectangle mode that a command-line value names, if any.
pub open spec fn rect_mode_named(value: Seq<char>) -> Option<Type7RectMode> {
    if value == "auto"@ {
        Some(Type7RectMode::Auto)
    } else if value == "local"@ {
        Some(Type7RectMode::Local)
    } else if value == "horizontal-band"@ || value == "hband"@ {
        Some(Type7RectMode::HorizontalBand)
    } else if value == "vertical-band"@ || value == "vband"@ {
        Some(Type7RectMode::VerticalBand)
    } else {
        None
    }
}

/// Reads a partial-update rectangle mode from a command-line value.
pub fn parse_type7_rect_mode(value: &str) -> (out: Result<Type7RectMode, String>)
    ensures
        match rect_mode_named(value@) {
            Some(v) => out == Ok::<Type7RectMode, String>(v),
            None => (out matches Err(e) && e@ == "--type7-rect must be one of auto, local, horizontal-band, vertical-band"@),
        },
{
    if str_eq(value, "auto") {
        Ok(Type7RectMode::Auto)
    } else if str_eq(value, "local") {
        Ok(Type7RectMode::Local)
    } else if str_eq(value, "horizontal-band") || str_eq(value, "hband") {
        Ok(Type7RectMode::HorizontalBand)
    } else if str_eq(value, "vertical-band") || str_eq(value, "vband") {
        Ok(Type7RectMode::VerticalBand)
    } else {
        Err(String::from_str("--type7-rect must be one of auto, local, horizontal-band, vertical-band"))
    }
}

/// The partial-update address ring that a command-line value names, if any.
pub open spec fn ring_mode_named(value: Seq<char>) -> Option<Type7RingMode> {
    if value == "windows"@ || value == "win"@ {
        Some(Type7RingMode::Windows)
    } else if value == "legacy"@ {
        Some(Type7RingMode::Legacy)
    } else {
        None
    }
}

/// Reads a partial-update address ring from a command-line value.
pub fn parse_type7_ring_mode(value: &str) -> (out: Result<Type7RingMode, String>)
    ensures
        match ring_mode_named(value@) {
            Some(v) => out == Ok::<Type7RingMode, String>(v),
            None => (out matches Err(e) && e@ == "--type7-ring must be one of windows, legacy"@),
        },
{
    if str_eq(value, "windows") || str_eq(value, "win") {
        Ok(Type7RingMode::Windows)
    } else if str_eq(value, "legacy") {
        Ok(Type7RingMode::Legacy)
    } else {
        Err(String::from_str("--type7-ring must be one of windows, legacy"))
    }
}

/// The partial-update setup mode that a command-line value names, if any.
pub open spec fn setup_mode_named(value: Seq<char>) -> Option<Type7SetupMode> {
    if value == "legacy-full-jpeg"@ || value == "legacy"@ || value == "full-jpeg"@ {
        Some(Type7SetupMode::LegacyFullJpeg)
    } else if value == "synthetic-type4"@ || value == "type4"@ {
        Some(Type7SetupMode::SyntheticType4)
    } else if value == "paired-type4-type7"@ || value == "paired"@ {
        Some(Type7SetupMode::PairedType4Type7)
    } else {
        None
    }
}

/// Reads a partial-update setup mode from a command-line value.
pub fn parse_type7_setup_mode(value: &str) -> (out: Result<Type7SetupMode, String>)
    ensures
        match setup_mode_named(value@) {
            Some(v) => out == Ok::<Type7SetupMode, String>(v),
            None => (out matches Err(e) && e@ == "--type7-setup must be one of legacy-full-jpeg, synthetic-type4, paired-type4-type7"@),
        },
{
    if str_eq(value, "legacy-full-jpeg") || str_eq(value, "legacy") || str_eq(value, "full-jpeg") {
        Ok(Type7SetupMode::LegacyFullJpeg)
    } else if str_eq(value, "synthetic-type4") || str_eq(value, "type4") {
        Ok(Type7SetupMode::SyntheticType4)
    } else if str_eq(value, "paired-type4-type7") || str_eq(value, "paired") {
        Ok(Type7SetupMode::PairedType4Type7)
    } else {
        Err(String::from_str("--type7-setup must be one of legacy-full-jpeg, synthetic-type4, paired-type4-type7"))
    }
}

/// What which component ids partial updates carry `value` names, if any.
pub open spec fn component_ids_named(value: Seq<char>) -> Option<Type7JpegComponentIds> {
    if value == "zero-based"@ || value == "zero"@ || value == "0"@ {
        Some(Type7JpegComponentIds::ZeroBased)
    } else if value == "original"@ || value == "encoder"@ || value == "asis"@ || value == "as-is"@ {
        Some(Type7JpegComponentIds::Original)
    } else {
        None
    }
}

/// Reads which component ids partial updates carry from a command-line value.
pub fn parse_type7_jpeg_component_ids(value: &str) -> (out: Result<Type7JpegComponentIds, String>)
    ensures
        match component_ids_named(value@) {
            Some(v) => out == Ok::<Type7JpegComponentIds, String>(v),
            None => (out matches Err(e) && e@ == "--type7-jpeg-component-ids must be one of zero-based, original"@),
        },
{
    if str_eq(value, "zero-based") || str_eq(value, "zero") || str_eq(value, "0") {
        Ok(Type7JpegComponentIds::ZeroBased)
    } else if str_eq(value, "original") || str_eq(value, "encoder") || str_eq(value, "asis") || str_eq(value, "as-is") {
        Ok(Type7JpegComponentIds::Original)
    } else {
        Err(String::from_str("--type7-jpeg-component-ids must be one of zero-based, original"))
    }
}

/// What how dirty rectangles are used `value` names, if any.
pub open spec fn dirty_mode_named(value: Seq<char>) -> Option<DirtyMode> {
    if value == "off"@ {
        Some(DirtyMode::Off)
    } else if value == "log"@ {
        Some(DirtyMode::Log)
    } else if value == "bbox"@ {
        Some(DirtyMode::Bbox)
    } else if value == "tile-send"@ {
        Some(DirtyMode::TileSend)
    } else {
        None
    }
}

/// Reads how dirty rectangles are used from a command-line value.
pub fn parse_dirty_mode(value: &str) -> (out: Result<DirtyMode, String>)
    ensures
        match dirty_mode_named(value@) {
            Some(v) => out == Ok::<DirtyMode, String>(v),
            None => (out matches Err(e) && e@ == "--dirty-mode must be one of off, log, bbox, tile-send"@),
        },
{
    if str_eq(value, "off") {
        Ok(DirtyMode::Off)
    } else if str_eq(value, "log") {
        Ok(DirtyMode::Log)
    } else if str_eq(value, "bbox") {
        Ok(DirtyMode::Bbox)
    } else if str_eq(value, "tile-send") {
        Ok(DirtyMode::TileSend)
    } else {
        Err(String::from_str("--dirty-mode must be one of off, log, bbox, tile-send"))
    }
}

/// The surface format a JPEG decodes into that a command-line value names, if any.
pub open spec fn jpeg_target_named(value: Seq<char>) -> Option<JpegTarget> {
    if value == "nv12"@ {
        Some(JpegTarget::Nv12)
    } else if value == "yv12"@ {
        Some(JpegTarget::Yv12)
    } else if value == "yuv444"@ {
        Some(JpegTarget::Yuv444)
    } else {
        None
    }
}

/// Reads the surface format a JPEG decodes into from a command-line value.
pub fn parse_jpeg_target(value: &str) -> (out: Result<JpegTarget, String>)
    ensures
        match jpeg_target_named(value@) {
            Some(v) => out == Ok::<JpegTarget, String>(v),
            None => (out matches Err(e) && e@ == "--jpeg-target must be one of nv12, yv12, yuv444"@),
        },
{
    if str_eq(value, "nv12") {
        Ok(JpegTarget::Nv12)
    } else if str_eq(value, "yv12") {
        Ok(JpegTarget::Yv12)
    } else if str_eq(value, "yuv444") {
        Ok(JpegTarget::Yuv444)
    } else {
        Err(String::from_str("--jpeg-target must be one of nv12, yv12, yuv444"))
    }
}

/// The JPEG encoder that a command-line value names, if any.
pub open spec fn jpeg_encoder_named(value: Seq<char>) -> Option<JpegEncoder> {
    if value == "turbo-bgra"@ || value == "turbo"@ {
        Some(JpegEncoder::TurboBgra)
    } else if value == "t6-yuv420"@ {
        Some(JpegEncoder::T6Yuv420)
    } else if value == "videotoolbox"@ || value == "vt"@ {
        Some(JpegEncoder::VideoToolbox)
    } else if value == "vt-full-turbo-tiles"@ || value == "videotoolbox-full-turbo-tiles"@ || value == "hybrid-vt"@ {
        Some(JpegEncoder::VideoToolboxFullTurboTiles)
    } else {
        None
    }
}

/// Reads a JPEG encoder from a command-line value.
pub fn parse_jpeg_encoder(value: &str) -> (out: Result<JpegEncoder, String>)
    ensures
        match jpeg_encoder_named(value@) {
            Some(v) => out == Ok::<JpegEncoder, String>(v),
            None => (out matches Err(e) && e@ == "--jpeg-encoder must be one of turbo-bgra, t6-yuv420, videotoolbox, vt-full-turbo-tiles"@),
        },
{
    if str_eq(value, "turbo-bgra") || str_eq(value, "turbo") {
        Ok(JpegEncoder::TurboBgra)
    } else if str_eq(value, "t6-yuv420") {
        Ok(JpegEncoder::T6Yuv420)
    } else if str_eq(value, "videotoolbox") || str_eq(value, "vt") {
        Ok(JpegEncoder::VideoToolbox)
    } else if str_eq(value, "vt-full-turbo-tiles") || str_eq(value, "videotoolbox-full-turbo-tiles") || str_eq(value, "hybrid-vt") {
        Ok(JpegEncoder::VideoToolboxFullTurboTiles)
    } else {
        Err(String::from_str("--jpeg-encoder must be one of turbo-bgra, t6-yuv420, videotoolbox, vt-full-turbo-tiles"))
    }
}

/// The YUV colour matrix that a command-line value names, if any.
pub open spec fn yuv_matrix_named(value: Seq<char>) -> Option<YuvMatrix> {
    if value == "bt601"@ || value == "601"@ {
        Some(YuvMatrix::Bt601)
    } else if value == "bt709"@ || value == "709"@ {
        Some(YuvMatrix::Bt709)
    } else {
        None
    }
}

/// Reads a YUV colour matrix from a command-line value.
pub fn parse_yuv_matrix(value: &str) -> (out: Result<YuvMatrix, String>)
    ensures
        match yuv_matrix_named(value@) {
            Some(v) => out == Ok::<YuvMatrix, String>(v),
            None => (out matches Err(e) && e@ == "--yuv-matrix must be one of bt601, bt709"@),
        },
{
    if str_eq(value, "bt601") || str_eq(value, "601") {
        Ok(YuvMatrix::Bt601)
    } else if str_eq(value, "bt709") || str_eq(value, "709") {
        Ok(YuvMatrix::Bt709)
    } else {
        Err(String::from_str("--yuv-matrix must be one of bt601, bt709"))
    }
}

/// The YUV value range that a command-line value names, if any.
pub open spec fn yuv_range_named(value: Seq<char>) -> Option<YuvRange> {
    if value == "full"@ {
        Some(YuvRange::Full)
    } else if value == "video"@ || value == "limited"@ {
        Some(YuvRange::Video)
    } else {
        None
    }
}

/// Reads a YUV value range from a command-line value.
pub fn parse_yuv_range(value: &str) -> (out: Result<YuvRange, String>)
    ensures
        match yuv_range_named(value@) {
            Some(v) => out == Ok::<YuvRange, String>(v),
            None => (out matches Err(e) && e@ == "--yuv-range must be one of full, video"@),
        },
{
    if str_eq(value, "full") {
        Ok(YuvRange::Full)
    } else if str_eq(value, "video") || str_eq(value, "limited") {
        Ok(YuvRange::Video)
    } else {
        Err(String::from_str("--yuv-range must be one of full, video"))
    }
}

/// What how raw frames are split into bulk transfers `value` names, if any.
pub open spec fn raw_bulk_named(value: Seq<char>) -> Option<RawBulkMode> {
    if value == "fragmented"@ {
        Some(RawBulkMode::Fragmented)
    } else if value == "single"@ {
        Some(RawBulkMode::Single)
    } else {
        None
    }
}

/// Reads how raw frames are split into bulk transfers from a command-line value.
pub fn parse_raw_bulk_mode(value: &str) -> (out: Result<RawBulkMode, String>)
    ensures
        match raw_bulk_named(value@) {
            Some(v) => out == Ok::<RawBulkMode, String>(v),
            None => (out matches Err(e) && e@ == "--raw-bulk must be one of fragmented, single"@),
        },
{
    if str_eq(value, "fragmented") {
        Ok(RawBulkMode::Fragmented)
    } else if str_eq(value, "single") {
        Ok(RawBulkMode::Single)
    } else {
        Err(String::from_str("--raw-bulk must be one of fragmented, single"))
    }
}

/// The capture pixel format that a command-line value names, if any.
pub open spec fn capture_format_named(value: Seq<char>) -> Option<CaptureFormat> {
    if value == "bgra"@ {
        Some(CaptureFormat::Bgra)
    } else if value == "420f"@ {
        Some(CaptureFormat::Nv12FullRange)
    } else if value == "420v"@ {
        Some(CaptureFormat::Nv12VideoRange)
    } else {
        None
    }
}

/// Reads a capture pixel format from a command-line value.
pub fn parse_capture_format(value: &str) -> (out: Result<CaptureFormat, String>)
    ensures
        match capture_format_named(value@) {
            Some(v) => out == Ok::<CaptureFormat, String>(v),
            None => (out matches Err(e) && e@ == "--capture-format must be one of bgra, 420f, 420v"@),
        },
{
    if str_eq(value, "bgra") {
        Ok(CaptureFormat::Bgra)
    } else if str_eq(value, "420f") {
        Ok(CaptureFormat::Nv12FullRange)
    } else if str_eq(value, "420v") {
        Ok(CaptureFormat::Nv12VideoRange)
    } else {
        Err(String::from_str("--capture-format must be one of bgra, 420f, 420v"))
    }
}

/// The chroma sampling mode that a command-line value names, if any.
pub open spec fn chroma_mode_named(value: Seq<char>) -> Option<ChromaMode> {
    if value == "average"@ {
        Some(ChromaMode::Average)
    } else if value == "saturated"@ {
        Some(ChromaMode::Saturated)
    } else if value == "top-left"@ {
        Some(ChromaMode::TopLeft)
    } else {
        None
    }
}

/// Reads a chroma sampling mode from a command-line value.
pub fn parse_chroma_mode(value: &str) -> (out: Result<ChromaMode, String>)
    ensures
        match chroma_mode_named(value@) {
            Some(v) => out == Ok::<ChromaMode, String>(v),
            None => (out matches Err(e) && e@ == "--chroma-mode must be one of average, saturated, top-left"@),
        },
{
    if str_eq(value, "average") {
        Ok(ChromaMode::Average)
    } else if str_eq(value, "saturated") {
        Ok(ChromaMode::Saturated)
    } else if str_eq(value, "top-left") {
        Ok(ChromaMode::TopLeft)
    } else {
        Err(String::from_str("--chroma-mode must be one of average, saturated, top-left"))
    }
}

/// The frame transport that a command-line value names, if any.
pub open spec fn transport_named(value: Seq<char>) -> Option<Transport> {
    if value == "jpeg"@ {
        Some(Transport::Jpeg)
    } else if value == "jpeg-type7"@ || value == "type7"@ {
        Some(Transport::JpegType7)
    } else if value == "nv12"@ {
        Some(Transport::Nv12)
    } else if value == "nv12-type7"@ || value == "type7-nv12"@ {
        Some(Transport::Nv12Type7)
    } else if value == "rgb24"@ {
        Some(Transport::Rgb24)
    } else if value == "yv12"@ {
        Some(Transport::Yv12)
    } else if value == "yuv444"@ {
        Some(Transport::Yuv444)
    } else {
        None
    }
}

/// Reads a frame transport from a command-line value.
pub fn parse_transport(value: &str) -> (out: Result<Transport, String>)
    ensures
        match transport_named(value@) {
            Some(v) => out == Ok::<Transport, String>(v),
            None => (out matches Err(e) && e@ == "--transport must be one of jpeg, jpeg-type7, nv12, nv12-type7, rgb24, yv12, yuv444"@),
        },
{
    if str_eq(value, "jpeg") {
        Ok(Transport::Jpeg)
    } else if str_eq(value, "jpeg-type7") || str_eq(value, "type7") {
        Ok(Transport::JpegType7)
    } else if str_eq(value, "nv12") {
        Ok(Transport::Nv12)
    } else if str_eq(value, "nv12-type7") || str_eq(value, "type7-nv12") {
        Ok(Transport::Nv12Type7)
    } else if str_eq(value, "rgb24") {
        Ok(Transport::Rgb24)
    } else if str_eq(value, "yv12") {
        Ok(Transport::Yv12)
    } else if str_eq(value, "yuv444") {
        Ok(Transport::Yuv444)
    } else {
        Err(String::from_str("--transport must be one of jpeg, jpeg-type7, nv12, nv12-type7, rgb24, yv12, yuv444"))
    }
}

/// The JPEG chroma subsampling that a command-line value names, if any.
pub open spec fn subsampling_named(value: Seq<char>) -> Option<JpegSubsampling> {
    if value == "420"@ || value == "4:2:0"@ {
        Some(JpegSubsampling::Yuv420)
    } else if value == "422"@ || value == "4:2:2"@ {
        Some(JpegSubsampling::Yuv422)
    } else if value == "444"@ || value == "4:4:4"@ {
        Some(JpegSubsampling::Yuv444)
    } else {
        None
    }
}

/// Reads a JPEG chroma subsampling from a command-line value.
pub fn parse_subsampling(value: &str) -> (out: Result<JpegSubsampling, String>)
    ensures
        match subsampling_named(value@) {
            Some(v) => out == Ok::<JpegSubsampling, String>(v),
            None => (out matches Err(e) && e@ == "--subsamp must be one of 420, 422, 444"@),
        },
{
    if str_eq(value, "420") || str_eq(value, "4:2:0") {
        Ok(JpegSubsampling::Yuv420)
    } else if str_eq(value, "422") || str_eq(value, "4:2:2") {
        Ok(JpegSubsampling::Yuv422)
    } else if str_eq(value, "444") || str_eq(value, "4:4:4") {
        Ok(JpegSubsampling::Yuv444)
    } else {
        Err(String::from_str("--subsamp must be one of 420, 422, 444"))
    }
}

/// The rotation in degrees clockwise that a command-line value names, if any.
pub open spec fn rotation_named(value: Seq<char>) -> Option<Rotation> {
    if value == "0"@ {
        Some(Rotation::Deg0)
    } else if value == "90"@ {
        Some(Rotation::Deg90)
    } else if value == "180"@ {
        Some(Rotation::Deg180)
    } else if value == "270"@ {
        Some(Rotation::Deg270)
    } else {
        None
    }
}

/// Reads a rotation in degrees clockwise from a command-line value.
pub fn parse_rotation(value: &str) -> (out: Result<Rotation, String>)
    ensures
        match rotation_named(value@) {
            Some(v) => out == Ok::<Rotation, String>(v),
            None => (out matches Err(e) && e@ == "--rotate must be one of 0, 90, 180, 270"@),
        },
{
    if str_eq(value, "0") {
        Ok(Rotation::Deg0)
    } else if str_eq(value, "90") {
        Ok(Rotation::Deg90)
    } else if str_eq(value, "180") {
        Ok(Rotation::Deg180)
    } else if str_eq(value, "270") {
        Ok(Rotation::Deg270)
    } else {
        Err(String::from_str("--rotate must be one of 0, 90, 180, 270"))
    }
}


/// The four-character code of a capture format, read big-endian: "BGRA",
/// "420f" or "420v".
pub open spec fn spec_pixel_format(f: CaptureFormat) -> u32 {
    match f {
        CaptureFormat::Bgra => 0x4247_5241,
        CaptureFormat::Nv12FullRange => 0x3432_3066,
        CaptureFormat::Nv12VideoRange => 0x3432_3076,
    }
}

impl CaptureFormat {
    /// The capture pixel format code.
    pub fn pixel_format(self) -> (code: u32)
        ensures
            code == spec_pixel_format(self),
    {
        match self {
            CaptureFormat::Bgra => 0x4247_5241,
            CaptureFormat::Nv12FullRange => 0x3432_3066,
            CaptureFormat::Nv12VideoRange => 0x3432_3076,
        }
    }
}

/// The video colour code of a JPEG target.
pub open spec fn spec_target_color(t: JpegTarget) -> u32 {
    match t {
        JpegTarget::Nv12 => VIDEO_COLOR_NV12,
        JpegTarget::Yv12 => VIDEO_COLOR_YV12,
        JpegTarget::Yuv444 => VIDEO_COLOR_YUV444,
    }
}

impl JpegTarget {
    /// The video colour code the flip header carries for this target.
    pub fn video_color(self) -> (code: u32)
        ensures
            code == spec_target_color(self),
    {
        match self {
            JpegTarget::Nv12 => VIDEO_COLOR_NV12,
            JpegTarget::Yv12 => VIDEO_COLOR_YV12,
            JpegTarget::Yuv444 => VIDEO_COLOR_YUV444,
        }
    }
}

/// The name a send path is reported under.
pub open spec fn send_path_name(path: SendPath) -> Seq<char> {
    match path {
        SendPath::Unknown => "unknown"@,
        SendPath::FullJpeg => "full-jpeg"@,
        SendPath::RawNv12 => "raw-nv12"@,
        SendPath::Type4Setup => "type4-setup"@,
        SendPath::Type4SetupOnly => "type4-setup-only"@,
        SendPath::Type4SetupAndType7 => "type4+type7"@,
        SendPath::Type7Tile => "type7"@,
    }
}

/// The name a send path is reported under.
pub fn format_send_path(path: SendPath) -> (name: &'static str)
    ensures
        name@ == send_path_name(path),
{
    match path {
        SendPath::Unknown => "unknown",
        SendPath::FullJpeg => "full-jpeg",
        SendPath::RawNv12 => "raw-nv12",
        SendPath::Type4Setup => "type4-setup",
        SendPath::Type4SetupOnly => "type4-setup-only",
        SendPath::Type4SetupAndType7 => "type4+type7",
        SendPath::Type7Tile => "type7",
    }
}

/// The fence id after `id`: one more, wrapping past `u32::MAX` to 1, so
/// that zero is never handed out again.
pub open spec fn fence_after(id: u32) -> u32 {
    if id == u32::MAX {
        1
    } else {
        (id + 1) as u32
    }
}

/// Hands out the fence id in `counter` and moves the counter on.
pub fn next_fence_id(counter: &mut u32) -> (id: u32)
    ensures
        id == *old(counter),
        *final(counter) == fence_after(*old(counter)),
{
    let id = *counter;
    let next = counter.wrapping_add(1);
    *counter = if next < 1 {
        1
    } else {
        next
    };
    id
}

/// Whether a frame limit is set and `sent_frames` has reached it.
pub fn reached_frame_limit(sent_frames: u32, frames: Option<u32>) -> (b: bool)
    ensures
        b == (frames matches Some(limit) && sent_frames >= limit),
{
    match frames {
        Some(limit) => sent_frames >= limit,
        None => false,
    }
}

/// The sender's counters after one more frame went out: the frame count,
/// whether to print a report, how many frames went out since the last
/// report (when reporting), the frame count of the last report, and
/// whether the frame limit has been reached so the sender stops.
#[derive(Clone, Copy, Debug, PartialEq, Eq)]
pub struct SentFrameStep {
    pub sent_frames: u32,
    pub report: bool,
    pub report_delta: u32,
    pub last_report_sent_frames: u32,
    pub stop: bool,
}

/// Counts a frame that went out: one more frame; a report on the first
/// frame and on every `report_every`-th when that is set, counting the
/// frames since the last report and moving the last report's count
/// forward; a stop once a frame limit is set and reached.
pub fn record_sent_frame(
    sent_frames: u32,
    last_report_sent_frames: u32,
    report_every: u32,
    frames: Option<u32>,
) -> (step: SentFrameStep)
    requires
        sent_frames < u32::MAX,
    ensures
        step.sent_frames == sent_frames + 1,
        step.report == (step.sent_frames == 1 || (report_every > 0 && step.sent_frames
            % report_every == 0)),
        step.report_delta == (if step.report && step.sent_frames >= last_report_sent_frames {
            step.sent_frames - last_report_sent_frames
        } else {
            0
        }),
        step.last_report_sent_frames == (if step.report {
            step.sent_frames
        } else {
            last_report_sent_frames
        }),
        step.stop == (frames matches Some(limit) && step.sent_frames >= limit),
{
    let sent = sent_frames + 1;
    let report = sent == 1 || (report_every > 0 && sent % report_every == 0);
    let (report_delta, last) = if report {
        (sent.saturating_sub(last_report_sent_frames), sent)
    } else {
        (0, last_report_sent_frames)
    };
    let stop = reached_frame_limit(sent, frames);
    SentFrameStep {
        sent_frames: sent,
        report,
        report_delta,
        last_report_sent_frames: last,
        stop,
    }
}

/// The JPEG quality after a frame that took `total_ns` against a budget
/// of `budget_ns` (nanoseconds): down by 15, 10, 5, 3 or 1 when the frame
/// took over 8, 4, 2, 1.5 or 1 budgets, up by 1 when it took under three
/// quarters of one, then kept within `min_quality..=max_quality`. Only JPEG
/// transports with adaptive quality adapt.
pub open spec fn adapted_quality(
    transport: Transport,
    adaptive: bool,
    min_quality: i32,
    max_quality: i32,
    current: i32,
    budget_ns: u128,
    total_ns: u128,
) -> i32 {
    if !(transport is Jpeg || transport is JpegType7) || !adaptive {
        current
    } else {
        let next = if total_ns > budget_ns * 8 {
            current - 15
        } else if total_ns > budget_ns * 4 {
            current - 10
        } else if total_ns > budget_ns * 2 {
            current - 5
        } else if total_ns > budget_ns + budget_ns / 2 {
            current - 3
        } else if total_ns > budget_ns {
            current - 1
        } else if total_ns < budget_ns * 3 / 4 {
            current + 1
        } else {
            current as int
        };
        if next < min_quality {
            min_quality
        } else if next > max_quality {
            max_quality
        } else {
            next as i32
        }
    }
}

/// Adapts the JPEG quality to how long the last frame took.
pub fn adapt_jpeg_quality(
    transport: Transport,
    adaptive: bool,
    min_quality: i32,
    max_quality: i32,
    current: i32,
    budget_ns: u128,
    total_ns: u128,
) -> (q: i32)
    requires
        min_quality <= max_quality,
        i32::MIN + 15 <= current < i32::MAX,
        budget_ns <= u64::MAX as u128 * 1_000_000_000 + 999_999_999,
    ensures
        q == adapted_quality(transport, adaptive, min_quality, max_quality, current, budget_ns, total_ns),
{
    match transport {
        Transport::Jpeg | Transport::JpegType7 => {},
        _ => return current,
    }
    if !adaptive {
        return current;
    }
    let next = if total_ns > budget_ns * 8 {
        current - 15
    } else if total_ns > budget_ns * 4 {
        current - 10
    } else if total_ns > budget_ns * 2 {
        current - 5
    } else if total_ns > budget_ns + budget_ns / 2 {
        current - 3
    } else if total_ns > budget_ns {
        current - 1
    } else if total_ns < budget_ns * 3 / 4 {
        current + 1
    } else {
        current
    };
    if next < min_quality {
        min_quality
    } else if next > max_quality {
        max_quality
    } else {
        next
    }
}

/// The next send time after a frame, in nanoseconds on one clock: one
/// interval (times `divisor`) after the last planned time, or `now` when
/// that has fallen more than a further interval behind.
pub open spec fn resynced_send_at(next_send_at: int, now: int, frame_interval: int, divisor: int) -> int {
    let interval = frame_interval * divisor;
    let next = next_send_at + interval;
    if now > next + interval {
        now
    } else {
        next
    }
}

/// Plans the next send time after a frame.
pub fn resync_next_send_at_with_divisor(next_send_at: u128, now: u128, frame_interval: u128, divisor: u32) -> (t: u128)
    requires
        frame_interval * divisor * 2 + next_send_at <= u128::MAX,
    ensures
        t == resynced_send_at(next_send_at as int, now as int, frame_interval as int, divisor as int),
{
    let interval = frame_interval * divisor as u128;
    let next = next_send_at + interval;
    if now > next + interval {
        now
    } else {
        next
    }
}

} // verus!

verus! {

/// Why a frame went as a full update, for the report line; nothing
/// without a reason.
pub open spec fn full_reason_text(reason: Option<&str>) -> Seq<char> {
    match reason {
        Some(r) => " type7_full_reason="@ + r@,
        None => Seq::empty(),
    }
}

/// Says why a frame went as a full update, for the report line.
pub fn format_type7_full_reason(reason: Option<&str>) -> (out: String)
    ensures
        out@ == full_reason_text(reason),
{
    match reason {
        Some(r) => {
            let mut out = String::from_str(" type7_full_reason=");
            push_str(&mut out, r);
            out
        },
        None => String::new(),
    }
}

} // verus!

verus! {

/// Once the counter has moved on, it never holds zero: every fence id
/// handed out after the first is at least 1.
pub proof fn lemma_fence_ids_skip_zero(id: u32)
    ensures
        fence_after(id) >= 1,
        id < u32::MAX ==> fence_after(id) == id + 1,
{
}

/// Adapted quality stays within `min_quality..=max_quality` for adaptive
/// JPEG transports, and is unchanged otherwise.
pub proof fn lemma_adapted_quality_bounds(
    transport: Transport,
    adaptive: bool,
    min_quality: i32,
    max_quality: i32,
    current: i32,
    budget_ns: u128,
    total_ns: u128,
)
    requires
        min_quality <= max_quality,
    ensures
        (transport is Jpeg || transport is JpegType7) && adaptive ==> min_quality <= adapted_quality(
            transport,
            adaptive,
            min_quality,
            max_quality,
            current,
            budget_ns,
            total_ns,
        ) <= max_quality,
        !((transport is Jpeg || transport is JpegType7) && adaptive) ==> adapted_quality(
            transport,
            adaptive,
            min_quality,
            max_quality,
            current,
            budget_ns,
            total_ns,
        ) == current,
{
}

} // verus!

verus! {

/// Whether the display sender needs a libjpeg-turbo compressor: JPEG
/// transports encoded with turbo, the T6 4:2:0 path, or the hybrid whose
/// tiles use turbo.
pub fn needs_turbo_compressor(transport: Transport, encoder: JpegEncoder) -> (b: bool)
    ensures
        b == ((transport is Jpeg || transport is JpegType7) && (encoder is TurboBgra
            || encoder is T6Yuv420 || encoder is VideoToolboxFullTurboTiles)),
{
    match transport {
        Transport::Jpeg | Transport::JpegType7 => match encoder {
            JpegEncoder::TurboBgra | JpegEncoder::T6Yuv420
            | JpegEncoder::VideoToolboxFullTurboTiles => true,
            JpegEncoder::VideoToolbox => false,
        },
        _ => false,
    }
}

/// Whether the display sender needs a VideoToolbox compressor: JPEG
/// transports encoded with VideoToolbox or the hybrid.
pub fn needs_vt_compressor(transport: Transport, encoder: JpegEncoder) -> (b: bool)
    ensures
        b == ((transport is Jpeg || transport is JpegType7) && (encoder is VideoToolbox
            || encoder is VideoToolboxFullTurboTiles)),
{
    match transport {
        Transport::Jpeg | Transport::JpegType7 => match encoder {
            JpegEncoder::VideoToolbox | JpegEncoder::VideoToolboxFullTurboTiles => true,
            JpegEncoder::TurboBgra | JpegEncoder::T6Yuv420 => false,
        },
        _ => false,
    }
}

} // verus!
