use t6proto::cli::{
    adapt_jpeg_quality, format_send_path, format_type7_full_reason, next_fence_id,
    parse_capture_format, parse_chroma_mode, parse_dirty_mode, parse_jpeg_encoder,
    parse_jpeg_target, parse_raw_bulk_mode, parse_rotation, parse_subsampling, parse_transport,
    parse_type7_jpeg_component_ids, parse_type7_rect_mode, parse_type7_ring_mode,
    parse_type7_setup_mode, parse_yuv_matrix, parse_yuv_range, reached_frame_limit,
    resync_next_send_at_with_divisor, CaptureFormat, DirtyMode, JpegEncoder, JpegSubsampling,
    JpegTarget, RawBulkMode, SendPath, Transport, Type7RingMode, Type7SetupMode,
};
use t6proto::color::{ChromaMode, YuvMatrix, YuvRange};
use t6proto::geometry::{Rotation, Type7RectMode};
use t6proto::jpeg::Type7JpegComponentIds;
use t6proto::number::{parse_u32, parse_u32_either_prefix};
use t6proto::{VIDEO_COLOR_NV12, VIDEO_COLOR_YUV444, VIDEO_COLOR_YV12};

#[test]
fn option_values_and_aliases() {
    assert_eq!(parse_rotation("270"), Ok(Rotation::Deg270));
    assert_eq!(parse_type7_rect_mode("hband"), Ok(Type7RectMode::HorizontalBand));
    assert_eq!(parse_type7_ring_mode("win"), Ok(Type7RingMode::Windows));
    assert_eq!(parse_type7_setup_mode("paired"), Ok(Type7SetupMode::PairedType4Type7));
    assert_eq!(parse_type7_jpeg_component_ids("0"), Ok(Type7JpegComponentIds::ZeroBased));
    assert_eq!(parse_type7_jpeg_component_ids("as-is"), Ok(Type7JpegComponentIds::Original));
    assert_eq!(parse_dirty_mode("tile-send"), Ok(DirtyMode::TileSend));
    assert_eq!(parse_jpeg_target("yuv444"), Ok(JpegTarget::Yuv444));
    assert_eq!(parse_jpeg_encoder("hybrid-vt"), Ok(JpegEncoder::VideoToolboxFullTurboTiles));
    assert_eq!(parse_yuv_matrix("709"), Ok(YuvMatrix::Bt709));
    assert_eq!(parse_yuv_range("limited"), Ok(YuvRange::Video));
    assert_eq!(parse_raw_bulk_mode("single"), Ok(RawBulkMode::Single));
    assert_eq!(parse_capture_format("420v"), Ok(CaptureFormat::Nv12VideoRange));
    assert_eq!(parse_chroma_mode("top-left"), Ok(ChromaMode::TopLeft));
    assert_eq!(parse_transport("type7-nv12"), Ok(Transport::Nv12Type7));
    assert_eq!(parse_subsampling("4:2:2"), Ok(JpegSubsampling::Yuv422));
}

#[test]
fn option_values_that_are_refused() {
    assert_eq!(
        parse_rotation("45").unwrap_err(),
        "--rotate must be one of 0, 90, 180, 270"
    );
    assert_eq!(
        parse_transport("JPEG").unwrap_err(),
        "--transport must be one of jpeg, jpeg-type7, nv12, nv12-type7, rgb24, yv12, yuv444"
    );
    assert_eq!(
        parse_yuv_range("").unwrap_err(),
        "--yuv-range must be one of full, video"
    );
}

#[test]
fn numbers_in_decimal_and_hex() {
    assert_eq!(parse_u32("42"), Ok(42));
    assert_eq!(parse_u32("+7"), Ok(7));
    assert_eq!(parse_u32("0x1f"), Ok(31));
    assert_eq!(parse_u32("0xFFFFFFFF"), Ok(u32::MAX));
    assert_eq!(parse_u32("4294967295"), Ok(u32::MAX));
    assert_eq!(
        parse_u32("4294967296").unwrap_err(),
        "number too large to fit in target type"
    );
    assert_eq!(parse_u32("12a").unwrap_err(), "invalid digit found in string");
    assert_eq!(parse_u32("0X10").unwrap_err(), "invalid digit found in string");
    assert_eq!(parse_u32("-1").unwrap_err(), "invalid digit found in string");
    assert_eq!(parse_u32("+").unwrap_err(), "invalid digit found in string");
    assert_eq!(parse_u32("").unwrap_err(), "cannot parse integer from empty string");
    assert_eq!(parse_u32("0x").unwrap_err(), "cannot parse integer from empty string");
    assert_eq!(parse_u32_either_prefix("0X10"), Ok(16));
    assert_eq!(parse_u32_either_prefix("0x10"), Ok(16));
    assert_eq!(parse_u32_either_prefix("10"), Ok(10));
}

#[test]
fn numbers_match_the_standard_parser() {
    for text in ["0", "007", "+15", "99999999999", "1_0", " 1", "ab", "4294967295", "+"] {
        let ours = parse_u32(text).ok();
        let std = text.parse::<u32>().ok();
        assert_eq!(ours, std, "{text}");
    }
    for text in ["ff", "FF", "+ff", "1ffffffff", "g", ""] {
        let ours = parse_u32(&format!("0x{text}")).ok();
        let std = u32::from_str_radix(text, 16).ok();
        assert_eq!(ours, std, "{text}");
    }
}

#[test]
fn formats_and_colour_codes() {
    assert_eq!(CaptureFormat::Bgra.pixel_format(), u32::from_be_bytes(*b"BGRA"));
    assert_eq!(CaptureFormat::Nv12FullRange.pixel_format(), u32::from_be_bytes(*b"420f"));
    assert_eq!(CaptureFormat::Nv12VideoRange.pixel_format(), u32::from_be_bytes(*b"420v"));
    assert_eq!(JpegTarget::Nv12.video_color(), VIDEO_COLOR_NV12);
    assert_eq!(JpegTarget::Yv12.video_color(), VIDEO_COLOR_YV12);
    assert_eq!(JpegTarget::Yuv444.video_color(), VIDEO_COLOR_YUV444);
    assert_eq!(format_send_path(SendPath::Type4SetupAndType7), "type4+type7");
    assert_eq!(format_send_path(SendPath::Unknown), "unknown");
    assert_eq!(format_type7_full_reason(Some("refresh")), " type7_full_reason=refresh");
    assert_eq!(format_type7_full_reason(None), "");
}

#[test]
fn fence_ids_skip_zero_after_wrapping() {
    let mut counter = u32::MAX - 1;
    assert_eq!(next_fence_id(&mut counter), u32::MAX - 1);
    assert_eq!(next_fence_id(&mut counter), u32::MAX);
    assert_eq!(next_fence_id(&mut counter), 1);
    assert_eq!(counter, 2);
    let mut zero = 0;
    assert_eq!(next_fence_id(&mut zero), 0);
    assert_eq!(zero, 1);
}

#[test]
fn frame_limit() {
    assert!(!reached_frame_limit(10, None));
    assert!(!reached_frame_limit(9, Some(10)));
    assert!(reached_frame_limit(10, Some(10)));
}

#[test]
fn quality_follows_frame_time() {
    let budget = 16_000_000u128;
    let q = |total: u128, current: i32| {
        adapt_jpeg_quality(Transport::Jpeg, true, 40, 90, current, budget, total)
    };
    assert_eq!(q(budget * 9, 80), 65);
    assert_eq!(q(budget * 5, 80), 70);
    assert_eq!(q(budget * 3, 80), 75);
    assert_eq!(q(budget * 7 / 4, 80), 77);
    assert_eq!(q(budget + 1, 80), 79);
    assert_eq!(q(budget / 2, 80), 81);
    assert_eq!(q(budget, 80), 80);
    assert_eq!(q(budget * 9, 45), 40);
    assert_eq!(q(budget / 2, 90), 90);
    assert_eq!(adapt_jpeg_quality(Transport::Nv12, true, 40, 90, 80, budget, budget * 9), 80);
    assert_eq!(adapt_jpeg_quality(Transport::Jpeg, false, 40, 90, 80, budget, budget * 9), 80);
}

#[test]
fn send_time_resyncs_when_far_behind() {
    assert_eq!(resync_next_send_at_with_divisor(1000, 1000, 100, 1), 1100);
    assert_eq!(resync_next_send_at_with_divisor(1000, 1200, 100, 1), 1100);
    assert_eq!(resync_next_send_at_with_divisor(1000, 1201, 100, 1), 1201);
    assert_eq!(resync_next_send_at_with_divisor(1000, 1300, 100, 2), 1200);
}
