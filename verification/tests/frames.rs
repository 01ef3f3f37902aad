use t6proto::capture::{
    copy_captured_nv12, copy_rgb24_rows, crop_bgra_bbox, crop_rotated_bgra_bbox, fill_y_plane,
    Nv12Capture,
};
use t6proto::color::rgb_to_y;
use t6proto::geometry::{source_coordinate, Rotation};
use t6proto::header::jpeg_frame_fits;
use t6proto::type7::{
    check_frame_shape, ensure_bgra_capture, next_type7_slot, type7_always_full,
    type7_dirty_bbox, type7_full_reason, type7_refresh_due, uses_type4_setup,
    PIXEL_FORMAT_BGRA,
};
use t6proto::cli::{Transport, Type7SetupMode};
use t6proto::vram::{FrameScheduler, VramLayout};

fn numbered_bgra(width: usize, height: usize, stride: usize) -> Vec<u8> {
    let mut bgra = vec![0u8; stride * height];
    for y in 0..height {
        for x in 0..width {
            for c in 0..4 {
                bgra[y * stride + x * 4 + c] = (y * 40 + x * 4 + c) as u8;
            }
        }
    }
    bgra
}

#[test]
fn rotated_crop_reads_the_source_pixel() {
    let (w, h, stride) = (5usize, 3usize, 24usize);
    let bgra = numbered_bgra(w, h, stride);
    for rotation in [Rotation::Deg0, Rotation::Deg90, Rotation::Deg180, Rotation::Deg270] {
        let (ow, oh) = rotation.output_size(w as u16, h as u16);
        let (x, y, cw, ch) = (1usize, 1usize, ow as usize - 2, oh as usize - 1);
        let mut out = vec![9u8; 3];
        crop_rotated_bgra_bbox(&bgra, w, h, stride, rotation, x, y, cw, ch, &mut out);
        assert_eq!(out.len(), cw * ch * 4);
        for oy in 0..ch {
            for ox in 0..cw {
                let (sx, sy) = source_coordinate(x + ox, y + oy, w, h, rotation);
                let at = (oy * cw + ox) * 4;
                assert_eq!(&out[at..at + 4], &bgra[sy * stride + sx * 4..sy * stride + sx * 4 + 4]);
            }
        }
    }
    let mut plain = Vec::new();
    crop_bgra_bbox(&bgra, stride, 2, 1, 2, 2, &mut plain);
    assert_eq!(plain, vec![48, 49, 50, 51, 52, 53, 54, 55, 88, 89, 90, 91, 92, 93, 94, 95]);
}

#[test]
fn captured_nv12_is_repacked_with_aligned_rows() {
    let y_plane: Vec<u8> = (0..20).collect();
    let uv_plane: Vec<u8> = (100..110).collect();
    let frame = Nv12Capture {
        width: 4,
        height: 2,
        plane0: &y_plane,
        plane0_stride: 10,
        plane1: Some(&uv_plane),
        plane1_stride: 10,
        plane1_width: 2,
        plane1_height: 1,
    };
    let out = copy_captured_nv12(&frame, Rotation::Deg0).unwrap();
    let mut expected = vec![0u8; 16 * 2 + 16];
    expected[0..4].copy_from_slice(&[0, 1, 2, 3]);
    expected[16..20].copy_from_slice(&[10, 11, 12, 13]);
    expected[32..36].copy_from_slice(&[100, 101, 102, 103]);
    assert_eq!(out, expected);

    assert_eq!(
        copy_captured_nv12(&frame, Rotation::Deg90).unwrap_err(),
        "direct NV12 capture currently requires --rotate 0"
    );
    let missing = Nv12Capture { plane1: None, ..frame };
    assert_eq!(
        copy_captured_nv12(&missing, Rotation::Deg0).unwrap_err(),
        "NV12 capture frame is missing UV plane"
    );
    let odd = Nv12Capture { width: 3, ..frame };
    assert_eq!(
        copy_captured_nv12(&odd, Rotation::Deg0).unwrap_err(),
        "NV12 capture requires even width and height"
    );
    let narrow = Nv12Capture { plane1_stride: 2, ..frame };
    assert_eq!(
        copy_captured_nv12(&narrow, Rotation::Deg0).unwrap_err(),
        "NV12 capture plane stride is smaller than frame width"
    );
    let short = Nv12Capture { plane0: &y_plane[..19], ..frame };
    assert_eq!(
        copy_captured_nv12(&short, Rotation::Deg0).unwrap_err(),
        "NV12 capture plane byte count is shorter than expected"
    );
}

#[test]
fn rgb_rows_are_packed() {
    let data: Vec<u8> = (0..20).collect();
    assert_eq!(copy_rgb24_rows(&data, 8, 6, 2), Ok(vec![0, 1, 2, 3, 4, 5, 8, 9, 10, 11, 12, 13]));
    assert_eq!(
        copy_rgb24_rows(&data, 16, 6, 2).unwrap_err(),
        "decoded RGB frame is shorter than expected"
    );
    assert_eq!(copy_rgb24_rows(&data, 8, 6, 0), Ok(vec![]));
}

#[test]
fn luma_fill_leaves_the_padding() {
    let rgb = vec![255, 0, 0, 0, 255, 0, 0, 0, 255, 255, 255, 255];
    let mut plane = vec![7u8; 8];
    fill_y_plane(&rgb, 2, 2, 4, &mut plane);
    assert_eq!(
        plane,
        vec![
            rgb_to_y(255, 0, 0),
            rgb_to_y(0, 255, 0),
            7,
            7,
            rgb_to_y(0, 0, 255),
            rgb_to_y(255, 255, 255),
            7,
            7
        ]
    );
    assert_eq!(rgb_to_y(255, 255, 255), 255);
}

#[test]
fn frame_checks() {
    assert_eq!(ensure_bgra_capture(PIXEL_FORMAT_BGRA), Ok(()));
    assert_eq!(
        ensure_bgra_capture(0x3432_3066).unwrap_err(),
        "this transport currently requires --capture-format bgra"
    );
    assert_eq!(
        check_frame_shape(1280, 720, 1920, 1080, PIXEL_FORMAT_BGRA, 7680, 0).unwrap_err(),
        "unexpected frame size: got 1280x720, expected 1920x1080"
    );
    assert_eq!(
        check_frame_shape(1920, 1080, 1920, 1080, PIXEL_FORMAT_BGRA, 7000, 1 << 30).unwrap_err(),
        "invalid BGRA frame stride or byte count"
    );
    assert_eq!(check_frame_shape(1920, 1080, 1920, 1080, PIXEL_FORMAT_BGRA, 7680, 7680 * 1080), Ok(()));
    assert_eq!(check_frame_shape(1920, 1080, 1920, 1080, 0, 0, 0), Ok(()));
}

#[test]
fn partial_update_decisions() {
    assert!(uses_type4_setup(Transport::JpegType7, true, Type7SetupMode::SyntheticType4));
    assert!(!uses_type4_setup(Transport::Jpeg, true, Type7SetupMode::SyntheticType4));
    assert!(!uses_type4_setup(Transport::JpegType7, true, Type7SetupMode::LegacyFullJpeg));
    assert!(type7_always_full(false, Type7SetupMode::PairedType4Type7));
    assert!(type7_always_full(true, Type7SetupMode::LegacyFullJpeg));
    assert!(!type7_always_full(true, Type7SetupMode::SyntheticType4));
    assert!(type7_refresh_due(0, 0));
    assert!(type7_refresh_due(60, 30));
    assert!(!type7_refresh_due(61, 30));
    assert!(!type7_refresh_due(61, 0));
    assert_eq!(type7_dirty_bbox(None, Some((0, 0, 4, 4)), 100, 100), None);
    assert_eq!(type7_dirty_bbox(Some((10, 10, 4, 4)), None, 100, 100), Some((10, 10, 4, 4)));
    assert_eq!(
        type7_dirty_bbox(Some((10, 10, 4, 4)), Some((0, 0, 2, 2)), 100, 100),
        Some((0, 0, 14, 14))
    );
    assert_eq!(type7_full_reason(None, None, true, true), Some("no-current-fb"));
    assert_eq!(type7_full_reason(Some(1), None, true, true), Some("no-dirty-bbox"));
    assert_eq!(type7_full_reason(Some(1), Some((0, 0, 1, 1)), true, true), Some("fullish"));
    assert_eq!(type7_full_reason(Some(1), Some((0, 0, 1, 1)), false, true), Some("refresh"));
    assert_eq!(type7_full_reason(Some(1), Some((0, 0, 1, 1)), false, false), None);
}

#[test]
fn surface_slots_rotate_two_zero_one() {
    assert_eq!(next_type7_slot(0), (0x02da_a980, 1));
    assert_eq!(next_type7_slot(1), (0x0250_0400, 2));
    assert_eq!(next_type7_slot(2), (0x0295_56c0, 0));
}

#[test]
fn address_limits() {
    assert!(jpeg_frame_fits(1920, 1080, 0x0300_0000));
    assert!(!jpeg_frame_fits(1920, 1080, 0xffff_0000));
    let scheduler = FrameScheduler::new(VramLayout::two_port_1080p_secondary(58));
    assert!(scheduler.can_schedule(100_000));
    assert!(!scheduler.can_schedule(usize::MAX));
}
