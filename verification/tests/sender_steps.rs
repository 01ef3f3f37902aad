use t6proto::cli::record_sent_frame;
use t6proto::type7::{plan_type7_frame, type7_tile_fallback, type7_wrap_fallback};
use t6proto::vram::{reset_jpeg_flags, FrameScheduler, VramLayout};
use t6proto::VIDEO_FLAG_RESET_JPEG;

#[test]
fn scheduler_rotates_framebuffers_and_resets_on_wrap() {
    let layout = VramLayout {
        cmd_addr: 0,
        fb_addrs: [0x40_0000, 0x80_0000, 0xc0_0000],
    };
    let mut scheduler = FrameScheduler::new(layout);
    let mut previous_end = layout.cmd_addr;
    for k in 0..40u32 {
        let len = if k % 5 == 0 { 0x15_0000 } else { 1000 };
        let a = scheduler.next_jpeg_frame(len);
        let expected_offset = if len + 1024 + 48 < 0x10_0000 { 0x10_0000 } else { 0x20_0000 };
        assert_eq!(a.cmd_offset, expected_offset);
        assert_eq!(a.fb_addr, layout.fb_addrs[((k + 2) % 3) as usize]);
        let wraps = previous_end + a.cmd_offset > layout.fb_addrs[0];
        assert_eq!(a.cmd_addr, if wraps { layout.cmd_addr } else { previous_end });
        assert!(a.cmd_addr + a.cmd_offset <= layout.fb_addrs[0]);
        if k < 10 {
            assert!(a.reset_jpeg);
        } else {
            assert_eq!(a.reset_jpeg, wraps);
        }
        previous_end = a.cmd_addr + a.cmd_offset;
    }
}

#[test]
fn reset_flag_follows_the_scheduler() {
    assert_eq!(reset_jpeg_flags(true), VIDEO_FLAG_RESET_JPEG);
    assert_eq!(reset_jpeg_flags(false), 0);
    let mut scheduler = FrameScheduler::new(VramLayout::two_port_1080p_secondary(58));
    let first = scheduler.next_jpeg_frame(1000);
    assert!(first.reset_jpeg);
    assert_eq!(first.video_flags(), 0x80);
}

#[test]
fn sent_frame_reports_first_and_every_nth_and_stops_at_limit() {
    let step = record_sent_frame(0, 0, 60, Some(3));
    assert_eq!(step.sent_frames, 1);
    assert!(step.report);
    assert_eq!(step.report_delta, 1);
    assert_eq!(step.last_report_sent_frames, 1);
    assert!(!step.stop);

    let step = record_sent_frame(1, 1, 60, Some(3));
    assert_eq!(step.sent_frames, 2);
    assert!(!step.report);
    assert_eq!(step.report_delta, 0);
    assert_eq!(step.last_report_sent_frames, 1);

    let step = record_sent_frame(2, 1, 60, Some(3));
    assert!(step.stop);

    let step = record_sent_frame(119, 60, 60, None);
    assert_eq!(step.sent_frames, 120);
    assert!(step.report);
    assert_eq!(step.report_delta, 60);
    assert_eq!(step.last_report_sent_frames, 120);
    assert!(!step.stop);

    let step = record_sent_frame(4, 1, 0, None);
    assert!(!step.report);
}

#[test]
fn type7_plan_falls_back_and_forgets_dirty_box() {
    let plan = plan_type7_frame(None, Some((0, 0, 8, 8)), None, 64, 64, false, 5, 0);
    assert_eq!(plan.full_reason, Some("no-current-fb"));
    assert_eq!(plan.last_dirty_bbox, None);

    let plan = plan_type7_frame(Some(0x100), None, Some((0, 0, 8, 8)), 64, 64, false, 5, 0);
    assert_eq!(plan.full_reason, Some("no-dirty-bbox"));

    let plan = plan_type7_frame(Some(0x100), Some((0, 0, 8, 8)), None, 64, 64, true, 5, 0);
    assert_eq!(plan.full_reason, Some("fullish"));

    let plan = plan_type7_frame(Some(0x100), Some((0, 0, 8, 8)), None, 64, 64, false, 0, 0);
    assert_eq!(plan.full_reason, Some("refresh"));

    let plan = plan_type7_frame(Some(0x100), Some((4, 4, 8, 8)), Some((0, 0, 4, 4)), 64, 64, false, 5, 0);
    assert_eq!(plan.full_reason, None);
    assert_eq!(plan.dirty_bbox, Some((0, 0, 12, 12)));
    assert_eq!(plan.last_dirty_bbox, Some((4, 4, 8, 8)));
}

#[test]
fn type7_tile_and_wrap_fallbacks() {
    let last = Some((1, 2, 3, 4));
    assert_eq!(type7_tile_fallback(true, true, false, false, last), (Some("tile-ratio"), None));
    assert_eq!(
        type7_tile_fallback(false, true, true, false, last),
        (Some("min-horizontal-band"), None)
    );
    assert_eq!(
        type7_tile_fallback(false, false, true, true, last),
        (Some("min-vertical-band"), None)
    );
    assert_eq!(type7_tile_fallback(false, false, false, true, last), (Some("min-local-area"), None));
    assert_eq!(type7_tile_fallback(false, false, false, false, last), (None, last));
    assert_eq!(type7_wrap_fallback(true, last), (Some("cmd-wrap"), None));
    assert_eq!(type7_wrap_fallback(false, last), (None, last));
}
