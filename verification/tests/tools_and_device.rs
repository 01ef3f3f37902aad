use t6proto::cli::JpegSubsampling;
use t6proto::device::{
    edid_extension_offsets, is_listed_device, is_supported_adapter, preferred_interface,
    InterfaceSetting,
};
use t6proto::edid::EdidDetailedTiming;
use t6proto::interrupt::{
    format_interrupt_summary, format_setup_ack_summary, DisplayInterrupt, InterruptWaitSummary,
};
use t6proto::tools::{
    format_timing, known_address_pairs, parse_encoder, parse_subsamp, parse_subsampling,
    Encoder, TargetFormat,
};
use t6proto::{PRODUCT_ID_JUA365, VENDOR_ID, VIDEO_COLOR_NV12, VIDEO_COLOR_YV12};

fn setting(interface_number: u8, has_bulk_out: bool) -> InterfaceSetting {
    InterfaceSetting {
        interface_number,
        has_bulk_out,
    }
}

#[test]
fn tool_option_values() {
    assert_eq!(parse_encoder("t6-yuv420"), Ok(Encoder::T6Yuv420));
    assert_eq!(
        parse_encoder("turbo").unwrap_err(),
        "--encoder must be one of turbo-rgb, t6-yuv420"
    );
    assert_eq!(parse_subsamp("4:4:4"), Ok(JpegSubsampling::Yuv444));
    assert_eq!(parse_subsampling("420"), Ok(JpegSubsampling::Yuv420));
    assert_eq!(
        parse_subsampling("4:2:0").unwrap_err(),
        "--subsamp must be one of 420, 422, 444"
    );
    assert_eq!(TargetFormat::Nv12.video_color(), VIDEO_COLOR_NV12);
    assert_eq!(TargetFormat::Yv12.video_color(), VIDEO_COLOR_YV12);
}

#[test]
fn capture_address_pairs() {
    let pairs = known_address_pairs();
    assert_eq!(pairs.len(), 9);
    assert_eq!(pairs[0], (0x0000_0030, 0x001f_e030));
    assert_eq!(pairs[8], (0x00d4_5cb0, 0x00ec_bcb0));
}

#[test]
fn timing_description() {
    let timing = EdidDetailedTiming {
        pixel_clock_khz: 148500,
        horizontal_active: 1920,
        horizontal_blanking: 280,
        vertical_active: 1080,
        vertical_blanking: 45,
        refresh_hz: Some(60),
    };
    assert_eq!(format_timing(Some(timing)), "1920x1080@60Hz");
    let unknown = EdidDetailedTiming {
        refresh_hz: None,
        ..timing
    };
    assert_eq!(format_timing(Some(unknown)), "1920x1080@?Hz");
    assert_eq!(format_timing(None), "-");
}

#[test]
fn adapter_identity_and_interface_choice() {
    assert!(is_supported_adapter(VENDOR_ID, PRODUCT_ID_JUA365));
    assert!(!is_supported_adapter(VENDOR_ID, 0x5600));
    assert!(is_listed_device(VENDOR_ID));
    assert!(!is_listed_device(0x1234));
    assert_eq!(
        preferred_interface(&[vec![setting(0, false)], vec![setting(3, false), setting(2, true)]]),
        Some(2)
    );
    assert_eq!(
        preferred_interface(&[vec![setting(5, false)], vec![setting(3, false)]]),
        Some(5)
    );
    assert_eq!(preferred_interface(&[vec![], vec![setting(3, false)]]), None);
    assert_eq!(preferred_interface(&[]), None);
}

#[test]
fn edid_reads_follow_the_extension_count() {
    assert_eq!(edid_extension_offsets(0), Vec::<u16>::new());
    assert_eq!(edid_extension_offsets(1), vec![128]);
    assert_eq!(edid_extension_offsets(3), vec![128, 256, 384]);
    assert_eq!(edid_extension_offsets(200), vec![128, 256, 384]);
}

fn fence(data: u32) -> DisplayInterrupt {
    DisplayInterrupt {
        is_display: true,
        display_data: data,
        display_event: 0x04,
        has_fence_id: true,
        has_jpeg_error: false,
    }
}

#[test]
fn wait_summary_stops_at_the_target_fence() {
    let mut summary = InterruptWaitSummary::new(7);
    assert!(!summary.record(fence(5)));
    let error = DisplayInterrupt {
        is_display: true,
        display_data: 6,
        display_event: 0x08,
        has_fence_id: false,
        has_jpeg_error: true,
    };
    assert!(!summary.record(error));
    assert!(summary.record(fence(7)));
    assert_eq!(summary.packets, 3);
    assert_eq!(summary.fences, 2);
    assert_eq!(summary.matched_fences, 1);
    assert_eq!(summary.jpeg_errors, 1);
    assert_eq!(summary.ack_lag(), 0);
    assert_eq!(
        format_interrupt_summary(Some(summary)),
        " interrupts=3 fences=2 matched=1 target_data=0x00000007 ack_lag=0 jpeg_errors=1 last_event=0x04 last_data=0x00000007"
    );
    assert_eq!(
        format_setup_ack_summary(Some(summary)),
        " setup_ack_packets=3 setup_ack_fences=2 setup_ack_matched=1 setup_ack_lag=0 setup_ack_last=0x00000007"
    );
    assert_eq!(format_interrupt_summary(None), "");
    let mut behind = InterruptWaitSummary::new(10);
    behind.record(fence(4));
    assert_eq!(behind.ack_lag(), 6);
}
