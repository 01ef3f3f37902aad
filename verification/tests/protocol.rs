use t6proto::edid::Edid;
use t6proto::fragment::{fragments, Fragment};
use t6proto::header::{BulkDmaHeader, VideoFlipHeader};
use t6proto::interrupt::DisplayInterrupt;
use t6proto::{
    EDID_BLOCK_SIZE, INTERRUPT_PACKET_SIZE, INT_DISPLAY_EVENT_FENCE_ID, INT_FUNC_DISPLAY,
    PACKET_FLAG_CONTINUE_TO_SEND, VIDEO_CMD_FLIP_PRIMARY, VIDEO_COLOR_JPEG, VIDEO_COLOR_NV12,
    VIDEO_FLIP_HEADER_SIZE,
};

fn le32(bytes: &[u8]) -> u32 {
    u32::from_le_bytes(bytes.try_into().unwrap())
}

#[test]
fn bulk_header_matches_capture_shape() {
    let header = BulkDmaHeader::display(0x87e0, 0x03000000, 0x87e0, 0, false).to_bytes();

    assert_eq!(le32(&header[0..4]), 0);
    assert_eq!(le32(&header[4..8]), 0x87e0);
    assert_eq!(le32(&header[8..12]), 0x03000000);
    assert_eq!(le32(&header[12..16]), 0x87e0);
    assert_eq!(le32(&header[16..20]), 0);
    assert_eq!(header[20], 0);
}

#[test]
fn fragmentation_sets_continue_flag() {
    let total = 0x4f7e0;
    let max_packet = 0x19000;
    let fragments = fragments(total, max_packet);

    assert_eq!(
        fragments,
        vec![
            Fragment {
                offset: 0,
                size: 0x19000,
                more: true
            },
            Fragment {
                offset: 0x19000,
                size: 0x19000,
                more: true
            },
            Fragment {
                offset: 0x32000,
                size: 0x19000,
                more: true
            },
            Fragment {
                offset: 0x4b000,
                size: 0x47e0,
                more: false
            },
        ]
    );

    let header = BulkDmaHeader::display(
        total,
        0x030b7dc0,
        fragments[1].size,
        fragments[1].offset,
        fragments[1].more,
    )
    .to_bytes();

    assert_eq!(le32(&header[12..16]), 0x19000);
    assert_eq!(le32(&header[16..20]), 0x19000);
    assert_eq!(header[20], PACKET_FLAG_CONTINUE_TO_SEND);
}

#[test]
fn jpeg_flip_header_matches_expected_fields() {
    let header = VideoFlipHeader::jpeg(
        0,
        0x87e0 - VIDEO_FLIP_HEADER_SIZE as u32,
        1360,
        768,
        0x50055005,
        0,
    )
    .to_bytes();

    assert_eq!(le32(&header[0..4]), VIDEO_CMD_FLIP_PRIMARY);
    assert_eq!(le32(&header[12..16]), VIDEO_COLOR_NV12);
    assert_eq!(le32(&header[20..24]), 0x50055005);
    assert_eq!(le32(&header[32..36]), VIDEO_COLOR_JPEG);
    assert_eq!(header[47], 0);
}

#[test]
fn interrupt_parsing() {
    let mut packet = [0; INTERRUPT_PACKET_SIZE];
    packet[0] = INT_FUNC_DISPLAY;
    packet[12] = 0x3b;
    packet[19] = INT_DISPLAY_EVENT_FENCE_ID;

    let interrupt = DisplayInterrupt::parse(&packet);

    assert!(interrupt.is_display);
    assert_eq!(interrupt.display_data, 0x3b);
    assert_eq!(interrupt.display_event, INT_DISPLAY_EVENT_FENCE_ID);
    assert!(interrupt.has_fence_id);
    assert!(!interrupt.has_jpeg_error);
}

#[test]
fn edid_counts_extensions_and_checksums() {
    let mut base = [0; EDID_BLOCK_SIZE];
    base[0..8].copy_from_slice(&[0x00, 0xff, 0xff, 0xff, 0xff, 0xff, 0xff, 0x00]);
    base[54..72].copy_from_slice(&[
        0x02, 0x3a, 0x80, 0x18, 0x71, 0x38, 0x2d, 0x40, 0x58, 0x2c, 0x45, 0x00, 0x0f, 0x28,
        0x21, 0x00, 0x00, 0x1e,
    ]);
    base[90..108].copy_from_slice(&[
        0x00, 0x00, 0x00, 0xfc, 0x00, b'V', b'A', b'2', b'4', b'D', b'\n', b' ', b' ', b' ',
        b' ', b' ', b' ', b' ',
    ]);
    base[126] = 1;
    base[127] = base
        .iter()
        .take(127)
        .fold(0u8, |sum, byte| sum.wrapping_add(*byte))
        .wrapping_neg();

    let mut extension = [0; EDID_BLOCK_SIZE];
    extension[0] = 0x02;
    extension[127] = 0xfe;

    let edid = Edid::from_blocks(vec![base, extension]);

    assert_eq!(edid.extension_count(), 1);
    assert_eq!(edid.declared_block_count(), 2);
    assert_eq!(edid.clamped_block_count(), 2);
    assert_eq!(edid.block_checksum_validity(), vec![true, true]);
    assert!(edid.is_base_checksum_valid());
    assert_eq!(edid.monitor_name().as_deref(), Some("VA24D"));

    let timing = edid.preferred_timing().unwrap();
    assert_eq!(timing.horizontal_active, 1920);
    assert_eq!(timing.vertical_active, 1080);
    assert_eq!(timing.refresh_hz, Some(60));
}
