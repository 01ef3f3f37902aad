use t6proto::edid::{edid_checksum_is_valid, parse_detailed_timing, Edid, EdidDetailedTiming};

fn with_checksum(mut block: [u8; 128]) -> [u8; 128] {
    let sum = block[..127].iter().fold(0u8, |s, b| s.wrapping_add(*b));
    block[127] = sum.wrapping_neg();
    block
}

const TIMING_1080P60: [u8; 18] = [
    0x02, 0x3a, 0x80, 0x18, 0x71, 0x38, 0x2d, 0x40, 0x58, 0x2c, 0x45, 0x00, 0x0f, 0x28, 0x21,
    0x00, 0x00, 0x1e,
];

const TIMING_4K30: [u8; 18] = [
    0x04, 0x74, 0x00, 0x30, 0xf2, 0x70, 0x5a, 0x80, 0xb0, 0x58, 0x8a, 0x00, 0x50, 0x1d, 0x74,
    0x00, 0x00, 0x1e,
];

#[test]
fn detailed_timing_fields_and_refresh() {
    let timing = parse_detailed_timing(&TIMING_1080P60).unwrap();
    assert_eq!(
        timing,
        EdidDetailedTiming {
            pixel_clock_khz: 148500,
            horizontal_active: 1920,
            horizontal_blanking: 280,
            vertical_active: 1080,
            vertical_blanking: 45,
            refresh_hz: Some(60),
        }
    );
    let timing = parse_detailed_timing(&TIMING_4K30).unwrap();
    assert_eq!(timing.horizontal_active, 3840);
    assert_eq!(timing.vertical_active, 2160);
    assert_eq!(timing.pixel_clock_khz, 297000);
    assert_eq!(timing.refresh_hz, Some(30));
}

#[test]
fn detailed_timing_rejects_display_descriptors_and_wrong_lengths() {
    let mut descriptor = [0u8; 18];
    descriptor[3] = 0xfc;
    assert_eq!(parse_detailed_timing(&descriptor), None);
    assert_eq!(parse_detailed_timing(&TIMING_1080P60[..17]), None);
    let mut empty_raster = [0u8; 18];
    empty_raster[0] = 1;
    assert_eq!(
        parse_detailed_timing(&empty_raster).unwrap().refresh_hz,
        None
    );
}

#[test]
fn checksum_detects_a_changed_byte() {
    let block = with_checksum([7u8; 128]);
    assert!(edid_checksum_is_valid(&block));
    let mut broken = block;
    broken[5] ^= 1;
    assert!(!edid_checksum_is_valid(&broken));
}

#[test]
fn timings_from_base_and_cta_extension() {
    let mut base = [0u8; 128];
    base[54..72].copy_from_slice(&TIMING_1080P60);
    base[126] = 2;
    let mut cta = [0u8; 128];
    cta[0] = 0x02;
    cta[2] = 4;
    cta[4..22].copy_from_slice(&TIMING_4K30);
    let mut other = [0u8; 128];
    other[0] = 0x10;
    other[2] = 4;
    other[4..22].copy_from_slice(&TIMING_4K30);
    let edid = Edid::from_blocks(vec![with_checksum(base), with_checksum(cta), other]);

    let timings = edid.detailed_timings();
    assert_eq!(timings.len(), 2);
    assert_eq!(timings[0].horizontal_active, 1920);
    assert_eq!(timings[1].horizontal_active, 3840);
    assert!(edid.has_4k_timing_hint());
    assert_eq!(edid.block_checksum_validity(), vec![true, true, false]);
    assert_eq!(edid.declared_block_count(), 3);
    assert_eq!(edid.clamped_block_count(), 3);
}

#[test]
fn block_counts_clamp_and_empty_edid() {
    let mut base = [0u8; 128];
    base[126] = 9;
    let edid = Edid::from_blocks(vec![base]);
    assert_eq!(edid.extension_count(), 9);
    assert_eq!(edid.declared_block_count(), 10);
    assert_eq!(edid.clamped_block_count(), 4);
    assert!(!edid.has_4k_timing_hint());

    let empty = Edid::from_blocks(Vec::new());
    assert_eq!(empty.extension_count(), 0);
    assert_eq!(empty.declared_block_count(), 1);
    assert!(!empty.is_base_checksum_valid());
    assert_eq!(empty.preferred_timing(), None);
    assert_eq!(empty.monitor_name(), None);
    assert!(empty.detailed_timings().is_empty());
    assert!(empty.block_checksum_validity().is_empty());
}

#[test]
fn descriptor_text_is_cut_decoded_and_trimmed() {
    let mut base = [0u8; 128];
    base[54..72].copy_from_slice(&[
        0x00, 0x00, 0x00, 0xff, 0x00, b' ', b' ', b'S', b'N', b'1', b' ', b'\n', b'X', b'X',
        b'X', b'X', b'X', b'X',
    ]);
    base[72..90].copy_from_slice(&[
        0x00, 0x00, 0x00, 0xfc, 0x00, b' ', b' ', b'\n', b' ', b' ', b' ', b' ', b' ', b' ',
        b' ', b' ', b' ', b' ',
    ]);
    base[90..108].copy_from_slice(&[
        0x00, 0x00, 0x00, 0xfc, 0x00, 0xff, b'A', 0, b'B', b' ', b' ', b' ', b' ', b' ', b' ',
        b' ', b' ', b' ',
    ]);
    let edid = Edid::from_blocks(vec![base]);
    assert_eq!(edid.monitor_serial().as_deref(), Some("SN1"));
    assert_eq!(edid.monitor_name().as_deref(), Some("\u{fffd}A"));
    assert_eq!(edid.blocks().len(), 1);
}
