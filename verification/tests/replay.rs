use t6proto::replay::{
    hex_bytes, next_ring_addr, patch_payload_sequence, select_records, ReplayCursor,
    ReplayFilter, ReplayRecordInfo, ReplayStep,
};

fn record(index: usize, video_type: u32) -> ReplayRecordInfo {
    ReplayRecordInfo {
        index,
        video_type,
        sequence: 100 + index as u32,
        dest: 0x1000 * index as u32,
    }
}

#[test]
fn records_are_selected_by_every_filter() {
    let records = vec![record(3, 4), record(4, 7), record(5, 7), record(6, 4)];
    let all = ReplayFilter {
        record: None,
        record_start: None,
        record_end: None,
        video_type: None,
    };
    assert_eq!(select_records(&all, &records), Ok(vec![0, 1, 2, 3]));
    let type7_from_5 = ReplayFilter {
        record_start: Some(5),
        video_type: Some(7),
        ..all
    };
    assert_eq!(select_records(&type7_from_5, &records), Ok(vec![2]));
    let range = ReplayFilter {
        record_start: Some(4),
        record_end: Some(5),
        ..all
    };
    assert_eq!(select_records(&range, &records), Ok(vec![1, 2]));
    let none = ReplayFilter {
        record: Some(9),
        ..all
    };
    assert_eq!(
        select_records(&none, &records).unwrap_err(),
        "selected replay range contains no records"
    );
    assert_eq!(
        select_records(&all, &[]).unwrap_err(),
        "replay manifest contains no records"
    );
}

#[test]
fn sequence_is_patched_little_endian() {
    let mut payload = vec![0xaa; 16];
    patch_payload_sequence(&mut payload, 0x1234_5678).unwrap();
    assert_eq!(
        payload,
        vec![0xaa, 0xaa, 0xaa, 0xaa, 0xaa, 0xaa, 0xaa, 0xaa, 0x78, 0x56, 0x34, 0x12, 0xaa, 0xaa, 0xaa, 0xaa]
    );
    let mut short = vec![0; 11];
    assert_eq!(
        patch_payload_sequence(&mut short, 1).unwrap_err(),
        "payload is too small to patch sequence"
    );
    assert_eq!(short, vec![0; 11]);
}

#[test]
fn ring_address_advances_by_kib_less_32() {
    assert_eq!(next_ring_addr(0x1000, 100), 0x1000 + 1024 - 32);
    assert_eq!(next_ring_addr(0x1000, 1024), 0x1000 + 1024 - 32);
    assert_eq!(next_ring_addr(0x1000, 1025), 0x1000 + 2048 - 32);
    assert_eq!(next_ring_addr(0x1000, 0), 0x1000);
    assert_eq!(next_ring_addr(0xffff_ff00, 2048), 0xffff_ff00u32.wrapping_add(2048 - 32));
    assert_eq!(next_ring_addr(5, usize::MAX), 5u32.wrapping_add(0xffff_fc00 - 32));
}

#[test]
fn cursor_overrides_and_advances() {
    let mut cursor = ReplayCursor {
        sequence: Some(u32::MAX),
        payload_addr: Some(0x2000),
    };
    assert_eq!(
        cursor.step(&record(1, 7)),
        ReplayStep {
            cmd_dest: 0x2000,
            fence_id: u32::MAX,
            patch_sequence: true
        }
    );
    cursor.advance(100);
    assert_eq!(cursor.sequence, Some(0));
    assert_eq!(cursor.payload_addr, Some(0x2000 + 1024 - 32));
    let plain = ReplayCursor {
        sequence: None,
        payload_addr: None,
    };
    assert_eq!(
        plain.step(&record(2, 4)),
        ReplayStep {
            cmd_dest: 0x2000,
            fence_id: 102,
            patch_sequence: false
        }
    );
}

#[test]
fn hex_bytes_are_spaced_pairs() {
    assert_eq!(hex_bytes(&[0x00, 0xff, 0x10, 0x0a]), "00 ff 10 0a");
    assert_eq!(hex_bytes(&[]), "");
    assert_eq!(hex_bytes(&[7]), "07");
}
