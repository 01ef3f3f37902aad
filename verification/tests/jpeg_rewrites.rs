use t6proto::jpeg::{
    insert_intel_ipp_comment, jpeg_info_would_truncate, parse_jpeg_info,
    patch_jfif_version_102, patch_jpeg_component_ids_zero_based, type7_mode6_jpeg_compat,
    Type7JpegComponentIds,
};

const COMMENT: &[u8] = b"Intel(R) IPP JPEG encoder [7.1.37466] - Sep 25 2012;\0";

fn sof_sos_body() -> Vec<u8> {
    vec![
        0xff, 0xc0, 0x00, 0x11, 0x08, 0x00, 0x10, 0x00, 0x20, 0x03, 0x01, 0x22, 0x00, 0x02,
        0x11, 0x01, 0x03, 0x11, 0x01, 0xff, 0xda, 0x00, 0x0c, 0x03, 0x01, 0x00, 0x02, 0x11,
        0x03, 0x11, 0x00, 0x3f, 0x00, 0xff, 0xd9,
    ]
}

fn jfif_sample() -> Vec<u8> {
    let mut jpeg = vec![
        0xff, 0xd8, 0xff, 0xe0, 0x00, 0x10, b'J', b'F', b'I', b'F', 0x00, 0x01, 0x01, 0x00,
        0x00, 0x01, 0x00, 0x01, 0x00, 0x00,
    ];
    jpeg.extend_from_slice(&sof_sos_body());
    jpeg
}

#[test]
fn jpeg_info_reads_frame_header_and_sampling() {
    let jpeg = jfif_sample();
    let info = parse_jpeg_info(&jpeg).unwrap();
    assert_eq!(info.width, 0x20);
    assert_eq!(info.height, 0x10);
    assert_eq!(info.sof_marker, 0xc0);
    assert!(!info.is_progressive);
    assert_eq!(info.components.len(), 3);
    assert_eq!(info.sampling_summary(), "id1:2x2,id2:1x1,id3:1x1");
    assert!(info.looks_like_baseline_ycbcr_420());
}

#[test]
fn jpeg_info_errors() {
    assert_eq!(
        parse_jpeg_info(&[0x00, 0x01, 0x02, 0x03]).unwrap_err(),
        "input is not a JPEG file"
    );
    assert_eq!(
        parse_jpeg_info(&[0xff, 0xd8, 0xff, 0xd9]).unwrap_err(),
        "could not find JPEG dimensions"
    );
    let bad_table = vec![
        0xff, 0xd8, 0xff, 0xc2, 0x00, 0x0b, 0x08, 0x00, 0x10, 0x00, 0x10, 0x03, 0x01, 0x22,
        0x00, 0xff, 0xd9,
    ];
    assert_eq!(
        parse_jpeg_info(&bad_table).unwrap_err(),
        "invalid JPEG SOF component table"
    );
    let truncated = vec![0xff, 0xd8, 0xff, 0xc0, 0x00, 0x07, 0x08, 0x00, 0x10, 0x00, 0x10];
    assert!(jpeg_info_would_truncate(&truncated));
    assert!(!jpeg_info_would_truncate(&jfif_sample()));
}

#[test]
fn jfif_version_is_set_to_1_02() {
    let mut jpeg = jfif_sample();
    patch_jfif_version_102(&mut jpeg).unwrap();
    assert_eq!(&jpeg[11..13], &[0x01, 0x02]);
    let mut expected = jfif_sample();
    expected[12] = 0x02;
    assert_eq!(jpeg, expected);

    let mut not_jpeg = vec![1, 2, 3, 4];
    assert_eq!(
        patch_jfif_version_102(&mut not_jpeg).unwrap_err(),
        "input is not a JPEG file"
    );
    assert_eq!(not_jpeg, vec![1, 2, 3, 4]);
}

#[test]
fn ipp_comment_goes_after_app0_once() {
    let mut jpeg = jfif_sample();
    insert_intel_ipp_comment(&mut jpeg).unwrap();
    let original = jfif_sample();
    assert_eq!(jpeg.len(), original.len() + COMMENT.len() + 4);
    assert_eq!(&jpeg[..20], &original[..20]);
    assert_eq!(&jpeg[20..24], &[0xff, 0xfe, 0x00, 55]);
    assert_eq!(&jpeg[24..24 + COMMENT.len()], COMMENT);
    assert_eq!(&jpeg[24 + COMMENT.len()..], &original[20..]);

    let once = jpeg.clone();
    insert_intel_ipp_comment(&mut jpeg).unwrap();
    assert_eq!(jpeg, once);
}

#[test]
fn ipp_comment_without_app0_follows_start_of_image() {
    let mut jpeg = vec![0xff, 0xd8];
    jpeg.extend_from_slice(&sof_sos_body());
    insert_intel_ipp_comment(&mut jpeg).unwrap();
    assert_eq!(&jpeg[..6], &[0xff, 0xd8, 0xff, 0xfe, 0x00, 55]);
}

#[test]
fn component_patch_reports_malformed_headers() {
    let mut short_sof = vec![0xff, 0xd8, 0xff, 0xc0, 0x00, 0x06, 0x08, 0x00, 0x10, 0x00];
    assert_eq!(
        patch_jpeg_component_ids_zero_based(&mut short_sof).unwrap_err(),
        "invalid JPEG SOF segment"
    );
    let mut bad_sof_table = vec![
        0xff, 0xd8, 0xff, 0xc0, 0x00, 0x0b, 0x08, 0x00, 0x10, 0x00, 0x10, 0x03, 0x01, 0x22,
        0x00, 0xff, 0xd9,
    ];
    assert_eq!(
        patch_jpeg_component_ids_zero_based(&mut bad_sof_table).unwrap_err(),
        "invalid JPEG SOF component table"
    );
    let mut short_sos = vec![0xff, 0xd8, 0xff, 0xda, 0x00, 0x03, 0x01, 0xff, 0xd9];
    assert_eq!(
        patch_jpeg_component_ids_zero_based(&mut short_sos).unwrap_err(),
        "invalid JPEG SOS segment"
    );
    let mut bad_sos_table = vec![0xff, 0xd8, 0xff, 0xda, 0x00, 0x05, 0x02, 0x01, 0x00, 0xff, 0xd9];
    assert_eq!(
        patch_jpeg_component_ids_zero_based(&mut bad_sos_table).unwrap_err(),
        "invalid JPEG SOS component table"
    );
}

#[test]
fn mode6_compat_copy_applies_all_rewrites() {
    let original = jfif_sample();
    let patched = type7_mode6_jpeg_compat(&original, Type7JpegComponentIds::ZeroBased).unwrap();
    assert_eq!(original, jfif_sample());
    assert_eq!(&patched[11..13], &[0x01, 0x02]);
    assert_eq!(&patched[20..22], &[0xff, 0xfe]);
    let body = 24 + COMMENT.len();
    assert_eq!(&patched[body + 10..body + 19], &[0, 0x22, 0, 1, 0x11, 1, 2, 0x11, 1]);
    assert_eq!(&patched[body + 24..body + 30], &[0, 0, 1, 0x11, 2, 0x11]);
    assert_eq!(
        type7_mode6_jpeg_compat(&[0, 1, 2, 3], Type7JpegComponentIds::Original).unwrap_err(),
        "input is not a JPEG file"
    );
}
