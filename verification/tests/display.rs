use t6proto::color::{ChromaMode, YuvMatrix, YuvRange};
use t6proto::convert::{bgra_to_nv12, bgra_to_yv12, rgb_to_nv12, rgb_to_yv12};
use t6proto::geometry::{source_coordinate, type7_mode6_plane_addrs, Rotation};
use t6proto::jpeg::{
    patch_jpeg_component_ids_zero_based, patch_jpeg_type7_mode6_compat, Type7JpegComponentIds,
};

fn sample_jpeg_with_one_based_component_ids() -> Vec<u8> {
    vec![
        0xff, 0xd8, 0xff, 0xc0, 0x00, 0x11, 0x08, 0x00, 0x10, 0x00, 0x10, 0x03, 0x01, 0x22,
        0x00, 0x02, 0x11, 0x01, 0x03, 0x11, 0x01, 0xff, 0xda, 0x00, 0x0c, 0x03, 0x01, 0x00,
        0x02, 0x11, 0x03, 0x11, 0x00, 0x3f, 0x00, 0xff, 0xd9,
    ]
}

fn sample_rgb_4x2() -> Vec<u8> {
    vec![
        255, 0, 0, 0, 255, 0, 0, 0, 255, 255, 255, 255, 32, 64, 96, 96, 64, 32, 12, 24, 36,
        200, 180, 160,
    ]
}

fn bgra_from_rgb(rgb: &[u8]) -> Vec<u8> {
    let mut bgra = Vec::with_capacity(rgb.len() / 3 * 4);
    for pixel in rgb.chunks_exact(3) {
        bgra.push(pixel[2]);
        bgra.push(pixel[1]);
        bgra.push(pixel[0]);
        bgra.push(255);
    }
    bgra
}

#[test]
fn rotation_output_size_swaps_dimensions_for_quarter_turns() {
    assert_eq!(Rotation::Deg0.output_size(1920, 1080), (1920, 1080));
    assert_eq!(Rotation::Deg90.output_size(1080, 1920), (1920, 1080));
    assert_eq!(Rotation::Deg180.output_size(1920, 1080), (1920, 1080));
    assert_eq!(Rotation::Deg270.output_size(1080, 1920), (1920, 1080));
}

#[test]
fn rotation_90_maps_output_to_source_clockwise() {
    assert_eq!(source_coordinate(0, 0, 3, 2, Rotation::Deg90), (0, 1));
    assert_eq!(source_coordinate(1, 0, 3, 2, Rotation::Deg90), (0, 0));
    assert_eq!(source_coordinate(0, 2, 3, 2, Rotation::Deg90), (2, 1));
}

#[test]
fn rotation_270_maps_output_to_source_counter_clockwise() {
    assert_eq!(source_coordinate(0, 0, 3, 2, Rotation::Deg270), (2, 0));
    assert_eq!(source_coordinate(1, 0, 3, 2, Rotation::Deg270), (2, 1));
    assert_eq!(source_coordinate(0, 2, 3, 2, Rotation::Deg270), (0, 0));
}

#[test]
fn nv12_uses_aligned_y_and_interleaved_uv_planes() {
    let rgb = vec![0; 2 * 2 * 3];
    let nv12 = rgb_to_nv12(&rgb, 2, 2).unwrap();

    assert_eq!(nv12.len(), 16 * 2 + 16);
}

#[test]
fn yv12_uses_aligned_planar_uv_planes() {
    let rgb = vec![0; 2 * 2 * 3];
    let yv12 = rgb_to_yv12(&rgb, 2, 2).unwrap();

    assert_eq!(yv12.len(), 16 * 2 + 16 + 16);
}

#[test]
fn direct_bgra_to_nv12_matches_rgb_path_without_rotation() {
    let rgb = sample_rgb_4x2();
    let bgra = bgra_from_rgb(&rgb);
    let direct = bgra_to_nv12(
        &bgra,
        4,
        2,
        4 * 4,
        Rotation::Deg0,
        ChromaMode::Average,
        YuvMatrix::Bt601,
        YuvRange::Full,
    )
    .unwrap();
    let via_rgb = rgb_to_nv12(&rgb, 4, 2).unwrap();

    assert_eq!(direct, via_rgb);
}

#[test]
fn direct_bgra_to_yv12_matches_rgb_path_without_rotation() {
    let rgb = sample_rgb_4x2();
    let bgra = bgra_from_rgb(&rgb);
    let direct = bgra_to_yv12(
        &bgra,
        4,
        2,
        4 * 4,
        Rotation::Deg0,
        ChromaMode::Average,
        YuvMatrix::Bt601,
        YuvRange::Full,
    )
    .unwrap();
    let via_rgb = rgb_to_yv12(&rgb, 4, 2).unwrap();

    assert_eq!(direct, via_rgb);
}

#[test]
fn type7_mode6_chroma_address_uses_canvas_width_stride() {
    let (plane0, plane1, plane2) =
        type7_mode6_plane_addrs(0x0295_56c0, 0, 128, 1920, 1080, 1920, 1920);

    assert_eq!(plane0, 0x0299_16f0);
    assert_eq!(plane1, 0x02b7_16f0);
    assert_eq!(plane2, 0);
}

#[test]
fn type7_jpeg_component_patch_rewrites_sof_and_sos_ids() {
    let mut jpeg = vec![
        0xff, 0xd8, 0xff, 0xc0, 0x00, 0x11, 0x08, 0x00, 0x10, 0x00, 0x10, 0x03, 0x01, 0x22,
        0x00, 0x02, 0x11, 0x01, 0x03, 0x11, 0x01, 0xff, 0xda, 0x00, 0x0c, 0x03, 0x01, 0x00,
        0x02, 0x11, 0x03, 0x11, 0x00, 0x3f, 0x00, 0xff, 0xd9,
    ];

    patch_jpeg_component_ids_zero_based(&mut jpeg).unwrap();

    assert_eq!(&jpeg[12..21], &[0, 0x22, 0, 1, 0x11, 1, 2, 0x11, 1]);
    assert_eq!(&jpeg[26..32], &[0, 0, 1, 0x11, 2, 0x11]);
}

#[test]
fn type7_jpeg_original_component_ids_preserves_sof_and_sos_ids() {
    let mut jpeg = sample_jpeg_with_one_based_component_ids();

    patch_jpeg_type7_mode6_compat(&mut jpeg, Type7JpegComponentIds::Original).unwrap();

    assert!(jpeg
        .windows(9)
        .any(|window| window == [1, 0x22, 0, 2, 0x11, 1, 3, 0x11, 1]));
    assert!(jpeg.windows(6).any(|window| window == [1, 0, 2, 0x11, 3, 0x11]));
}
