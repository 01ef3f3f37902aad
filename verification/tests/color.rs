use t6proto::color::{
    bgr_to_yuv, clamp_u8, rgb_to_y, rgb_to_yuv, ChromaAccumulator, ChromaMode, YuvMatrix,
    YuvRange,
};
use t6proto::convert::{average_uv_2x2, bgra_to_yuv444, copy_bgra_to_rgb_bytes};
use t6proto::geometry::Rotation;

#[test]
fn conversion_matrices_exact_values() {
    assert_eq!(rgb_to_yuv(255, 0, 0), (77, 85, 255));
    assert_eq!(rgb_to_yuv(0, 255, 0), (149, 43, 21));
    assert_eq!(rgb_to_yuv(32, 64, 96), (58, 149, 109));
    assert_eq!(rgb_to_y(255, 255, 255), 255);
    assert_eq!(bgr_to_yuv(255, 0, 0, YuvMatrix::Bt709, YuvRange::Full), (54, 99, 255));
    assert_eq!(bgr_to_yuv(0, 0, 255, YuvMatrix::Bt601, YuvRange::Video), (41, 240, 110));
    assert_eq!(bgr_to_yuv(255, 255, 255, YuvMatrix::Bt709, YuvRange::Video), (235, 127, 128));
    assert_eq!(bgr_to_yuv(0, 0, 0, YuvMatrix::Bt709, YuvRange::Video), (16, 128, 128));
    assert_eq!(clamp_u8(-5), 0);
    assert_eq!(clamp_u8(300), 255);
    assert_eq!(clamp_u8(17), 17);
}

#[test]
fn chroma_modes_pick_a_block_sample() {
    let samples = [(100u8, 200u8), (110, 90), (130, 140), (90, 160)];
    let run = |mode| {
        let mut acc = ChromaAccumulator::new(mode);
        for (u, v) in samples {
            acc.push(u, v);
        }
        acc.finish()
    };
    assert_eq!(run(ChromaMode::Average), (107, 147));
    assert_eq!(run(ChromaMode::TopLeft), (100, 200));
    assert_eq!(run(ChromaMode::Saturated), (100, 200));
}

#[test]
fn average_uv_of_a_block() {
    let rgb = vec![
        255, 0, 0, 0, 255, 0, 0, 0, 255, 255, 255, 255, 32, 64, 96, 96, 64, 32,
    ];
    let (u, v) = average_uv_2x2(&rgb, 3, 0, 0);
    let p = [rgb_to_yuv(255, 0, 0), rgb_to_yuv(0, 255, 0), rgb_to_yuv(255, 255, 255), rgb_to_yuv(32, 64, 96)];
    let mean_u = (p.iter().map(|x| x.1 as u32).sum::<u32>() / 4) as u8;
    let mean_v = (p.iter().map(|x| x.2 as u32).sum::<u32>() / 4) as u8;
    assert_eq!((u, v), (mean_u, mean_v));
    assert_eq!((u, v), (101, 128));
}

#[test]
fn packed_copies_follow_the_rotation() {
    let bgra = vec![
        1, 2, 3, 255, 4, 5, 6, 255, 7, 8, 9, 255, 10, 11, 12, 255,
    ];
    let mut rgb = Vec::new();
    copy_bgra_to_rgb_bytes(&bgra, 2, 2, 8, Rotation::Deg0, &mut rgb);
    assert_eq!(rgb, vec![3, 2, 1, 6, 5, 4, 9, 8, 7, 12, 11, 10]);
    copy_bgra_to_rgb_bytes(&bgra, 2, 2, 8, Rotation::Deg90, &mut rgb);
    assert_eq!(rgb, vec![9, 8, 7, 3, 2, 1, 12, 11, 10, 6, 5, 4]);
    let yuv = bgra_to_yuv444(&bgra, 2, 2, 8, Rotation::Deg180, YuvMatrix::Bt601, YuvRange::Full);
    let last = bgr_to_yuv(3, 2, 1, YuvMatrix::Bt601, YuvRange::Full);
    assert_eq!(&yuv[9..12], &[last.0, last.1, last.2]);
}
