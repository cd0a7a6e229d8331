use preview_core::convert::{
    conv_params, p010_sample_to_10bit, scale_rgba_nearest, shader_mode_index, yuv10_to_rgb8,
    yuv8_to_rgb8, yuv_to_rgba, PreviewShaderMode,
};
use preview_core::media::YuvPixFmt;

#[test]
fn bt709_black_and_white_are_exact() {
    // NV12 (16, 128, 128) is black, (235, 128, 128) is white.
    assert_eq!(yuv8_to_rgb8(16, 128, 128), (0, 0, 0));
    assert_eq!(yuv8_to_rgb8(235, 128, 128), (255, 255, 255));
    // Below coded black stays black; above coded white clamps.
    assert_eq!(yuv8_to_rgb8(0, 128, 128), (0, 0, 0));
    assert_eq!(yuv8_to_rgb8(255, 128, 128), (255, 255, 255));
}

#[test]
fn bt709_red_vector_is_roughly_pure_red() {
    let (r, g, b) = yuv8_to_rgb8(81, 90, 240);
    assert_eq!(r, 255);
    assert!(g <= 40, "green leaked: {}", g);
    assert!(b <= 8, "blue leaked: {}", b);
}

#[test]
fn p010_vectors_match_their_8bit_equivalents() {
    // A 10-bit sample at four times an 8-bit one decodes identically;
    // black, white and the red vector check it on concrete values.
    assert_eq!(yuv10_to_rgb8(64, 512, 512), (0, 0, 0));
    assert_eq!(yuv10_to_rgb8(940, 512, 512), (255, 255, 255));
    assert_eq!(yuv8_to_rgb8(81, 90, 240), yuv10_to_rgb8(81 * 4, 90 * 4, 240 * 4));
    assert_eq!(yuv8_to_rgb8(100, 60, 200), yuv10_to_rgb8(400, 240, 800));
}

#[test]
fn p010_mid_gray_is_half_intensity() {
    // A solid 10-bit gray Y = 512 must come out at 0.5 within 0.01.
    let (r, g, b) = yuv10_to_rgb8(512, 512, 512);
    assert_eq!(r, g);
    assert_eq!(g, b);
    let v = r as f64 / 255.0;
    assert!((v - 0.5).abs() <= 0.01, "got {}", v);
}

#[test]
fn p010_samples_live_in_the_top_bits() {
    assert_eq!(p010_sample_to_10bit(0xffff), 1023);
    assert_eq!(p010_sample_to_10bit(64 << 6), 64);
    assert_eq!(p010_sample_to_10bit(0), 0);
}

#[test]
fn conversion_uniforms_are_the_documented_rationals() {
    let nv12 = conv_params(YuvPixFmt::Nv12);
    assert_eq!((nv12.y_bias_num, nv12.y_bias_den), (16, 255));
    assert_eq!((nv12.y_scale_num, nv12.y_scale_den), (255, 219));
    assert_eq!((nv12.uv_bias_num, nv12.uv_bias_den), (128, 255));
    assert_eq!((nv12.uv_scale_num, nv12.uv_scale_den), (255, 224));
    let p010 = conv_params(YuvPixFmt::P010);
    assert_eq!((p010.y_bias_num, p010.y_bias_den), (64, 1023));
    assert_eq!((p010.y_scale_num, p010.y_scale_den), (1023, 876));
    assert_eq!((p010.uv_bias_num, p010.uv_bias_den), (512, 1023));
    assert_eq!((p010.uv_scale_num, p010.uv_scale_den), (1023, 896));
}

#[test]
fn plane_conversion_matches_the_pixel_conversion() {
    // A 2x2 NV12 frame with neutral chroma: every pixel equals the 8-bit
    // BT.709 conversion of its luma byte, with opaque alpha. The plane
    // holds the coded-black and coded-white vectors.
    let y = vec![16u8, 235, 100, 180];
    let uv = vec![128u8, 128];
    let rgba = yuv_to_rgba(&y, &uv, 2, 2, YuvPixFmt::Nv12);
    assert_eq!(rgba.len(), 16);
    for px in 0..4 {
        let (r, g, b) = yuv8_to_rgb8(y[px], 128, 128);
        assert_eq!(&rgba[4 * px..4 * px + 4], &[r, g, b, 255]);
    }
    assert_eq!(&rgba[0..4], &[0, 0, 0, 255]); // Y=16 is black
    assert_eq!(&rgba[4..8], &[255, 255, 255, 255]); // Y=235 is white
}

#[test]
fn plane_conversion_applies_bt709_chroma() {
    // Every pixel of a 2x2 NV12 frame shares one chroma texel; the output
    // must equal the single-sample conversion with that chroma.
    let y = vec![64u8, 64, 64, 64];
    let uv = vec![128u8, 255];
    let rgba = yuv_to_rgba(&y, &uv, 2, 2, YuvPixFmt::Nv12);
    let (r, g, b) = yuv8_to_rgb8(64, 128, 255);
    assert_eq!(&rgba[0..4], &[r, g, b, 255]);
    assert!(r > 150, "Cr must push red up, got {}", r);
    assert_eq!(b, yuv8_to_rgb8(64, 128, 128).2); // blue untouched by Cr
}

#[test]
fn plane_conversion_reads_p010_as_16bit_words() {
    // A 2x2 P010 frame: 16-bit little-endian samples, data in the top 10
    // bits. Coded black is Y=64<<6 with chroma at 512<<6.
    let black = (64u16 << 6).to_le_bytes();
    let mid = (512u16 << 6).to_le_bytes();
    let mut y_plane = Vec::new();
    for _ in 0..4 {
        y_plane.extend_from_slice(&black);
    }
    let mut uv_plane = Vec::new();
    uv_plane.extend_from_slice(&mid);
    uv_plane.extend_from_slice(&mid);
    let rgba = yuv_to_rgba(&y_plane, &uv_plane, 2, 2, YuvPixFmt::P010);
    assert_eq!(rgba.len(), 16);
    for px in 0..4 {
        assert_eq!(&rgba[4 * px..4 * px + 4], &[0, 0, 0, 255]);
    }
    // Coded white, Y=940<<6, comes out at full intensity.
    let white = (940u16 << 6).to_le_bytes();
    let mut yw = Vec::new();
    for _ in 0..4 {
        yw.extend_from_slice(&white);
    }
    let rgba = yuv_to_rgba(&yw, &uv_plane, 2, 2, YuvPixFmt::P010);
    assert_eq!(&rgba[0..4], &[255, 255, 255, 255]);
}

#[test]
fn plane_conversion_handles_odd_widths() {
    // A 1x1 frame: the chroma plane still holds one whole texel.
    let y = vec![235u8];
    let uv = vec![128u8, 128];
    let rgba = yuv_to_rgba(&y, &uv, 1, 1, YuvPixFmt::Nv12);
    assert_eq!(rgba, vec![255, 255, 255, 255]);
    // 3x1: the third pixel uses the second chroma texel.
    let y3 = vec![81u8, 81, 81];
    let uv3 = vec![90u8, 240, 90, 240];
    let rgba3 = yuv_to_rgba(&y3, &uv3, 3, 1, YuvPixFmt::Nv12);
    let (r, g, b) = yuv8_to_rgb8(81, 90, 240);
    assert_eq!(&rgba3[8..12], &[r, g, b, 255]);
    assert_eq!(r, 255); // the red test vector
}

#[test]
fn nearest_scaling_picks_the_mapped_source_pixel() {
    // 2x1 source (red, blue) scaled to 4x1: left half red, right half blue.
    let src = vec![255, 0, 0, 255, 0, 0, 255, 255];
    let out = scale_rgba_nearest(&src, 2, 1, 4, 1);
    assert_eq!(out.len(), 16);
    assert_eq!(&out[0..4], &[255, 0, 0, 255]);
    assert_eq!(&out[4..8], &[255, 0, 0, 255]);
    assert_eq!(&out[8..12], &[0, 0, 255, 255]);
    assert_eq!(&out[12..16], &[0, 0, 255, 255]);
}

#[test]
fn nearest_scaling_downsamples() {
    let src = vec![
        10, 10, 10, 255, 20, 20, 20, 255, //
        30, 30, 30, 255, 40, 40, 40, 255,
    ];
    let out = scale_rgba_nearest(&src, 2, 2, 1, 1);
    assert_eq!(out, vec![10, 10, 10, 255]);
}

#[test]
fn shader_mode_uniform_values() {
    assert_eq!(shader_mode_index(PreviewShaderMode::Solid), 0);
    assert_eq!(shader_mode_index(PreviewShaderMode::ShowY), 1);
    assert_eq!(shader_mode_index(PreviewShaderMode::UvDebug), 2);
    assert_eq!(shader_mode_index(PreviewShaderMode::Nv12), 3);
    assert_eq!(PreviewShaderMode::default(), PreviewShaderMode::Solid);
}
