use preview_core::media::{
    find_jpeg_frame, is_native_decoding_available, decode_image_scaled, DecoderConfig,
};

#[test]
fn test_decoder_config_default() {
    let config = DecoderConfig::default();
    assert!(config.hardware_acceleration);
    assert!(!config.zero_copy);
    assert!(config.preferred_format.is_none());
}

#[test]
fn test_native_decoding_availability() {
    // This should not panic
    let _available = is_native_decoding_available();
}

#[test]
fn jpeg_frame_is_found_between_markers() {
    let buf = vec![0x00, 0xff, 0xd8, 0x11, 0x22, 0xff, 0xd9, 0x33];
    let r = find_jpeg_frame(&buf);
    assert_eq!(r, Some((1, 7)));
}

#[test]
fn jpeg_frame_requires_both_markers() {
    let only_soi = vec![0xff, 0xd8, 0x01, 0x02];
    assert_eq!(find_jpeg_frame(&only_soi), None);
    let only_eoi = vec![0x01, 0xff, 0xd9];
    assert_eq!(find_jpeg_frame(&only_eoi), None);
    assert_eq!(find_jpeg_frame(&[]), None);
}

#[test]
fn jpeg_frame_takes_first_soi_and_first_eoi() {
    let buf = vec![0xff, 0xd8, 0xff, 0xd8, 0xff, 0xd9, 0xff, 0xd9];
    assert_eq!(find_jpeg_frame(&buf), Some((0, 6)));
}

/// A minimal 1x1 24-bit BMP (blue pixel), byte by byte.
fn tiny_bmp() -> Vec<u8> {
    let mut b: Vec<u8> = Vec::new();
    b.extend_from_slice(b"BM");
    b.extend_from_slice(&58u32.to_le_bytes()); // file size
    b.extend_from_slice(&[0, 0, 0, 0]);
    b.extend_from_slice(&54u32.to_le_bytes()); // pixel offset
    b.extend_from_slice(&40u32.to_le_bytes()); // info header size
    b.extend_from_slice(&1i32.to_le_bytes()); // width
    b.extend_from_slice(&1i32.to_le_bytes()); // height
    b.extend_from_slice(&1u16.to_le_bytes()); // planes
    b.extend_from_slice(&24u16.to_le_bytes()); // bits per pixel
    b.extend_from_slice(&[0u8; 24]); // compression .. colors
    b.extend_from_slice(&[255, 0, 0, 0]); // BGR + row pad
    b
}

#[test]
fn image_decode_scales_to_fit() {
    let bmp = tiny_bmp();
    let img = decode_image_scaled(&bmp, 4, 4).expect("decode");
    assert_eq!(img.width, 4);
    assert_eq!(img.height, 4);
    assert_eq!(img.rgba.len(), 64);
    // The single source pixel is pure blue; so is every scaled pixel.
    assert_eq!(&img.rgba[0..4], &[0, 0, 255, 255]);
}

#[test]
fn image_decode_rejects_garbage() {
    let garbage = vec![1, 2, 3, 4, 5, 6, 7, 8];
    assert!(decode_image_scaled(&garbage, 4, 4).is_none());
}
