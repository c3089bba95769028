use aitex::errors::PipelineError;
use aitex::image_norm::{encode_normalized, normalize};

fn png_bytes(width: u32, height: u32, pixels: Vec<u8>) -> Vec<u8> {
    let img = image::RgbImage::from_raw(width, height, pixels).unwrap();
    let mut buf = Vec::new();
    img.write_to(&mut std::io::Cursor::new(&mut buf), image::ImageFormat::Png).unwrap();
    buf
}

fn jpeg_bytes(width: u32, height: u32, pixels: Vec<u8>) -> Vec<u8> {
    let img = image::RgbImage::from_raw(width, height, pixels).unwrap();
    let mut buf = Vec::new();
    img.write_to(&mut std::io::Cursor::new(&mut buf), image::ImageFormat::Jpeg).unwrap();
    buf
}

fn avg_brightness(pixels: &[u8]) -> u64 {
    let mut sum = 0u64;
    for chunk in pixels.chunks_exact(3) {
        sum += (chunk[0] as u64 * 299 + chunk[1] as u64 * 587 + chunk[2] as u64 * 114) / 1000;
    }
    sum / (pixels.len() as u64 / 3)
}

#[test]
fn bright_image_passes_through_unchanged() {
    let pixels = vec![200u8, 200, 200, 250, 250, 250];
    let raw = png_bytes(2, 1, pixels.clone());
    let img = normalize(&raw).unwrap();
    assert_eq!(img.width, 2);
    assert_eq!(img.height, 1);
    assert_eq!(img.pixels, pixels);
}

#[test]
fn dark_image_is_inverted_channel_by_channel() {
    let pixels = vec![10u8, 20, 30, 0, 0, 0];
    let raw = png_bytes(2, 1, pixels.clone());
    let img = normalize(&raw).unwrap();
    assert_eq!(img.pixels, vec![245u8, 235, 225, 255, 255, 255]);
}

#[test]
fn inversion_complements_the_average_brightness() {
    let pixels = vec![10u8, 20, 30, 0, 0, 0, 5, 5, 5, 60, 60, 60];
    let old_avg = avg_brightness(&pixels);
    assert!(old_avg < 128);
    let raw = png_bytes(2, 2, pixels);
    let img = normalize(&raw).unwrap();
    let new_avg = avg_brightness(&img.pixels);
    assert!(new_avg <= 255 - old_avg);
    assert!(new_avg >= 255 - old_avg - 2);
}

#[test]
fn threshold_sits_at_128() {
    // Every channel 128: average luminance 128, no inversion.
    let at = vec![128u8; 3];
    let img = normalize(&png_bytes(1, 1, at.clone())).unwrap();
    assert_eq!(img.pixels, at);
    // Every channel 127: average luminance 127, inverted.
    let below = vec![127u8; 3];
    let img = normalize(&png_bytes(1, 1, below)).unwrap();
    assert_eq!(img.pixels, vec![128u8; 3]);
}

#[test]
fn normalized_buffer_holds_width_height_triples() {
    let raw = jpeg_bytes(5, 4, vec![90u8; 5 * 4 * 3]);
    let img = normalize(&raw).unwrap();
    assert_eq!(img.width, 5);
    assert_eq!(img.height, 4);
    assert_eq!(img.pixels.len(), 5 * 4 * 3);
}

#[test]
fn undecodable_bytes_fail_with_decode() {
    match normalize(&vec![1u8, 2, 3, 4]) {
        Err(PipelineError::Decode(_)) => {}
        other => panic!("expected a decode failure, got {:?}", other),
    }
}

#[test]
fn reencoded_png_decodes_back_to_the_same_pixels() {
    let pixels = vec![200u8, 210, 220, 230, 240, 250];
    let raw = png_bytes(1, 2, pixels.clone());
    let img = normalize(&raw).unwrap();
    let png = encode_normalized(&img).unwrap();
    let decoded = image::load_from_memory(&png).unwrap().to_rgb8();
    assert_eq!(decoded.dimensions(), (1, 2));
    assert_eq!(decoded.into_raw(), pixels);
}

#[test]
fn buffer_size_mismatch_fails_with_encode() {
    let img = aitex::image_norm::NormalizedImage { width: 2, height: 2, pixels: vec![0u8; 3] };
    match encode_normalized(&img) {
        Err(PipelineError::Encode(_)) => {}
        other => panic!("expected an encode failure, got {:?}", other),
    }
}

#[test]
fn alpha_channel_is_discarded() {
    let rgba = image::RgbaImage::from_raw(1, 1, vec![200u8, 210, 220, 10]).unwrap();
    let mut buf = Vec::new();
    rgba.write_to(&mut std::io::Cursor::new(&mut buf), image::ImageFormat::Png).unwrap();
    let img = normalize(&buf).unwrap();
    assert_eq!(img.pixels, vec![200u8, 210, 220]);
}

#[test]
fn rgba_repack_drops_the_alpha_channel() {
    let rgba = vec![1u8, 2, 3, 4, 5, 6, 7, 8];
    assert_eq!(aitex::image_norm::rgba_to_rgb(&rgba), vec![1u8, 2, 3, 5, 6, 7]);
}

#[test]
fn rgba_repack_drops_a_trailing_incomplete_pixel() {
    let rgba = vec![1u8, 2, 3, 4, 9];
    assert_eq!(aitex::image_norm::rgba_to_rgb(&rgba), vec![1u8, 2, 3]);
    assert_eq!(aitex::image_norm::rgba_to_rgb(&Vec::new()), Vec::<u8>::new());
}
