use base64::Engine;
use rzem_ai_inference::inference::flux_pipeline::encode_jpeg_base64;

fn decoded(text: &str) -> Vec<u8> {
    base64::engine::general_purpose::STANDARD.decode(text).unwrap()
}

#[test]
fn preview_is_base64_jpeg() {
    let rgb: Vec<u8> = (0..48u8).collect();
    let preview = encode_jpeg_base64(&rgb, 4, 4, 75).unwrap();
    assert!(preview.starts_with("/9j/"));
    assert_eq!(preview.len() % 4, 0);
    let jpeg = decoded(&preview);
    assert_eq!(&jpeg[..2], &[0xFF, 0xD8]);
    assert_eq!(&jpeg[jpeg.len() - 2..], &[0xFF, 0xD9]);
}

#[test]
fn preview_needs_every_pixel() {
    assert_eq!(encode_jpeg_base64(&[0u8; 11], 2, 2, 75), Err("Failed to create image buffer".to_string()));
    assert_eq!(encode_jpeg_base64(&[], 1, 1, 75), Err("Failed to create image buffer".to_string()));
}

#[test]
fn preview_passes_on_encoder_refusals() {
    let empty = encode_jpeg_base64(&[], 0, 3, 75);
    assert!(empty.is_err());
    assert_ne!(empty, Err("Failed to create image buffer".to_string()));
    let wide = vec![0u8; 3 * 70000];
    let refused = encode_jpeg_base64(&wide, 70000, 1, 75);
    assert!(refused.is_err());
    assert_ne!(refused, Err("Failed to create image buffer".to_string()));
}

#[test]
fn preview_quality_changes_the_file() {
    let rgb: Vec<u8> = (0..192u8).map(|x| x.wrapping_mul(37)).collect();
    let low = encode_jpeg_base64(&rgb, 8, 8, 5).unwrap();
    let high = encode_jpeg_base64(&rgb, 8, 8, 100).unwrap();
    assert_ne!(low, high);
}
