use rusty_pi::mime::detect_image_mime_type;

#[test]
fn detect_jpeg() {
    let bytes = [0xFF, 0xD8, 0xFF, 0xE0, 0x00];
    assert_eq!(detect_image_mime_type(&bytes), Some("image/jpeg"));
}

#[test]
fn detect_jpeg_exclude_sof7() {
    let bytes = [0xFF, 0xD8, 0xFF, 0xF7];
    assert_eq!(detect_image_mime_type(&bytes), None);
}

#[test]
fn detect_png() {
    let bytes = [0x89, 0x50, 0x4E, 0x47, 0x0D, 0x0A, 0x1A, 0x0A];
    assert_eq!(detect_image_mime_type(&bytes), Some("image/png"));
}

#[test]
fn detect_gif() {
    let bytes = b"GIF89a...";
    assert_eq!(detect_image_mime_type(bytes), Some("image/gif"));
}

#[test]
fn detect_webp() {
    let mut bytes = Vec::new();
    bytes.extend_from_slice(b"RIFF");
    bytes.extend_from_slice(&[0u8; 4]);
    bytes.extend_from_slice(b"WEBP");
    assert_eq!(detect_image_mime_type(&bytes), Some("image/webp"));
}

#[test]
fn detect_bmp() {
    let bytes = b"BM...";
    assert_eq!(detect_image_mime_type(bytes), Some("image/bmp"));
}

#[test]
fn text_file_is_not_image() {
    let bytes = b"This is a text file.\n";
    assert_eq!(detect_image_mime_type(bytes), None);
}

#[test]
fn empty_bytes_is_not_image() {
    assert_eq!(detect_image_mime_type(b""), None);
}

#[test]
fn short_prefixes_are_not_images() {
    assert_eq!(detect_image_mime_type(&[0xFF, 0xD8]), None);
    assert_eq!(detect_image_mime_type(&[0x89, 0x50, 0x4E, 0x47]), None);
    assert_eq!(detect_image_mime_type(b"RIFF\0\0\0\0WEB"), None);
    assert_eq!(detect_image_mime_type(b"B"), None);
    assert_eq!(detect_image_mime_type(&[0xFF, 0xD8, 0xFF]), Some("image/jpeg"));
}
