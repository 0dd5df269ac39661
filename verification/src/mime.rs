//! Image type detection from the leading magic bytes of a file.

use vstd::prelude::*;

verus! {

/// The image type that the leading bytes announce: JPEG (`FF D8 FF`, but
/// not the data-less SOF7 form `FF D8 FF F7`), PNG, GIF (`GIF`), WEBP
/// (`RIFF` at 0 and `WEBP` at 8) or BMP (`BM`), checked in that order.
pub open spec fn image_mime(b: Seq<u8>) -> Option<Seq<char>> {
    if b.len() >= 3 && b[0] == 0xFF && b[1] == 0xD8 && b[2] == 0xFF {
        if b.len() >= 4 && b[3] == 0xF7 {
            None
        } else {
            Some("image/jpeg"@)
        }
    } else if b.len() >= 8 && b[0] == 0x89 && b[1] == 0x50 && b[2] == 0x4E && b[3] == 0x47 && b[4]
        == 0x0D && b[5] == 0x0A && b[6] == 0x1A && b[7] == 0x0A {
        Some("image/png"@)
    } else if b.len() >= 3 && b[0] == 0x47 && b[1] == 0x49 && b[2] == 0x46 {
        Some("image/gif"@)
    } else if b.len() >= 12 && b[0] == 0x52 && b[1] == 0x49 && b[2] == 0x46 && b[3] == 0x46 && b[8]
        == 0x57 && b[9] == 0x45 && b[10] == 0x42 && b[11] == 0x50 {
        Some("image/webp"@)
    } else if b.len() >= 2 && b[0] == 0x42 && b[1] == 0x4D {
        Some("image/bmp"@)
    } else {
        None
    }
}

/// Detect a supported image MIME type from raw bytes; `None` when the
/// bytes match no known image format.
pub fn detect_image_mime_type(bytes: &[u8]) -> (r: Option<&'static str>)
    ensures
        match image_mime(bytes@) {
            Some(m) => r matches Some(s) && s@ == m,
            None => r is None,
        },
{
    let n = bytes.len();
    if n >= 3 && bytes[0] == 0xFF && bytes[1] == 0xD8 && bytes[2] == 0xFF {
        if n >= 4 && bytes[3] == 0xF7 {
            return None;
        }
        return Some("image/jpeg");
    }
    if n >= 8 && bytes[0] == 0x89 && bytes[1] == 0x50 && bytes[2] == 0x4E && bytes[3] == 0x47
        && bytes[4] == 0x0D && bytes[5] == 0x0A && bytes[6] == 0x1A && bytes[7] == 0x0A {
        return Some("image/png");
    }
    if n >= 3 && bytes[0] == 0x47 && bytes[1] == 0x49 && bytes[2] == 0x46 {
        return Some("image/gif");
    }
    if n >= 12 && bytes[0] == 0x52 && bytes[1] == 0x49 && bytes[2] == 0x46 && bytes[3] == 0x46
        && bytes[8] == 0x57 && bytes[9] == 0x45 && bytes[10] == 0x42 && bytes[11] == 0x50 {
        return Some("image/webp");
    }
    if n >= 2 && bytes[0] == 0x42 && bytes[1] == 0x4D {
        return Some("image/bmp");
    }
    None
}

} // verus!
