use playa::mime::{classify_mime, ContentKind};
use playa::sniff::classify_bytes;
use playa::webimg::image_extension_for;

#[test]
fn video_mimes_classify_as_video() {
    let videos = vec![
        "video/mp4",
        "video/x-m4v",
        "video/x-matroska",
        "video/webm",
        "video/quicktime",
        "video/x-msvideo",
        "video/x-ms-wmv",
        "video/mpeg",
        "video/x-flv",
    ];
    for m in videos {
        assert_eq!(classify_mime(m), Some(ContentKind::Video));
    }
}

#[test]
fn image_mimes_classify_as_image() {
    let images = vec![
        "image/apng",
        "image/avif",
        "image/gif",
        "image/jpeg",
        "image/png",
        "image/svg+xml",
        "image/webp",
    ];
    for m in images {
        assert_eq!(classify_mime(m), Some(ContentKind::Image));
    }
}

#[test]
fn other_mimes_are_unclassified() {
    assert_eq!(classify_mime("text/plain"), None);
    assert_eq!(classify_mime("application/pdf"), None);
    assert_eq!(classify_mime(""), None);
    assert_eq!(classify_mime("video/"), None);
    assert_eq!(classify_mime("VIDEO/MP4"), None);
}

fn png_bytes() -> Vec<u8> {
    // The png signature, then arbitrary payload.
    let mut b = vec![0x89u8, 0x50, 0x4E, 0x47, 0x0D, 0x0A, 0x1A, 0x0A];
    b.extend_from_slice(&[0u8; 16]);
    b
}

fn mp4_bytes() -> Vec<u8> {
    // An ftyp box branded isom, then arbitrary payload.
    let mut b = vec![0u8, 0, 0, 24];
    b.extend_from_slice(b"ftypisom");
    b.extend_from_slice(&[0u8; 16]);
    b
}

#[test]
fn classification_reads_bytes_not_names() {
    // The classifier takes only bytes: whatever name or extension the file
    // carries, the same bytes give the same kind.
    assert_eq!(classify_bytes(&png_bytes()), Some(ContentKind::Image));
    assert_eq!(classify_bytes(&mp4_bytes()), Some(ContentKind::Video));
    assert_eq!(classify_bytes(b"hello, not a media file"), None);
    assert_eq!(classify_bytes(&[]), None);
}

#[test]
fn downloaded_extension_comes_from_bytes() {
    assert_eq!(image_extension_for(&png_bytes()), Some("png".to_string()));
    let jpeg = [0xFFu8, 0xD8, 0xFF, 0xE0, 0, 0, 0, 0];
    assert_eq!(image_extension_for(&jpeg), Some("jpg".to_string()));
    let gif = b"GIF89a____";
    assert_eq!(image_extension_for(gif), Some("gif".to_string()));
    let webp = b"RIFF\x10\x00\x00\x00WEBPVP8 ";
    assert_eq!(image_extension_for(webp), Some("webp".to_string()));
    assert_eq!(image_extension_for(b"no image here"), None);
    // A truncated png signature is not a png.
    let cut = [0x89u8, 0x50, 0x4E, 0x47, 0x0D, 0x0A, 0x1A];
    assert_eq!(image_extension_for(&cut), None);
    // A bmp signature is a real format, but not one the library stores.
    assert_eq!(image_extension_for(b"BM______________"), None);
}
