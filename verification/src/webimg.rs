//! Image fetching, decoding and saving, through `reqwest` and `image`.
//!
//! The wrappers are trusted; the choice of extension made from a sniffed
//! format is verified here.

use vstd::prelude::*;

verus! {

#[verifier::external_type_specification]
#[verifier::external_body]
pub struct ExDynamicImage(image::DynamicImage);

/// The image formats a download may be stored as; anything else sniffed from
/// the bytes is a hard failure.
#[derive(Clone, Copy, Debug, PartialEq, Eq, Structural)]
pub enum ImageFormatKind {
    Png,
    Jpeg,
    Gif,
    WebP,
    Other,
}

/// The png signature: the fixed eight bytes every png stream opens with.
pub open spec fn has_png_magic(b: Seq<u8>) -> bool {
    b.len() >= 8 && b[0] == 0x89 && b[1] == 0x50 && b[2] == 0x4e && b[3] == 0x47 && b[4] == 0x0d
        && b[5] == 0x0a && b[6] == 0x1a && b[7] == 0x0a
}

/// The jpeg signature: a start-of-image marker followed by a marker byte.
pub open spec fn has_jpeg_magic(b: Seq<u8>) -> bool {
    b.len() >= 3 && b[0] == 0xff && b[1] == 0xd8 && b[2] == 0xff
}

/// The gif signature: `GIF89a` or `GIF87a`.
pub open spec fn has_gif_magic(b: Seq<u8>) -> bool {
    b.len() >= 6 && b[0] == 0x47 && b[1] == 0x49 && b[2] == 0x46 && b[3] == 0x38 && (b[4] == 0x39
        || b[4] == 0x37) && b[5] == 0x61
}

/// The webp signature: a `RIFF` container whose form type, after the four
/// length bytes, is `WEBP`.
pub open spec fn has_webp_magic(b: Seq<u8>) -> bool {
    b.len() >= 12 && b[0] == 0x52 && b[1] == 0x49 && b[2] == 0x46 && b[3] == 0x46 && b[8] == 0x57
        && b[9] == 0x45 && b[10] == 0x42 && b[11] == 0x50
}

/// The format whose magic bytes open the buffer. The four stored formats
/// head the guesser's table and no two of their signatures share a first
/// byte, so each is matched exactly by its own prefix; every other format,
/// and an unrecognized buffer, is `Other`.
pub open spec fn guessed_format(b: Seq<u8>) -> ImageFormatKind {
    if has_png_magic(b) {
        ImageFormatKind::Png
    } else if has_jpeg_magic(b) {
        ImageFormatKind::Jpeg
    } else if has_gif_magic(b) {
        ImageFormatKind::Gif
    } else if has_webp_magic(b) {
        ImageFormatKind::WebP
    } else {
        ImageFormatKind::Other
    }
}

/// Relies on image::guess_format: first match over its fixed magic-byte
/// table, whose first five rows are exactly the png, jpeg, gif and webp
/// signatures of `guessed_format`; every later row collapses to `Other`, as
/// does an unrecognized buffer.
#[verifier::external_body]
pub(crate) fn guess_format_kind(b: &[u8]) -> (r: ImageFormatKind)
    ensures
        r == guessed_format(b@),
{
    match image::guess_format(b) {
        Ok(image::ImageFormat::Png) => ImageFormatKind::Png,
        Ok(image::ImageFormat::Jpeg) => ImageFormatKind::Jpeg,
        Ok(image::ImageFormat::Gif) => ImageFormatKind::Gif,
        Ok(image::ImageFormat::WebP) => ImageFormatKind::WebP,
        Ok(_) => ImageFormatKind::Other,
        Err(_) => ImageFormatKind::Other,
    }
}

/// Relies on image::load_from_memory: decodes the buffer into pixels, or
/// reports the decoder's error text.
#[verifier::external_body]
pub(crate) fn decode_image(b: &[u8]) -> (r: Result<image::DynamicImage, String>) {
    match image::load_from_memory(b) {
        Ok(img) => Ok(img),
        Err(e) => Err(e.to_string()),
    }
}

/// Relies on image::DynamicImage::save: re-encodes the image to the path,
/// choosing the codec by the path's extension. Writes to disk, so nothing is
/// stated of the outcome.
#[verifier::external_body]
pub(crate) fn save_image(img: &image::DynamicImage, path: &str) -> (r: Result<(), String>) {
    match img.save(path) {
        Ok(()) => Ok(()),
        Err(e) => Err(e.to_string()),
    }
}

/// Relies on reqwest::blocking::get and Response::bytes: fetches the URL and
/// hands back the response body. Talks to the network, so nothing is stated
/// of the outcome. The blocking client panics when invoked from within an
/// async runtime; this library is synchronous throughout, and a caller
/// embedding it in one must keep this call off the runtime's threads.
#[verifier::external_body]
pub(crate) fn http_get_bytes(url: &str) -> (r: Result<Vec<u8>, String>) {
    match reqwest::blocking::get(url) {
        Ok(resp) => match resp.bytes() {
            Ok(b) => Ok(b.to_vec()),
            Err(e) => Err(e.to_string()),
        },
        Err(e) => Err(e.to_string()),
    }
}

/// The stored extension for each sniffed format.
pub open spec fn ext_of_format(k: ImageFormatKind) -> Option<Seq<char>> {
    match k {
        ImageFormatKind::Png => Some("png"@),
        ImageFormatKind::Jpeg => Some("jpg"@),
        ImageFormatKind::Gif => Some("gif"@),
        ImageFormatKind::WebP => Some("webp"@),
        ImageFormatKind::Other => None,
    }
}

/// The extension a sniffed format is stored under, or nothing for a format
/// the library does not store.
pub fn ext_for_format(k: ImageFormatKind) -> (r: Option<&'static str>)
    ensures
        match r {
            Some(s) => ext_of_format(k) == Some(s@),
            None => ext_of_format(k) == None::<Seq<char>>,
        },
{
    match k {
        ImageFormatKind::Png => Some("png"),
        ImageFormatKind::Jpeg => Some("jpg"),
        ImageFormatKind::Gif => Some("gif"),
        ImageFormatKind::WebP => Some("webp"),
        ImageFormatKind::Other => None,
    }
}

/// The extension a downloaded buffer would be stored under: decided by
/// sniffing the bytes, never by the source's name or a declared type.
pub fn image_extension_for(b: &[u8]) -> (r: Option<String>)
    ensures
        match r {
            Some(s) => ext_of_format(guessed_format(b@)) == Some(s@),
            None => ext_of_format(guessed_format(b@)) == None::<Seq<char>>,
        },
{
    match ext_for_format(guess_format_kind(b)) {
        Some(s) => Some(s.to_owned()),
        None => None,
    }
}

} // verus!
