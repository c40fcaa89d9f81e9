//! Content classification: mapping a sniffed mime type to the media kind the
//! scanner and the artwork sweeper care about.
//!
//! Classification never looks at a file's name or extension; it is a function
//! of the mime type alone, which in turn is sniffed from the file's bytes.

use vstd::prelude::*;
use crate::text::str_eq;

verus! {

/// The media kinds the library recognizes.
#[derive(Clone, Copy, Debug, PartialEq, Eq, Structural)]
pub enum ContentKind {
    Video,
    Image,
}

/// The mime types treated as video content.
pub open spec fn is_video_mime(m: Seq<char>) -> bool {
    ||| m == "video/mp4"@
    ||| m == "video/x-m4v"@
    ||| m == "video/x-matroska"@
    ||| m == "video/webm"@
    ||| m == "video/quicktime"@
    ||| m == "video/x-msvideo"@
    ||| m == "video/x-ms-wmv"@
    ||| m == "video/mpeg"@
    ||| m == "video/x-flv"@
}

/// The mime types treated as managed artwork images.
pub open spec fn is_image_mime(m: Seq<char>) -> bool {
    ||| m == "image/apng"@
    ||| m == "image/avif"@
    ||| m == "image/gif"@
    ||| m == "image/jpeg"@
    ||| m == "image/png"@
    ||| m == "image/svg+xml"@
    ||| m == "image/webp"@
}

/// What classification yields for a sniffed mime type: the kind when the mime
/// is recognized, nothing otherwise. An unsniffable file (`None`) is never
/// classified.
pub open spec fn classification_of(m: Option<Seq<char>>) -> Option<ContentKind> {
    match m {
        None => None,
        Some(s) => if is_video_mime(s) {
            Some(ContentKind::Video)
        } else if is_image_mime(s) {
            Some(ContentKind::Image)
        } else {
            None
        },
    }
}

/// Classifies a sniffed mime type string.
pub fn classify_mime(mime: &str) -> (r: Option<ContentKind>)
    ensures
        r == classification_of(Some(mime@)),
{
    if str_eq(mime, "video/mp4") || str_eq(mime, "video/x-m4v") || str_eq(mime, "video/x-matroska")
        || str_eq(mime, "video/webm") || str_eq(mime, "video/quicktime")
        || str_eq(mime, "video/x-msvideo") || str_eq(mime, "video/x-ms-wmv")
        || str_eq(mime, "video/mpeg") || str_eq(mime, "video/x-flv") {
        Some(ContentKind::Video)
    } else if str_eq(mime, "image/apng") || str_eq(mime, "image/avif") || str_eq(mime, "image/gif")
        || str_eq(mime, "image/jpeg") || str_eq(mime, "image/png")
        || str_eq(mime, "image/svg+xml") || str_eq(mime, "image/webp") {
        Some(ContentKind::Image)
    } else {
        None
    }
}

/// Classifies an optional sniffed mime type, treating an unsniffable file as
/// unclassified.
pub fn classify_sniffed(mime: &Option<String>) -> (r: Option<ContentKind>)
    ensures
        r == classification_of(match *mime {
            Some(ref s) => Some(s@),
            None => None,
        }),
{
    match mime {
        Some(s) => classify_mime(s.as_str()),
        None => None,
    }
}

} // verus!
