//! Byte-content sniffing, through the `infer` crate.
//!
//! The sniffers are trusted wrappers; everything that is decided from their
//! results is verified elsewhere.

use vstd::prelude::*;
use crate::mime::{ContentKind, classification_of, classify_sniffed};

verus! {

/// The mime type that magic-byte sniffing assigns to a buffer, if any. The
/// result is a function of the bytes alone — no name, extension or location
/// plays a part.
pub uninterp spec fn sniffed_mime(b: Seq<u8>) -> Option<Seq<char>>;

/// Relies on infer::get and infer::Type::mime_type: sniffs the buffer's
/// magic bytes and reports the matched mime type, or nothing when no
/// registered matcher recognizes the bytes.
#[verifier::external_body]
pub(crate) fn sniff_bytes(b: &[u8]) -> (r: Option<String>)
    ensures
        match r {
            Some(s) => sniffed_mime(b@) == Some(s@),
            None => sniffed_mime(b@) == None::<Seq<char>>,
        },
{
    match infer::get(b) {
        Some(k) => Some(k.mime_type().to_string()),
        None => None,
    }
}

/// Relies on infer::get_from_path: reads a bounded prefix of the file's bytes
/// and sniffs them. An unreadable file and an unrecognized one both yield
/// nothing; the result depends on what is on disk, so nothing more is stated.
#[verifier::external_body]
pub(crate) fn sniff_path(path: &str) -> (r: Option<String>)
{
    match infer::get_from_path(path) {
        Ok(Some(k)) => Some(k.mime_type().to_string()),
        Ok(None) => None,
        Err(_) => None,
    }
}

/// Classifies a buffer by its bytes alone: the kind of its sniffed mime type.
pub fn classify_bytes(b: &[u8]) -> (r: Option<ContentKind>)
    ensures
        r == classification_of(sniffed_mime(b@)),
{
    let m = sniff_bytes(b);
    classify_sniffed(&m)
}

} // verus!
