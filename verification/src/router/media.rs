//! Serving decrypted media files: which paths are refused and which content
//! type a file is served with.

use crate::text::{ascii_lower, contains_seq};
use vstd::prelude::*;

verus! {

broadcast use vstd::string::group_string_axioms;

/// A requested path that could leave the media directory: it holds `..`.
pub fn is_forbidden_media_path(rel: &str) -> (r: bool)
    ensures
        r == contains_seq(rel@, ".."@),
{
    crate::text::contains(rel, "..")
}

/// The content type of a media file by its extension, ignoring ASCII case.
pub open spec fn mime_for(ext: Seq<char>) -> Seq<char> {
    let e = ascii_lower(ext);
    if e == "jpeg"@ || e == "jpg"@ {
        "image/jpeg"@
    } else if e == "png"@ {
        "image/png"@
    } else if e == "mp4"@ {
        "video/mp4"@
    } else if e == "gif"@ {
        "image/gif"@
    } else {
        "application/octet-stream"@
    }
}

/// The content type of a media file with extension `ext`.
pub fn media_mime_type(ext: &str) -> (r: &'static str)
    ensures
        r@ == mime_for(ext@),
{
    let l = crate::text::to_ascii_lowercase_chars(ext);
    if crate::text::chars_eq_str(&l, "jpeg") || crate::text::chars_eq_str(&l, "jpg") {
        "image/jpeg"
    } else if crate::text::chars_eq_str(&l, "png") {
        "image/png"
    } else if crate::text::chars_eq_str(&l, "mp4") {
        "video/mp4"
    } else if crate::text::chars_eq_str(&l, "gif") {
        "image/gif"
    } else {
        "application/octet-stream"
    }
}

} // verus!
