//! Which image files can go through Anthropic vision.

use crate::text::{to_lowercase, unicode_lowercase, str_eq};
use vstd::prelude::*;

verus! {

/// The media type Anthropic accepts for a lowercase extension `ext`
/// (`image/jpeg`, `image/png`, `image/gif`, `image/webp`), if any.
pub open spec fn media_type_of(ext: Seq<char>) -> Option<Seq<char>> {
    if ext == "jpg"@ || ext == "jpeg"@ {
        Some("image/jpeg"@)
    } else if ext == "png"@ {
        Some("image/png"@)
    } else if ext == "gif"@ {
        Some("image/gif"@)
    } else if ext == "webp"@ {
        Some("image/webp"@)
    } else {
        None
    }
}

/// The media type Anthropic accepts for files with extension `ext`, in
/// any letter case; `None` for anything else.
pub fn media_type_for_extension(ext: &str) -> (r: Option<&'static str>)
    ensures
        r matches Some(t) ==> media_type_of(unicode_lowercase(ext@)) == Some(t@),
        r is None <==> media_type_of(unicode_lowercase(ext@)) is None,
{
    let lower = to_lowercase(ext);
    let l = lower.as_str();
    if str_eq(l, "jpg") || str_eq(l, "jpeg") {
        Some("image/jpeg")
    } else if str_eq(l, "png") {
        Some("image/png")
    } else if str_eq(l, "gif") {
        Some("image/gif")
    } else if str_eq(l, "webp") {
        Some("image/webp")
    } else {
        None
    }
}

/// True if a file with extension `ext` can go through Anthropic vision.
pub fn supports_extension(ext: &str) -> (b: bool)
    ensures
        b <==> media_type_of(unicode_lowercase(ext@)) is Some,
{
    media_type_for_extension(ext).is_some()
}

} // verus!
