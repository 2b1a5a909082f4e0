//! Photos exported from Apple Photos.
//!
//! The export script writes the originals of the first `limit` media items
//! (of one album, or of the whole library) into a fixed directory; the
//! files found there afterwards are what the import uploads.

use crate::text::{decimal, decimal_string, escape_quotes, escape_quotes_exec, owned, push_str};
use vstd::prelude::*;

verus! {

/// The directory into which Photos.app exports the originals.
pub open spec fn export_dir() -> Seq<char> {
    "/tmp/folddb_photos"@
}

/// The directory into which Photos.app exports the originals.
pub fn export_dir_str() -> (s: &'static str)
    ensures
        s@ == export_dir(),
{
    "/tmp/folddb_photos"
}

/// Literal part of the Photos script.
pub open spec fn album_head() -> Seq<char> {
    r#"set targetAlbum to album ""#@
}

/// Literal part of the Photos script.
pub open spec fn album_tail() -> Seq<char> {
    r#""
    set allItems to every media item of targetAlbum"#@
}

/// Literal part of the Photos script.
pub open spec fn photos_head() -> Seq<char> {
    r#"tell application "Photos"
    "#@
}

/// Literal part of the Photos script.
pub open spec fn photos_mid() -> Seq<char> {
    r#"
    set totalCount to count of allItems
    if totalCount is 0 then return
    set maxItems to "#@
}

/// Literal part of the Photos script.
pub open spec fn photos_mid2() -> Seq<char> {
    r#"
    if totalCount < maxItems then set maxItems to totalCount
    set exportItems to items 1 thru maxItems of allItems
    export exportItems to POSIX file ""#@
}

/// Literal part of the Photos script.
pub open spec fn photos_tail() -> Seq<char> {
    r#"" with using originals
end tell"#@
}

/// The lines that select the media items: those of the album named
/// `album`, or of the whole library.
pub open spec fn target_items(album: Option<Seq<char>>) -> Seq<char> {
    match album {
        Some(name) => album_head() + escape_quotes(name) + album_tail(),
        None => "set allItems to every media item"@,
    }
}

/// The Photos export script.
pub open spec fn photos_script(album: Option<Seq<char>>, limit: nat) -> Seq<char> {
    photos_head() + target_items(album) + photos_mid() + decimal(limit) + photos_mid2()
        + export_dir() + photos_tail()
}

/// The AppleScript that exports at most `limit` originals of the album
/// named `album` (or of the whole library) into [`export_dir_str`].
pub fn build_script(album: Option<&str>, limit: usize) -> (s: String)
    ensures
        s@ == photos_script(
            match album {
                Some(n) => Some(n@),
                None => None,
            },
            limit as nat,
        ),
{
    let mut s = owned(photos_head_str());
    match album {
        Some(name) => {
            let escaped = escape_quotes_exec(name);
            push_str(&mut s, album_head_str());
            push_str(&mut s, escaped.as_str());
            push_str(&mut s, album_tail_str());
        },
        None => {
            push_str(&mut s, "set allItems to every media item");
        },
    }
    push_str(&mut s, photos_mid_str());
    let digits = decimal_string(limit as u64);
    push_str(&mut s, digits.as_str());
    push_str(&mut s, photos_mid2_str());
    push_str(&mut s, export_dir_str());
    push_str(&mut s, photos_tail_str());
    s
}

fn album_head_str() -> (s: &'static str)
    ensures
        s@ == album_head(),
{
    r#"set targetAlbum to album ""#
}

fn album_tail_str() -> (s: &'static str)
    ensures
        s@ == album_tail(),
{
    r#""
    set allItems to every media item of targetAlbum"#
}

fn photos_head_str() -> (s: &'static str)
    ensures
        s@ == photos_head(),
{
    r#"tell application "Photos"
    "#
}

fn photos_mid_str() -> (s: &'static str)
    ensures
        s@ == photos_mid(),
{
    r#"
    set totalCount to count of allItems
    if totalCount is 0 then return
    set maxItems to "#
}

fn photos_mid2_str() -> (s: &'static str)
    ensures
        s@ == photos_mid2(),
{
    r#"
    if totalCount < maxItems then set maxItems to totalCount
    set exportItems to items 1 thru maxItems of allItems
    export exportItems to POSIX file ""#
}

fn photos_tail_str() -> (s: &'static str)
    ensures
        s@ == photos_tail(),
{
    r#"" with using originals
end tell"#
}
} // verus!
