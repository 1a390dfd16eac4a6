//! The dashboard's static files: which file answers a request, and the
//! content type it is served with.

use vstd::prelude::*;
use crate::text::{concat_str, contains_seq, str_contains};

verus! {

/// Which file answers a request for a path.
#[derive(Debug, Clone, Copy, PartialEq, Eq, Structural)]
pub enum AssetChoice {
    /// The file at the path.
    File,
    /// Nothing: the path names a missing asset (`404`).
    NotFound,
    /// The application's `index.html`, for paths the client routes itself.
    Index,
}

/// Whether a path names an asset (it has a `.` in it).
pub open spec fn names_asset(path: Seq<char>) -> bool {
    contains_seq(path, "."@)
}

/// The file that answers a request for `path`: the file itself when it
/// exists, nothing for a missing asset, the application's index otherwise.
pub fn choose_asset(path: &str, exists: bool) -> (c: AssetChoice)
    ensures
        exists ==> c == AssetChoice::File,
        !exists && names_asset(path@) ==> c == AssetChoice::NotFound,
        !exists && !names_asset(path@) ==> c == AssetChoice::Index,
{
    if exists {
        AssetChoice::File
    } else if str_contains(path, ".") {
        AssetChoice::NotFound
    } else {
        AssetChoice::Index
    }
}

/// The message answered for a missing asset.
pub fn asset_not_found(path: &str) -> (s: String)
    ensures
        s@ == "asset "@ + path@ + " not found"@,
{
    let a = concat_str("asset ", path);
    concat_str(a.as_str(), " not found")
}

/// The first media type `mime_guess2::from_path` guesses for `path`, as text.
pub uninterp spec fn mime_guess(path: Seq<char>) -> Option<Seq<char>>;

/// The first guessed media type of a path (`mime_guess2::from_path(..).first()`).
#[verifier::external_body]
fn first_mime(path: &str) -> (r: Option<String>)
    ensures
        match r {
            Some(m) => mime_guess(path@) == Some(m@),
            None => mime_guess(path@) is None,
        },
{
    mime_guess2::from_path(path).first().map(|m| m.to_string())
}

/// The content type a file is served with: guessed from its path for an
/// asset, that of `index.html` otherwise.
pub fn content_type_for(path: &str) -> (r: Option<String>)
    ensures
        match r {
            Some(m) => Some(m@) == if names_asset(path@) {
                mime_guess(path@)
            } else {
                mime_guess("index.html"@)
            },
            None => (if names_asset(path@) {
                mime_guess(path@)
            } else {
                mime_guess("index.html"@)
            }) is None,
        },
{
    if str_contains(path, ".") {
        first_mime(path)
    } else {
        first_mime("index.html")
    }
}

} // verus!
