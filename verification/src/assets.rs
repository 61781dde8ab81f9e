//! Which bundled asset answers a request path.
//!
//! The path is taken without its leading slashes, the empty path standing
//! for the index page. A path that names no asset falls back to the index
//! page, so that the routes of a single-page frontend load it, unless the
//! path holds a dot and so names a file.

use vstd::prelude::*;
use vstd::string::{StrSliceExecFns, StringExecFns};

verus! {

/// What a text is without its leading slashes.
pub open spec fn without_leading_slashes(path: Seq<char>) -> Seq<char>
    decreases path.len(),
{
    if path.len() > 0 && path[0] == '/' {
        without_leading_slashes(path.skip(1))
    } else {
        path
    }
}

/// The name of the asset that a request path asks for.
pub open spec fn asset_path_of(uri_path: Seq<char>) -> Seq<char> {
    if without_leading_slashes(uri_path).len() == 0 {
        "index.html"@
    } else {
        without_leading_slashes(uri_path)
    }
}

/// The name of the asset to serve in place of a missing one, if any.
pub open spec fn fallback_of(path: Seq<char>) -> Option<Seq<char>> {
    if path.contains('.') {
        None
    } else {
        Some("index.html"@)
    }
}

/// The media type that stands for data of unknown kind.
pub open spec fn octet_stream() -> Seq<char> {
    "application/octet-stream"@
}

/// `mime_guess::from_path` followed by `first_or_octet_stream`, as text: the
/// media type guessed from the extension of the path. A path without any dot
/// has no extension, and for a path without extension the guess is
/// `application/octet-stream`. Of a path with a dot nothing is claimed: what
/// counts as its extension depends on how the platform reads the path.
#[verifier::external_body]
fn guess_mime(path: &str) -> (mime: String)
    ensures
        !path@.contains('.') ==> mime@ == octet_stream(),
{
    mime_guess::from_path(path).first_or_octet_stream().as_ref().to_string()
}

/// The media type under which the asset of the given name is served: the
/// type that is registered for the extension of the name. A name without any
/// dot has no extension and is served as data of unknown kind.
pub fn content_type(path: &str) -> (mime: String)
    ensures
        !path@.contains('.') ==> mime@ == octet_stream(),
{
    guess_mime(path)
}

/// The name of the asset that a request path asks for.
pub fn asset_path(uri_path: &str) -> (path: String)
    ensures
        path@ == asset_path_of(uri_path@),
{
    let n = uri_path.unicode_len();
    let mut k: usize = 0;
    proof {
        assert(uri_path@.skip(0) =~= uri_path@);
    }
    while k < n && uri_path.get_char(k) == '/'
        invariant
            0 <= k <= n,
            n == uri_path@.len(),
            without_leading_slashes(uri_path@) == without_leading_slashes(uri_path@.skip(k as int)),
        decreases n - k,
    {
        proof {
            assert(uri_path@.skip(k as int)[0] == uri_path@[k as int]);
            assert(uri_path@.skip(k as int).skip(1) =~= uri_path@.skip(k + 1));
        }
        k += 1;
    }
    proof {
        if k < n {
            assert(uri_path@.skip(k as int)[0] == uri_path@[k as int]);
        }
        assert(uri_path@.skip(k as int) =~= uri_path@.subrange(k as int, n as int));
    }
    if k == n {
        String::from_str("index.html")
    } else {
        String::from_str(uri_path.substring_char(k, n))
    }
}

/// The name of the asset to serve where `path` names none: the index page,
/// or nothing where the path holds a dot.
pub fn fallback_path(path: &str) -> (r: Option<String>)
    ensures
        crate::event::text_of(r) == fallback_of(path@),
{
    let n = path.unicode_len();
    let mut k: usize = 0;
    while k < n
        invariant
            0 <= k <= n,
            n == path@.len(),
            forall|i: int| 0 <= i < k ==> path@[i] != '.',
        decreases n - k,
    {
        if path.get_char(k) == '.' {
            return None;
        }
        k += 1;
    }
    Some(String::from_str("index.html"))
}

} // verus!
