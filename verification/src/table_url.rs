//! The URLs of tables.
use vstd::prelude::*;

use crate::error::{DeltaResult, Error};
use crate::text::{chars_of, owned};

#[allow(unused_imports)]
use crate::error::ErrorV;

verus! {

/// A URL of the `url` crate.
#[verifier::external_type_specification]
#[verifier::external_body]
pub struct ExUrl(url::Url);

/// The text of a URL.
pub uninterp spec fn url_text(u: url::Url) -> Seq<char>;

/// The path of a URL, percent-encoded.
pub uninterp spec fn url_path(u: url::Url) -> Seq<char>;

/// A URL with its path replaced.
pub uninterp spec fn url_with_path(u: url::Url, path: Seq<char>) -> url::Url;

/// `Clone` of `url::Url`: the same URL.
#[verifier::external_body]
pub(crate) fn copy_url(u: &url::Url) -> (r: url::Url)
    ensures
        r == *u,
{
    u.clone()
}

/// `Url::as_str` of `url`: the text of the URL, by its name.
#[verifier::external_body]
pub(crate) fn text_of_url(u: &url::Url) -> (r: &str)
    ensures
        r@ == url_text(*u),
{
    u.as_str()
}

/// `Url::path` of `url`: a part of the text of the URL, by its name.
#[verifier::external_body]
pub(crate) fn path_of_url(u: &url::Url) -> (r: &str)
    ensures
        r@ == url_path(*u),
        r@.len() <= url_text(*u).len(),
{
    u.path()
}

/// `Url::set_path` of `url`, by the name of its result. The crate counts the bytes of a URL in 32
/// bits and panics when they do not fit. Each character of a path takes at most four bytes, and
/// each byte at most three when it is percent-encoded; a slash or a code for one may come in front.
#[verifier::external_body]
pub(crate) fn set_url_path(u: &mut url::Url, path: &str)
    requires
        path_fits(url_text(*old(u)), path@.len()),
    ensures
        *final(u) == url_with_path(*old(u), path@),
{
    u.set_path(path)
}

/// Whether a URL of the given text can take a path of the given length, whatever its characters.
pub open spec fn path_fits(text: Seq<char>, path_len: nat) -> bool {
    text.len() + 12 * path_len + 16 <= 0xFFFF_FFFF
}

/// The URL that a text stands for, or why it stands for none.
pub uninterp spec fn url_read(text: Seq<char>) -> Result<url::Url, Seq<char>>;

/// `Url::parse` of `url`, by the name of its result. The error is given by its text.
#[verifier::external_body]
pub(crate) fn parse_url(text: &str) -> (r: Result<url::Url, String>)
    ensures
        match r {
            Ok(u) => url_read(text@) == Ok::<url::Url, Seq<char>>(u),
            Err(e) => url_read(text@) == Err::<url::Url, Seq<char>>(e@),
        },
{
    url::Url::parse(text).map_err(|e| e.to_string())
}

/// A URL with an empty segment at the end of its path, where the path has segments.
pub uninterp spec fn url_with_empty_segment(u: url::Url) -> Option<url::Url>;

/// `Url::path_segments_mut` of `url`, and `PathSegmentsMut::push` of an empty segment, by the name
/// of their result. A path that does not end with a slash gets one. The crate counts the bytes of a
/// URL in 32 bits and panics when they do not fit.
#[verifier::external_body]
pub(crate) fn push_empty_segment(u: url::Url) -> (r: Option<url::Url>)
    requires
        url_text(u).len() + 16 <= 0xFFFF_FFFF,
    ensures
        r == url_with_empty_segment(u),
        match r {
            Some(v) => !ends_with_slash(url_path(u)) ==> url_path(v) == url_path(u).push('/'),
            None => true,
        },
{
    let mut u = u;
    match u.path_segments_mut() {
        Ok(mut segments) => {
            segments.push("");
        },
        Err(_) => return None,
    }
    Some(u)
}

/// Whether a path ends with a slash.
pub open spec fn ends_with_slash(path: Seq<char>) -> bool {
    path.len() > 0 && path.last() == '/'
}

/// The URL with a slash at the end of its path, where the path can have one.
pub open spec fn url_as_directory(u: url::Url) -> Option<url::Url> {
    if ends_with_slash(url_path(u)) {
        Some(u)
    } else {
        url_with_empty_segment(u)
    }
}

/// Puts a slash at the end of the path of a URL if there is none.
pub fn with_trailing_slash(u: url::Url) -> (r: DeltaResult<url::Url>)
    requires
        ends_with_slash(url_path(u)) || url_text(u).len() + 16 <= 0xFFFF_FFFF,
    ensures
        match r {
            Ok(v) => url_as_directory(u) == Some(v) && ends_with_slash(url_path(v)),
            Err(e) => url_as_directory(u) is None && e@ == ErrorV::Generic(
                "Cannot modify URL path segments"@,
            ),
        },
{
    if path_ends_with_slash(path_of_url(&u)) {
        return Ok(u);
    }
    match push_empty_segment(u) {
        Some(v) => Ok(v),
        None => Err(Error::Generic(owned("Cannot modify URL path segments"))),
    }
}

/// Whether a path ends with a slash.
pub fn path_ends_with_slash(path: &str) -> (r: bool)
    ensures
        r == ends_with_slash(path@),
{
    let chars = chars_of(path);
    let n: usize = chars.len();
    n > 0 && chars[n - 1] == '/'
}

/// Puts a slash at the end of the path of a URL if there is none, or gives nothing where the URL is
/// too long for that.
pub fn checked_with_trailing_slash(u: url::Url) -> (r: Option<DeltaResult<url::Url>>)
    ensures
        match r {
            Some(Ok(v)) => url_as_directory(u) == Some(v) && ends_with_slash(url_path(v)),
            Some(Err(e)) => url_as_directory(u) is None && e@ == ErrorV::Generic(
                "Cannot modify URL path segments"@,
            ),
            None => !ends_with_slash(url_path(u)) && url_text(u).len() + 16 > 0xFFFF_FFFF,
        },
{
    let n: usize = text_of_url(&u).unicode_len();
    if path_ends_with_slash(path_of_url(&u)) || n as u128 + 16 <= 0xFFFF_FFFF {
        Some(with_trailing_slash(u))
    } else {
        None
    }
}

/// The URL of a directory is the URL itself where its path ends in a slash, and else that with an empty
/// segment behind the path.
pub proof fn law_urls_of_directories(u: url::Url, front: Seq<char>)
    ensures
        url_path(u) == front + seq!['/'] ==> url_as_directory(u) == Some(u),
        url_path(u).len() == 0 || url_path(u).last() != '/' ==> url_as_directory(u)
            == url_with_empty_segment(u),
{
}

} // verus!
