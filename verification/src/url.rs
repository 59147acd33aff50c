//! Turning a URL string handed over from JavaScript into an owned URL.

use vstd::prelude::*;
use crate::bytes::copy_bytes;

verus! {

/// How a string's storage is held.
#[derive(Clone, Copy, Debug, PartialEq, Eq, Structural)]
pub enum Tag {
    /// The string was released and must not be read.
    Dead,
    /// A reference-counted string of the JavaScript engine.
    Shared,
    /// A borrowed byte slice.
    Borrowed,
    /// A byte slice that lives as long as the program.
    Static,
    Empty,
}

/// A string handed over from JavaScript: its storage tag and its UTF-8 bytes.
pub struct BunString {
    pub tag: Tag,
    pub bytes: Vec<u8>,
}

/// A URL that owns its text.
pub struct OwnedUrl {
    pub href: Vec<u8>,
}

/// Why a URL could not be made.
#[derive(Clone, Copy, Debug, PartialEq, Eq, Structural)]
pub enum UrlError {
    /// Reading the value from JavaScript threw.
    JsError,
    /// The value was no usable URL string.
    InvalidUrl,
}

/// Makes an owned URL from the `href` that JavaScript gave: a released
/// string is refused, any other is copied.
pub fn url_from_href(href: &BunString) -> (r: Result<OwnedUrl, UrlError>)
    ensures
        href.tag == Tag::Dead ==> r == Err::<OwnedUrl, UrlError>(UrlError::InvalidUrl),
        href.tag != Tag::Dead ==> (r matches Ok(u) && u.href@ == href.bytes@),
{
    if href.tag == Tag::Dead {
        return Err(UrlError::InvalidUrl);
    }
    Ok(OwnedUrl { href: copy_bytes(href.bytes.as_slice()) })
}

/// Makes an owned URL from the result of reading `href` from JavaScript.
pub fn url_from_js_href(href: Result<BunString, UrlError>) -> (r: Result<OwnedUrl, UrlError>)
    ensures
        href is Err ==> r == Err::<OwnedUrl, UrlError>(UrlError::JsError),
        (href matches Ok(s) && s.tag == Tag::Dead) ==> r == Err::<OwnedUrl, UrlError>(UrlError::InvalidUrl),
        href matches Ok(s) ==> (s.tag != Tag::Dead ==> (r matches Ok(u) && u.href@ == s.bytes@)),
{
    match href {
        Ok(s) => url_from_href(&s),
        Err(_) => Err(UrlError::JsError),
    }
}

} // verus!
