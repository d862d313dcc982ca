//! The image source shown for an attachment: the server's thumbnail once
//! the upload is confirmed, the local bytes inline before that.

use vstd::prelude::*;
use base64::Engine;
use crate::attachment::AttachmentEntry;

verus! {

/// Where the server serves stored media.
pub const MEDIA_ROOT: &'static str = "http://127.0.0.1:8081/";

/// Suffix of a stored picture, and of its thumbnail.
pub const PICTURE_SUFFIX: &'static str = ".jpg";
pub const THUMBNAIL_SUFFIX: &'static str = "_thumb.jpg";

/// What the standard padded base64 alphabet writes for `b`.
pub uninterp spec fn base64_of(b: Seq<u8>) -> Seq<char>;

/// `s` with every occurrence of `from` replaced by `to`, left to right.
pub uninterp spec fn replaced(s: Seq<char>, from: Seq<char>, to: Seq<char>) -> Seq<char>;

/// Relies on base64's `general_purpose::STANDARD.encode`: padded base64,
/// four characters for every started group of three bytes. It panics only
/// when that length overflows `usize`, which the bound excludes.
#[verifier::external_body]
fn base64_encode(b: &[u8]) -> (r: String)
    requires
        b@.len() <= usize::MAX / 2,
    ensures
        r@ == base64_of(b@),
        r@.len() == 4 * ((b@.len() + 2) / 3),
{
    base64::engine::general_purpose::STANDARD.encode(b)
}

/// Relies on `str::replace`, which replaces every match of `from` by `to`.
#[verifier::external_body]
fn replace_all(s: &str, from: &str, to: &str) -> (r: String)
    ensures
        r@ == replaced(s@, from@, to@),
{
    s.replace(from, to)
}

/// An inline image: the MIME type and the base64 text of its bytes.
pub fn data_url(mime: &str, encoded: &str) -> (r: String)
    ensures
        r@ == "data:"@ + mime@ + ";base64,"@ + encoded@,
{
    String::from_str("data:").concat(mime).concat(";base64,").concat(encoded)
}

/// The URL of a stored file, from its path on the server.
pub fn media_url(path: &str) -> (r: String)
    ensures
        r@ == MEDIA_ROOT@ + path@,
{
    String::from_str(MEDIA_ROOT).concat(path)
}

/// The image source of an entry: none while its bytes are being read; the
/// thumbnail of the stored file once uploaded; else the bytes inline
/// (none for bytes too many to encode).
pub fn preview_source(e: &AttachmentEntry) -> (r: Option<String>)
    ensures
        match e.bytes {
            None => r is None,
            Some(b) => match e.remote_path {
                Some(p) => r matches Some(u) && u@ == MEDIA_ROOT@ + replaced(p@, PICTURE_SUFFIX@, THUMBNAIL_SUFFIX@),
                None => if b@.len() <= usize::MAX / 2 {
                    r matches Some(u) && u@ == "data:"@ + e.mime@ + ";base64,"@ + base64_of(b@)
                } else {
                    r is None
                },
            },
        },
{
    match &e.bytes {
        None => None,
        Some(b) => match &e.remote_path {
            Some(p) => {
                let thumb = replace_all(p.as_str(), PICTURE_SUFFIX, THUMBNAIL_SUFFIX);
                Some(media_url(thumb.as_str()))
            },
            None => {
                if b.len() <= usize::MAX / 2 {
                    let encoded = base64_encode(b.as_slice());
                    Some(data_url(e.mime.as_str(), encoded.as_str()))
                } else {
                    None
                }
            },
        },
    }
}

} // verus!
