//! The file name under which a download is stored.
//!
//! The server's suggestion comes first, then the last segment of the URL,
//! then a digest of the content, and a fixed label where even that is
//! missing.

use crate::headers::{header_text, header_text_of};
use crate::text::{
    chars_of, find, find_segment_start, first_match, last_segment, lemma_first_match_is_least,
    lemma_last_segment_is_last,
};
use crypto_hash::{hex_digest, Algorithm};
use reqwest::header::HeaderMap;
use vstd::prelude::*;
use vstd::string::*;

verus! {

/// What stands before a file name in a `Content-Disposition` value.
pub open spec fn filename_marker() -> Seq<char> {
    "filename="@
}

/// The name kept when nothing else gives one.
pub open spec fn fallback_label() -> Seq<char> {
    "download"@
}

/// The views of an optional text.
pub open spec fn text_view(text: Option<String>) -> Option<Seq<char>> {
    match text {
        Some(t) => Some(t@),
        None => None,
    }
}

/// The file name in a `Content-Disposition` value: all that follows the
/// first `filename=`, as it stands. A value without the marker holds no
/// name.
pub open spec fn disposition_filename(text: Seq<char>) -> Option<Seq<char>> {
    match first_match(text, filename_marker(), 0) {
        Some(at) => Some(text.subrange(at + filename_marker().len(), text.len() as int)),
        None => None,
    }
}

/// The name that a URL gives: its last segment, unless that is empty.
pub open spec fn url_filename(url: Seq<char>) -> Option<Seq<char>> {
    if last_segment(url).len() > 0 {
        Some(last_segment(url))
    } else {
        None
    }
}

/// The name that response and URL suggest: the one of the
/// `Content-Disposition` text where it holds one, else the one of the URL.
pub open spec fn suggested_name(disposition: Option<Seq<char>>, url: Seq<char>) -> Option<
    Seq<char>,
> {
    match disposition {
        Some(text) => match disposition_filename(text) {
            Some(name) => Some(name),
            None => url_filename(url),
        },
        None => url_filename(url),
    }
}

/// The name for content that nothing else names: its digest, or the fixed
/// label where the digest is empty.
pub open spec fn digest_name(digest: Seq<char>) -> Seq<char> {
    if digest.len() > 0 {
        digest
    } else {
        fallback_label()
    }
}

/// The file name of `content` fetched from `url`, where the response held
/// `disposition`: the suggested name, or else the name of its digest.
pub open spec fn resolved_name(
    disposition: Option<Seq<char>>,
    url: Seq<char>,
    content: Seq<u8>,
) -> Seq<char> {
    match suggested_name(disposition, url) {
        Some(suggested) => suggested,
        None => digest_name(md5_hex(content)),
    }
}

/// The MD5 digest of `data` in lower-case hexadecimal, as
/// `crypto_hash::hex_digest` computes it.
pub uninterp spec fn md5_hex(data: Seq<u8>) -> Seq<char>;

/// Calls `crypto_hash::hex_digest` with `Algorithm::MD5`. The digest depends
/// on the bytes alone; the contract gives it a name and claims no more. The
/// call aborts where the system's crypto library offers no MD5.
#[verifier::external_body]
fn content_digest(data: &[u8]) -> (digest: String)
    ensures
        digest@ == md5_hex(data@),
{
    hex_digest(Algorithm::MD5, data)
}

/// The file name that a `Content-Disposition` text holds.
pub fn filename_from_disposition(text: &str) -> (name: Option<String>)
    ensures
        text_view(name) == disposition_filename(text@),
{
    let chars: Vec<char> = chars_of(text);
    let marker: Vec<char> = chars_of("filename=");
    let at: usize = match find(&chars, &marker, 0) {
        Some(at) => at,
        None => {
            return None;
        },
    };
    let length: usize = chars.len();
    proof {
        lemma_first_match_is_least(chars@, marker@, 0);
    }
    let start: usize = at + marker.len();
    Some(String::from_str(text.substring_char(start, length)))
}

/// The last segment of a URL, unless it is empty.
pub fn last_path_segment(url: &str) -> (name: Option<String>)
    ensures
        text_view(name) == url_filename(url@),
{
    let chars: Vec<char> = chars_of(url);
    let start: usize = find_segment_start(&chars);
    proof {
        lemma_last_segment_is_last(chars@);
    }
    if start == chars.len() {
        None
    } else {
        Some(String::from_str(url.substring_char(start, chars.len())))
    }
}

/// The name that a `Content-Disposition` text, where there is one, and the
/// URL suggest.
pub fn name_from(disposition: Option<&str>, url: &str) -> (name: Option<String>)
    ensures
        text_view(name) == suggested_name(
            match disposition {
                Some(text) => Some(text@),
                None => None,
            },
            url@,
        ),
{
    if let Some(text) = disposition {
        if let Some(name) = filename_from_disposition(text) {
            return Some(name);
        }
    }
    last_path_segment(url)
}

/// The name that the response headers and the URL suggest for the download.
pub fn get_download_name(headers: &HeaderMap, url: &str) -> (name: Option<String>)
    ensures
        text_view(name) == suggested_name(header_text_of(*headers, "Content-Disposition"@), url@),
{
    name_from(header_text(headers, "Content-Disposition"), url)
}

/// The name made of a content digest.
pub fn name_from_digest(digest: String) -> (name: String)
    ensures
        name@ == digest_name(digest@),
{
    if digest.as_str().is_empty() {
        String::from_str("download")
    } else {
        digest
    }
}

/// The name under which `content`, fetched from `url` with `headers`, is
/// stored.
pub fn resolve_file_name(headers: &HeaderMap, url: &str, content: &[u8]) -> (name: String)
    ensures
        name@ == resolved_name(header_text_of(*headers, "Content-Disposition"@), url@, content@),
{
    match get_download_name(headers, url) {
        Some(name) => name,
        None => name_from_digest(content_digest(content)),
    }
}

} // verus!
