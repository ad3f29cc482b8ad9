//! Reading fields out of a response's header table.
//!
//! The table is `reqwest`'s: the type `http::HeaderMap` that it hands out.
//! What this crate knows of it stands in the few contracts below, which
//! Verus takes on trust; the rest of the crate is proved from them.

use reqwest::header::{HeaderMap, HeaderValue, ToStrError};
use vstd::prelude::*;

verus! {

/// The header table of a response, `http::HeaderMap`. Nothing of its inside
/// is visible here.
#[verifier::external_type_specification]
#[verifier::external_body]
#[verifier::reject_recursive_types(T)]
pub struct ExHeaderMap<T>(reqwest::header::HeaderMap<T>);

/// One header field value, `http::HeaderValue`: a run of bytes.
#[verifier::external_type_specification]
#[verifier::external_body]
pub struct ExHeaderValue(reqwest::header::HeaderValue);

/// The error of `http::HeaderValue::to_str`. It carries nothing.
#[verifier::external_type_specification]
#[verifier::external_body]
pub struct ExToStrError(reqwest::header::ToStrError);

/// The bytes that a header value holds, as `HeaderValue::as_bytes` shows
/// them.
pub uninterp spec fn value_bytes(value: HeaderValue) -> Seq<u8>;

/// The bytes of the value that `HeaderMap::get` finds in `headers` under
/// `name`: the first one stored under that name, if any is.
pub uninterp spec fn first_value_bytes(headers: HeaderMap, name: Seq<char>) -> Option<Seq<u8>>;

/// A byte that `HeaderValue::to_str` lets pass: printable ASCII or a tab.
pub open spec fn is_visible(b: u8) -> bool {
    32 <= b < 127 || b == 9
}

/// Every byte is visible.
pub open spec fn all_visible(bytes: Seq<u8>) -> bool {
    forall|i: int| 0 <= i < bytes.len() ==> is_visible(#[trigger] bytes[i])
}

/// ASCII bytes read as characters.
pub open spec fn ascii_text(bytes: Seq<u8>) -> Seq<char> {
    Seq::new(bytes.len(), |i: int| bytes[i] as char)
}

/// The text of a header value: its bytes as characters where all of them
/// are visible, and none otherwise.
pub open spec fn value_text(raw: Option<Seq<u8>>) -> Option<Seq<char>> {
    match raw {
        Some(bytes) => if all_visible(bytes) {
            Some(ascii_text(bytes))
        } else {
            None
        },
        None => None,
    }
}

/// The text of the first value that `headers` stores under `name`.
pub open spec fn header_text_of(headers: HeaderMap, name: Seq<char>) -> Option<Seq<char>> {
    value_text(first_value_bytes(headers, name))
}

/// Calls `HeaderMap::get` with the name given as text. It returns the first
/// value stored under that name and `None` where there is none; the
/// contract gives the bytes of that value a name and claims no more.
#[verifier::external_body]
fn first_value<'a>(headers: &'a HeaderMap, name: &str) -> (found: Option<&'a HeaderValue>)
    ensures
        match found {
            Some(value) => first_value_bytes(*headers, name@) == Some(value_bytes(*value)),
            None => first_value_bytes(*headers, name@) is None,
        },
{
    headers.get(name)
}

/// `HeaderValue::to_str` scans the value and yields it as text exactly when
/// every byte is printable ASCII or a tab; the text then has those bytes as
/// its characters.
pub assume_specification<'a>[ HeaderValue::to_str ](value: &'a HeaderValue) -> (text: Result<
    &'a str,
    ToStrError,
>)
    ensures
        text is Ok <==> all_visible(value_bytes(*value)),
        text matches Ok(s) ==> s@ == ascii_text(value_bytes(*value)),
;

/// The first value stored under `name`, as text. A value with a byte that
/// is not visible counts as absent.
pub fn header_text<'a>(headers: &'a HeaderMap, name: &str) -> (text: Option<&'a str>)
    ensures
        match text {
            Some(t) => header_text_of(*headers, name@) == Some(t@),
            None => header_text_of(*headers, name@) is None,
        },
{
    match first_value(headers, name) {
        Some(value) => match value.to_str() {
            Ok(text) => Some(text),
            Err(_) => None,
        },
        None => None,
    }
}

} // verus!
