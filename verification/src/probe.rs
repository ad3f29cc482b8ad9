//! What the first response tells about the resource: its size, whether it
//! can be fetched in ranges, and the name the server suggests.

use crate::decimal::{decimal_value, parse_decimal};
use crate::headers::{header_text, header_text_of};
use crate::naming::{disposition_filename, filename_from_disposition, text_view};
use reqwest::header::HeaderMap;
use vstd::prelude::*;

verus! {

/// What one look at the response headers gives.
#[derive(Debug, PartialEq, Eq)]
pub struct ResourceMetadata {
    /// The size that the server declares, if it declares one.
    pub total_size: Option<u64>,
    /// Whether the resource is fetched in ranges: it is where its size is
    /// known.
    pub supports_ranges: bool,
    /// The file name that the server suggests.
    pub suggested_name: Option<String>,
}

/// The size that a `Content-Length` text declares: its decimal number,
/// where it writes one.
pub open spec fn declared_size(text: Option<Seq<char>>) -> Option<u64> {
    match text {
        Some(t) => decimal_value(t),
        None => None,
    }
}

/// The name that a `Content-Disposition` text suggests.
pub open spec fn declared_name(text: Option<Seq<char>>) -> Option<Seq<char>> {
    match text {
        Some(t) => disposition_filename(t),
        None => None,
    }
}

/// The size of the resource as the response declares it. A missing header,
/// or one that is no decimal number, leaves the size unknown.
pub fn get_file_size(headers: &HeaderMap) -> (size: Option<u64>)
    ensures
        size == declared_size(header_text_of(*headers, "Content-Length"@)),
{
    match header_text(headers, "Content-Length") {
        Some(text) => parse_decimal(text),
        None => None,
    }
}

/// Size, range support and suggested name, as the response headers give
/// them.
pub fn read_metadata(headers: &HeaderMap) -> (metadata: ResourceMetadata)
    ensures
        metadata.total_size == declared_size(header_text_of(*headers, "Content-Length"@)),
        metadata.supports_ranges == metadata.total_size is Some,
        text_view(metadata.suggested_name) == declared_name(
            header_text_of(*headers, "Content-Disposition"@),
        ),
{
    let total_size: Option<u64> = get_file_size(headers);
    let suggested_name: Option<String> = match header_text(headers, "Content-Disposition") {
        Some(text) => filename_from_disposition(text),
        None => None,
    };
    ResourceMetadata { total_size, supports_ranges: total_size.is_some(), suggested_name }
}

} // verus!
