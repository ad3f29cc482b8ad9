use oxide::probe::{get_file_size, read_metadata, ResourceMetadata};
use reqwest::header::{HeaderMap, HeaderValue, CONTENT_DISPOSITION, CONTENT_LENGTH};

fn with_length(value: &'static str) -> HeaderMap {
    let mut headers = HeaderMap::new();
    headers.insert(CONTENT_LENGTH, HeaderValue::from_static(value));
    headers
}

#[test]
fn size_is_what_content_length_declares() {
    assert_eq!(get_file_size(&with_length("1024")), Some(1024));
    assert_eq!(get_file_size(&with_length("0")), Some(0));
    assert_eq!(get_file_size(&with_length("18446744073709551615")), Some(u64::MAX));
}

#[test]
fn size_is_unknown_without_content_length() {
    assert_eq!(get_file_size(&HeaderMap::new()), None);
    let mut headers = HeaderMap::new();
    headers.insert(CONTENT_DISPOSITION, HeaderValue::from_static("1024"));
    assert_eq!(get_file_size(&headers), None);
}

#[test]
fn size_is_unknown_where_content_length_is_no_number() {
    assert_eq!(get_file_size(&with_length("")), None);
    assert_eq!(get_file_size(&with_length("12 bytes")), None);
    assert_eq!(get_file_size(&with_length("-5")), None);
    assert_eq!(get_file_size(&with_length("18446744073709551616")), None);
}

#[test]
fn size_is_unknown_where_content_length_holds_hidden_bytes() {
    let mut headers = HeaderMap::new();
    headers.insert(CONTENT_LENGTH, HeaderValue::from_bytes(b"10\xff").unwrap());
    assert_eq!(get_file_size(&headers), None);
}

#[test]
fn header_name_is_found_in_any_case() {
    let mut headers = HeaderMap::new();
    headers.insert("content-length", HeaderValue::from_static("77"));
    assert_eq!(get_file_size(&headers), Some(77));
}

#[test]
fn first_content_length_counts() {
    let mut headers = HeaderMap::new();
    headers.append(CONTENT_LENGTH, HeaderValue::from_static("5"));
    headers.append(CONTENT_LENGTH, HeaderValue::from_static("6"));
    assert_eq!(get_file_size(&headers), Some(5));
}

#[test]
fn metadata_of_a_sized_and_named_resource() {
    let mut headers = with_length("100");
    headers.insert(
        CONTENT_DISPOSITION,
        HeaderValue::from_static("attachment; filename=report.pdf"),
    );
    assert_eq!(
        read_metadata(&headers),
        ResourceMetadata {
            total_size: Some(100),
            supports_ranges: true,
            suggested_name: Some("report.pdf".to_string()),
        }
    );
}

#[test]
fn metadata_of_a_bare_response() {
    assert_eq!(
        read_metadata(&HeaderMap::new()),
        ResourceMetadata { total_size: None, supports_ranges: false, suggested_name: None }
    );
}
