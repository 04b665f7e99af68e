use client_test_server::header_range::{HeaderRange, RangeParseError};
use client_test_server::response::{
    content_range_text, respond, respond_to_request, ResponseError, ResponsePlan, Status,
};
use client_test_server::window::{
    get_file_size, serve_window, ServeWindow, WindowError, MAX_CHUNK_SIZE,
};
use hyper::header::{
    HeaderValue, ACCEPT_RANGES, CONTENT_LENGTH, CONTENT_RANGE, CONTENT_TYPE, HOST, RANGE,
};
use hyper::HeaderMap;

fn range(text: &str) -> HeaderRange {
    HeaderRange::parse(text).unwrap()
}

fn request(range: &'static str) -> HeaderMap {
    let mut headers = HeaderMap::new();
    headers.insert(HOST, HeaderValue::from_static("localhost:1337"));
    headers.insert(RANGE, HeaderValue::from_static(range));
    headers
}

fn header<'a>(plan: &'a ResponsePlan, name: &hyper::header::HeaderName) -> &'a str {
    let mut values = plan.headers.get_all(name).iter();
    let value = values.next().unwrap();
    assert!(values.next().is_none());
    value.to_str().unwrap()
}

#[test]
fn chunk_size_is_a_million_bytes() {
    assert_eq!(MAX_CHUNK_SIZE, 1_000_000);
}

#[test]
fn window_from_the_first_byte() {
    for size in [1u64, 2, 499, 999_999, 1_000_000, 1_000_001, 2_500_000, u64::MAX] {
        let window = serve_window(&range("bytes=0-"), size).unwrap();
        let end = std::cmp::min(999_999, size - 1);
        assert_eq!(window, ServeWindow { start: 0, end, total_size: size });
        assert_eq!(window.content_length(), std::cmp::min(1_000_000, size));
    }
}

#[test]
fn window_holds_at_most_one_chunk() {
    let window = serve_window(&range("bytes=1500000-"), 10_000_000).unwrap();
    assert_eq!(window, ServeWindow { start: 1_500_000, end: 2_499_999, total_size: 10_000_000 });
    assert_eq!(window.content_length(), 1_000_000);
}

#[test]
fn window_stops_at_the_end_of_the_resource() {
    let window = serve_window(&range("bytes=2000000-"), 2_500_000).unwrap();
    assert_eq!(window, ServeWindow { start: 2_000_000, end: 2_499_999, total_size: 2_500_000 });
    assert_eq!(window.content_length(), 500_000);
    let window = serve_window(&range("bytes=499-"), 500).unwrap();
    assert_eq!(window, ServeWindow { start: 499, end: 499, total_size: 500 });
    assert_eq!(window.content_length(), 1);
}

#[test]
fn window_takes_no_notice_of_the_requested_end() {
    let window = serve_window(&range("bytes=0-10"), 500_000).unwrap();
    assert_eq!(window, ServeWindow { start: 0, end: 499_999, total_size: 500_000 });
    let window = serve_window(&range("bytes=100-5000000"), 3_000_000).unwrap();
    assert_eq!(window, ServeWindow { start: 100, end: 1_000_099, total_size: 3_000_000 });
}

#[test]
fn window_near_the_largest_offset() {
    let window = serve_window(&range("bytes=18446744073709551000-"), u64::MAX).unwrap();
    assert_eq!(
        window,
        ServeWindow { start: 18446744073709551000, end: u64::MAX - 1, total_size: u64::MAX }
    );
    assert_eq!(window.content_length(), 615);
}

#[test]
fn start_behind_the_end_cannot_be_satisfied() {
    assert_eq!(serve_window(&range("bytes=500-"), 500), Err(WindowError::RangeNotSatisfiable));
    assert_eq!(serve_window(&range("bytes=501-600"), 500), Err(WindowError::RangeNotSatisfiable));
    assert_eq!(
        serve_window(&range("bytes=18446744073709551615-"), u64::MAX),
        Err(WindowError::RangeNotSatisfiable)
    );
}

#[test]
fn empty_resource_cannot_be_satisfied() {
    assert_eq!(serve_window(&range("bytes=0-"), 0), Err(WindowError::RangeNotSatisfiable));
    assert_eq!(serve_window(&range("bytes=-5"), 0), Err(WindowError::RangeNotSatisfiable));
}

#[test]
fn other_units_are_not_supported() {
    assert_eq!(serve_window(&range("items=0-5"), 500), Err(WindowError::UnsupportedRangeUnit));
    assert_eq!(serve_window(&range("Bytes=0-5"), 500), Err(WindowError::UnsupportedRangeUnit));
    assert_eq!(serve_window(&range("items=900-"), 500), Err(WindowError::UnsupportedRangeUnit));
}

#[test]
fn content_range_names_window_and_size() {
    let window = ServeWindow { start: 2_000_000, end: 2_499_999, total_size: 2_500_000 };
    assert_eq!(content_range_text(&window), "bytes 2000000-2499999/2500000");
    let window = ServeWindow { start: 0, end: 0, total_size: 1 };
    assert_eq!(content_range_text(&window), "bytes 0-0/1");
}

#[test]
fn seek_into_a_large_resource() {
    let plan = respond_to_request(&request("bytes=2000000-"), "video/mp4", 2_500_000).unwrap();
    assert_eq!(plan.status, Status::PartialContent);
    assert_eq!(plan.status.code(), 206);
    assert_eq!(header(&plan, &CONTENT_RANGE), "bytes 2000000-2499999/2500000");
    assert_eq!(header(&plan, &CONTENT_LENGTH), "500000");
    assert_eq!(header(&plan, &ACCEPT_RANGES), "bytes");
    assert_eq!(header(&plan, &CONTENT_TYPE), "video/mp4");
    assert_eq!(plan.headers.len(), 4);
    assert_eq!(
        plan.window,
        Some(ServeWindow { start: 2_000_000, end: 2_499_999, total_size: 2_500_000 })
    );
}

#[test]
fn whole_of_a_small_resource_by_range() {
    let plan = respond_to_request(&request("bytes=0-"), "video/mp4", 500_000).unwrap();
    assert_eq!(plan.status.code(), 206);
    assert_eq!(header(&plan, &CONTENT_RANGE), "bytes 0-499999/500000");
    assert_eq!(header(&plan, &CONTENT_LENGTH), "500000");
    assert_eq!(plan.window, Some(ServeWindow { start: 0, end: 499_999, total_size: 500_000 }));
}

#[test]
fn request_without_range_gets_the_whole_resource() {
    let mut headers = HeaderMap::new();
    headers.insert(HOST, HeaderValue::from_static("localhost:1337"));
    let plan = respond_to_request(&headers, "text/html; charset=utf-8", 2_500_000).unwrap();
    assert_eq!(plan.status, Status::Success);
    assert_eq!(plan.status.code(), 200);
    assert_eq!(plan.window, None);
    assert_eq!(header(&plan, &CONTENT_TYPE), "text/html; charset=utf-8");
    assert!(plan.headers.get(CONTENT_RANGE).is_none());
    assert!(plan.headers.get(ACCEPT_RANGES).is_none());
    assert!(plan.headers.get(CONTENT_LENGTH).is_none());
    assert_eq!(plan.headers.len(), 1);

    let plan = respond_to_request(&HeaderMap::new(), "video/mp4", 0).unwrap();
    assert_eq!(plan.status.code(), 200);
    assert_eq!(plan.headers.len(), 1);
}

#[test]
fn first_of_several_range_headers_counts() {
    let mut headers = HeaderMap::new();
    headers.append(RANGE, HeaderValue::from_static("bytes=10-"));
    headers.append(RANGE, HeaderValue::from_static("bytes=20-"));
    let plan = respond_to_request(&headers, "video/mp4", 100).unwrap();
    assert_eq!(header(&plan, &CONTENT_RANGE), "bytes 10-99/100");
}

#[test]
fn malformed_range_is_a_bad_request() {
    let error = respond_to_request(&request("bytes=5-3"), "video/mp4", 500).unwrap_err();
    assert_eq!(error, ResponseError::Range(RangeParseError::EndBeforeStart));
    assert_eq!(error.status(), Status::BadRequest);
    assert_eq!(error.status().code(), 400);
    let error = respond_to_request(&request("bytes=1-2,3-4"), "video/mp4", 500).unwrap_err();
    assert_eq!(error, ResponseError::Range(RangeParseError::MultipleRangesUnsupported));
    let error = respond_to_request(&request("bytes"), "video/mp4", 500).unwrap_err();
    assert_eq!(error, ResponseError::Range(RangeParseError::MalformedSeparator));
}

#[test]
fn opaque_range_is_a_bad_request() {
    let mut headers = HeaderMap::new();
    headers.insert(RANGE, HeaderValue::from_bytes(b"bytes=0-\xff").unwrap());
    let error = respond_to_request(&headers, "video/mp4", 500).unwrap_err();
    assert_eq!(error, ResponseError::Range(RangeParseError::NotVisibleAscii));
    assert_eq!(error.status().code(), 400);
}

#[test]
fn range_in_other_units_is_a_bad_request() {
    let error = respond_to_request(&request("items=0-5"), "video/mp4", 500).unwrap_err();
    assert_eq!(error, ResponseError::UnsupportedRangeUnit);
    assert_eq!(error.status().code(), 400);
}

#[test]
fn range_behind_the_end_is_not_satisfiable() {
    let error = respond_to_request(&request("bytes=500-"), "video/mp4", 500).unwrap_err();
    assert_eq!(error, ResponseError::RangeNotSatisfiable);
    assert_eq!(error.status(), Status::RangeNotSatisfiable);
    assert_eq!(error.status().code(), 416);
    let error = respond_to_request(&request("bytes=0-"), "video/mp4", 0).unwrap_err();
    assert_eq!(error, ResponseError::RangeNotSatisfiable);
}

#[test]
fn content_type_must_fit_a_header() {
    let error = respond_to_request(&request("bytes=0-"), "text/\nplain", 500).unwrap_err();
    assert_eq!(error, ResponseError::InvalidContentType);
    assert_eq!(error.status().code(), 500);
    let error = respond_to_request(&request("bytes=5-3"), "text/\u{7f}", 500).unwrap_err();
    assert_eq!(error, ResponseError::InvalidContentType);
    let error = respond(None, "\u{0}", 500).unwrap_err();
    assert_eq!(error, ResponseError::InvalidContentType);
}

#[test]
fn content_type_may_hold_other_than_ascii() {
    let plan = respond(None, "text/plain; title=\"caf\u{e9}\"\t", 500).unwrap();
    let value = plan.headers.get(CONTENT_TYPE).unwrap();
    assert_eq!(value.as_bytes(), "text/plain; title=\"caf\u{e9}\"\t".as_bytes());
}

#[test]
fn response_to_a_parsed_range() {
    let plan = respond(Some(&range("bytes=100-")), "video/mp4", 1_500_000).unwrap();
    assert_eq!(plan.status.code(), 206);
    assert_eq!(header(&plan, &CONTENT_RANGE), "bytes 100-1000099/1500000");
    assert_eq!(header(&plan, &CONTENT_LENGTH), "1000000");
    assert_eq!(header(&plan, &ACCEPT_RANGES), "bytes");
    assert_eq!(header(&plan, &CONTENT_TYPE), "video/mp4");
    let plan = respond(None, "video/mp4", 1_500_000).unwrap();
    assert_eq!(plan.status.code(), 200);
    assert_eq!(plan.window, None);
    assert_eq!(
        respond(Some(&range("bytes=1500000-")), "video/mp4", 1_500_000).unwrap_err(),
        ResponseError::RangeNotSatisfiable
    );
    assert_eq!(
        respond(Some(&range("pages=1-")), "video/mp4", 1_500_000).unwrap_err(),
        ResponseError::UnsupportedRangeUnit
    );
}

#[test]
fn same_request_same_response() {
    let first = respond_to_request(&request("bytes=2000000-"), "video/mp4", 2_500_000).unwrap();
    let second = respond_to_request(&request("bytes=2000000-"), "video/mp4", 2_500_000).unwrap();
    assert_eq!(first.status, second.status);
    assert_eq!(first.headers, second.headers);
    assert_eq!(first.window, second.window);
}

#[test]
fn every_status_has_its_code() {
    assert_eq!(Status::Success.code(), 200);
    assert_eq!(Status::PartialContent.code(), 206);
    assert_eq!(Status::BadRequest.code(), 400);
    assert_eq!(Status::NotFound.code(), 404);
    assert_eq!(Status::RangeNotSatisfiable.code(), 416);
    assert_eq!(Status::InternalServerError.code(), 500);
}

#[test]
fn size_of_a_file() {
    assert_eq!(get_file_size(Some(2_500_000)), 2_500_000);
    assert_eq!(get_file_size(Some(0)), 0);
    assert_eq!(get_file_size(None), 0);
}
