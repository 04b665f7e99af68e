use client_test_server::download::{download_port, expected_length, Download, DownloadError};
use client_test_server::response::Status;
use client_test_server::route::{
    choose_content_dir, route, Asset, CONTENT_SEARCH_DEPTH, NOT_FOUND_BODY,
};
use hyper::header::HeaderValue;

#[test]
fn index_page() {
    assert_eq!(
        route("GET", "/"),
        Some(Asset { file_name: "index.html", content_type: "text/html; charset=utf-8" })
    );
}

#[test]
fn video() {
    assert_eq!(route("GET", "/video"), Some(Asset { file_name: "bbb.mp4", content_type: "video/mp4" }));
}

#[test]
fn unknown_path_is_not_found() {
    assert_eq!(route("GET", "/unknown"), None);
    assert_eq!(route("GET", ""), None);
    assert_eq!(route("GET", "/video/"), None);
    assert_eq!(route("GET", "/Video"), None);
    assert_eq!(route("GET", "/index.html"), None);
    assert_eq!(Status::NotFound.code(), 404);
    assert_eq!(NOT_FOUND_BODY, "Not Found");
}

#[test]
fn other_methods_are_not_found() {
    assert_eq!(route("POST", "/"), None);
    assert_eq!(route("HEAD", "/video"), None);
    assert_eq!(route("get", "/"), None);
    assert_eq!(route("", "/"), None);
}

#[test]
fn port_of_a_download() {
    assert_eq!(download_port(None), 80);
    assert_eq!(download_port(Some(8080)), 8080);
    assert_eq!(download_port(Some(0)), 0);
}

#[test]
fn length_that_a_response_announces() {
    assert_eq!(expected_length(None), Ok(0));
    assert_eq!(expected_length(Some(&HeaderValue::from_static("355856562"))), Ok(355_856_562));
    assert_eq!(expected_length(Some(&HeaderValue::from_static("0"))), Ok(0));
    assert_eq!(expected_length(Some(&HeaderValue::from(77u64))), Ok(77));
}

#[test]
fn length_that_is_no_number() {
    let invalid = Err(DownloadError::InvalidContentLength);
    assert_eq!(expected_length(Some(&HeaderValue::from_static(""))), invalid);
    assert_eq!(expected_length(Some(&HeaderValue::from_static("12 "))), invalid);
    assert_eq!(expected_length(Some(&HeaderValue::from_static("-1"))), invalid);
    assert_eq!(expected_length(Some(&HeaderValue::from_static("18446744073709551616"))), invalid);
    assert_eq!(expected_length(Some(&HeaderValue::from_bytes(b"12\xff").unwrap())), invalid);
}

#[test]
fn complete_download() {
    let mut download = Download::begin(10);
    assert_eq!(download, Download { expected: 10, received: 0 });
    assert_eq!(download.finish(), Err(DownloadError::Incomplete));
    assert_eq!(download.receive(4), Ok(()));
    assert_eq!(download.receive(0), Ok(()));
    assert_eq!(download.finish(), Err(DownloadError::Incomplete));
    assert_eq!(download.receive(6), Ok(()));
    assert_eq!(download, Download { expected: 10, received: 10 });
    assert_eq!(download.finish(), Ok(()));
}

#[test]
fn download_that_brings_too_much() {
    let mut download = Download::begin(10);
    assert_eq!(download.receive(11), Ok(()));
    assert_eq!(download.finish(), Err(DownloadError::Incomplete));
}

#[test]
fn download_without_announced_length() {
    let download = Download::begin(0);
    assert_eq!(download.finish(), Ok(()));
}

#[test]
fn download_beyond_what_can_be_counted() {
    let mut download = Download::begin(5);
    assert_eq!(download.receive(u64::MAX), Ok(()));
    assert_eq!(download.receive(1), Err(DownloadError::TooLong));
    assert_eq!(download, Download { expected: 5, received: u64::MAX });
}

#[test]
fn nearest_content_directory_is_chosen() {
    assert_eq!(CONTENT_SEARCH_DEPTH, 3);
    assert_eq!(choose_content_dir(&[true, true, true]), Some(0));
    assert_eq!(choose_content_dir(&[false, true, true]), Some(1));
    assert_eq!(choose_content_dir(&[false, false, true]), Some(2));
    assert_eq!(choose_content_dir(&[true]), Some(0));
}

#[test]
fn content_directory_further_up_is_not_looked_at() {
    assert_eq!(choose_content_dir(&[false, false, false, true]), None);
    assert_eq!(choose_content_dir(&[false, false, false]), None);
    assert_eq!(choose_content_dir(&[false]), None);
    assert_eq!(choose_content_dir(&[]), None);
}
