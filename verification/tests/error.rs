use streaming_http_range_client::Error;

#[test]
fn http_failed_text() {
    let error = Error::HttpFailed { status: 404 };
    assert_eq!(error.to_string(), "HTTP requests failed with status: 404");
}

#[test]
fn http_failed_text_single_digit() {
    let error = Error::HttpFailed { status: 0 };
    assert_eq!(error.to_string(), "HTTP requests failed with status: 0");
}

#[test]
fn http_failed_text_largest_status() {
    let error = Error::HttpFailed { status: 65535 };
    assert_eq!(error.to_string(), "HTTP requests failed with status: 65535");
}

#[test]
fn io_error_text_is_inner_text() {
    let inner = std::io::Error::new(std::io::ErrorKind::Other, "connection reset");
    let error: Error = inner.into();
    assert!(matches!(error, Error::IO(_)));
    assert_eq!(error.to_string(), "connection reset");
}

#[test]
fn external_error_text_is_inner_text() {
    let error = Error::External(std::io::Error::other("no route to host"));
    assert_eq!(error.to_string(), "no route to host");
}
