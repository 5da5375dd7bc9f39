use streaming_http_range_client::request::{byte_range_from_header, byte_range_header, check_status};
use streaming_http_range_client::Error;

#[test]
fn range_header_names_the_last_byte() {
    assert_eq!(byte_range_header(&(2..14)), "bytes=2-13");
    assert_eq!(byte_range_header(&(0..1)), "bytes=0-0");
    assert_eq!(byte_range_header(&(1000..20001)), "bytes=1000-20000");
}

#[test]
fn range_header_largest_offsets() {
    assert_eq!(
        byte_range_header(&(u64::MAX - 1..u64::MAX)),
        "bytes=18446744073709551614-18446744073709551614"
    );
}

#[test]
fn range_from_header_is_open() {
    assert_eq!(byte_range_from_header(4), "bytes=4-");
    assert_eq!(byte_range_from_header(0), "bytes=0-");
}

#[test]
fn success_statuses_pass() {
    assert!(check_status(200).is_ok());
    assert!(check_status(206).is_ok());
    assert!(check_status(299).is_ok());
}

#[test]
fn other_statuses_fail() {
    for status in [0u16, 100, 199, 300, 304, 404, 416, 500, 65535] {
        match check_status(status) {
            Err(Error::HttpFailed { status: s }) => assert_eq!(s, status),
            _ => panic!("status {status} should fail"),
        }
    }
}
