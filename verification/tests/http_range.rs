use streaming_http_range_client::HttpRange;

#[test]
fn start_and_end_of_bounded_range() {
    let range = HttpRange::Range(3..9);
    assert_eq!(range.start(), 3);
    assert_eq!(range.end(), Some(9));
}

#[test]
fn start_and_end_of_open_range() {
    let range = HttpRange::RangeFrom(5);
    assert_eq!(range.start(), 5);
    assert_eq!(range.end(), None);
}

#[test]
fn with_end_bounds_and_opens() {
    let bounded = HttpRange::RangeFrom(4).with_end(Some(10));
    assert!(matches!(bounded, HttpRange::Range(ref r) if r.start == 4 && r.end == 10));
    let open = HttpRange::Range(4..10).with_end(None);
    assert!(matches!(open, HttpRange::RangeFrom(4)));
}

#[test]
fn with_own_end_gives_the_range_back() {
    let range = HttpRange::Range(2..7);
    let end = range.end();
    let same = range.clone().with_end(end);
    assert_eq!(same.start(), 2);
    assert_eq!(same.end(), Some(7));
}

#[test]
fn split_bounded_range() {
    let mut range = HttpRange::Range(0..7);
    let after = range.split(4);
    assert!(matches!(range, HttpRange::Range(ref r) if r.start == 0 && r.end == 4));
    assert!(matches!(after, HttpRange::Range(ref r) if r.start == 4 && r.end == 7));
}

#[test]
fn split_bounded_range_at_its_end() {
    let mut range = HttpRange::Range(2..6);
    let after = range.split(6);
    assert_eq!(range.end(), Some(6));
    assert_eq!(after.start(), 6);
    assert_eq!(after.end(), Some(6));
}

#[test]
fn split_open_range() {
    let mut range = HttpRange::RangeFrom(1);
    let after = range.split(5);
    assert!(matches!(range, HttpRange::Range(ref r) if r.start == 1 && r.end == 5));
    assert!(matches!(after, HttpRange::RangeFrom(5)));
}

#[test]
fn split_rejoins() {
    let mut range = HttpRange::Range(10..20);
    let after = range.split(15);
    let rejoined = range.with_end(after.end());
    assert_eq!(rejoined.start(), 10);
    assert_eq!(rejoined.end(), Some(20));
}

#[test]
fn from_std_range() {
    let range: HttpRange = (3..8).into();
    assert_eq!(range.start(), 3);
    assert_eq!(range.end(), Some(8));
}
