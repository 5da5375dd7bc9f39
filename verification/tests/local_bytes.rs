use streaming_http_range_client::local_bytes::LocalBytesClient;

#[test]
fn clamp_range_within_resource_is_unchanged() {
    let client = LocalBytesClient::new(vec![1, 2, 3, 4]);
    let mut range = 1..3;
    client.clamp_range(&mut range);
    assert_eq!(range, 1..3);
}

#[test]
fn clamp_range_past_end() {
    let client = LocalBytesClient::new(vec![1, 2, 3, 4]);
    let mut range = 2..10;
    client.clamp_range(&mut range);
    assert_eq!(range, 2..4);
    let mut range = 7..10;
    client.clamp_range(&mut range);
    assert_eq!(range, 4..4);
}

#[test]
fn clamp_range_from_past_end() {
    let client = LocalBytesClient::new(vec![1, 2, 3]);
    let mut start = 9;
    client.clamp_range_from(&mut start);
    assert_eq!(start, 3);
    let mut start = 1;
    client.clamp_range_from(&mut start);
    assert_eq!(start, 1);
}

#[test]
fn get_byte_range_returns_the_bytes() {
    let client = LocalBytesClient::new((0..8).collect());
    assert_eq!(client.get_byte_range(2..5), vec![2, 3, 4]);
    assert_eq!(client.get_byte_range(6..12), vec![6, 7]);
    assert_eq!(client.get_byte_range(9..12), Vec::<u8>::new());
}

#[test]
fn get_byte_range_from_returns_the_rest() {
    let client = LocalBytesClient::new((0..8).collect());
    assert_eq!(client.get_byte_range_from(5), vec![5, 6, 7]);
    assert_eq!(client.get_byte_range_from(8), Vec::<u8>::new());
    assert_eq!(client.get_byte_range_from(100), Vec::<u8>::new());
}

#[test]
fn adjacent_ranges_concatenate() {
    let client = LocalBytesClient::new((0..8).collect());
    let mut joined = client.get_byte_range(1..4);
    joined.extend(client.get_byte_range(4..10));
    assert_eq!(joined, client.get_byte_range(1..10));
    let mut joined = client.get_byte_range(0..3);
    joined.extend(client.get_byte_range_from(3));
    assert_eq!(joined, client.get_byte_range_from(0));
}
