use streaming_http_range_client::pending_chunk::PendingChunk;

#[test]
fn empty_buffer_hands_out_nothing() {
    let mut pending = PendingChunk::new();
    assert!(pending.is_empty());
    assert_eq!(pending.take_up_to(8), None);
}

#[test]
fn small_reader_gets_the_chunk_in_parts() {
    let mut pending = PendingChunk::new();
    pending.store_chunk(vec![1, 2, 3, 4, 5]);
    assert_eq!(pending.take_up_to(2), Some(vec![1, 2]));
    assert!(!pending.is_empty());
    assert_eq!(pending.take_up_to(2), Some(vec![3, 4]));
    assert_eq!(pending.take_up_to(2), Some(vec![5]));
    assert!(pending.is_empty());
    assert_eq!(pending.take_up_to(2), None);
}

#[test]
fn large_reader_gets_the_whole_chunk() {
    let mut pending = PendingChunk::new();
    pending.store_chunk(vec![9, 8, 7]);
    assert_eq!(pending.take_up_to(100), Some(vec![9, 8, 7]));
    assert!(pending.is_empty());
}

#[test]
fn reader_without_room_gets_nothing_and_keeps_the_chunk() {
    let mut pending = PendingChunk::new();
    pending.store_chunk(vec![1, 2]);
    assert_eq!(pending.take_up_to(0), Some(vec![]));
    assert_eq!(pending.take_up_to(5), Some(vec![1, 2]));
}

#[test]
fn reads_over_several_chunks_return_the_chunks_in_order() {
    let mut pending = PendingChunk::new();
    let chunks = [vec![1u8, 2, 3], vec![4], vec![5, 6, 7, 8]];
    let mut next = chunks.iter();
    let mut out = vec![];
    loop {
        if let Some(copied) = pending.take_up_to(2) {
            out.extend(copied);
            continue;
        }
        match next.next() {
            Some(chunk) => pending.store_chunk(chunk.clone()),
            None => break,
        }
    }
    assert_eq!(out, vec![1, 2, 3, 4, 5, 6, 7, 8]);
}
