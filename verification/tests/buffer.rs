use log_indexer::Buffer;

#[test]
fn append_then_drain_returns_all_in_order() {
    let mut buf = Buffer::new();
    buf.append(b"first".to_vec());
    buf.append(b"second".to_vec());
    buf.append(b"third".to_vec());
    assert_eq!(buf.len(), 3);
    let batch = buf.drain_all();
    assert_eq!(
        batch,
        vec![b"first".to_vec(), b"second".to_vec(), b"third".to_vec()]
    );
    assert_eq!(buf.len(), 0);
}

#[test]
fn drain_on_empty_buffer_returns_empty_batch() {
    let mut buf = Buffer::new();
    let batch = buf.drain_all();
    assert_eq!(batch, Vec::<Vec<u8>>::new());
    assert_eq!(buf.len(), 0);
}

#[test]
fn no_message_reaches_two_batches() {
    let mut buf = Buffer::new();
    buf.append(b"a".to_vec());
    let first = buf.drain_all();
    buf.append(b"b".to_vec());
    let second = buf.drain_all();
    assert_eq!(first, vec![b"a".to_vec()]);
    assert_eq!(second, vec![b"b".to_vec()]);
    let third = buf.drain_all();
    assert_eq!(third, Vec::<Vec<u8>>::new());
}
