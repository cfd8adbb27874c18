use log_indexer::framing::FrameAccumulator;

#[test]
fn two_reads_split_after_second_delimiter() {
    let mut acc = FrameAccumulator::new();
    let first = acc.feed(b"a\nb\n");
    assert_eq!(first, vec![b"a".to_vec(), b"b".to_vec()]);
    let second = acc.feed(b"c");
    assert_eq!(second, Vec::<Vec<u8>>::new());
    acc.finish();
}

#[test]
fn two_reads_split_after_first_delimiter() {
    let mut acc = FrameAccumulator::new();
    let first = acc.feed(b"a\n");
    assert_eq!(first, vec![b"a".to_vec()]);
    let second = acc.feed(b"b\nc");
    assert_eq!(second, vec![b"b".to_vec()]);
    acc.finish();
}

#[test]
fn single_read_keeps_unterminated_tail() {
    let mut acc = FrameAccumulator::new();
    let msgs = acc.feed(b"a\nb\nc");
    assert_eq!(msgs, vec![b"a".to_vec(), b"b".to_vec()]);
    // the unterminated "c" is discarded on end of stream
    acc.finish();
    let after = acc.feed(b"\n");
    assert_eq!(after, Vec::<Vec<u8>>::new());
}

#[test]
fn message_split_across_reads_is_reassembled() {
    let mut acc = FrameAccumulator::new();
    let first = acc.feed(b"hel");
    assert_eq!(first, Vec::<Vec<u8>>::new());
    let second = acc.feed(b"lo\n");
    assert_eq!(second, vec![b"hello".to_vec()]);
}

#[test]
fn empty_lines_carry_no_message() {
    let mut acc = FrameAccumulator::new();
    let msgs = acc.feed(b"\n\nx\n\n");
    assert_eq!(msgs, vec![b"x".to_vec()]);
}

#[test]
fn empty_read_emits_nothing() {
    let mut acc = FrameAccumulator::new();
    let msgs = acc.feed(b"");
    assert_eq!(msgs, Vec::<Vec<u8>>::new());
}

#[test]
fn every_split_point_frames_alike() {
    let stream: &[u8] = b"one\ntwo\nthree\nfour";
    let expected = vec![b"one".to_vec(), b"two".to_vec(), b"three".to_vec()];
    for cut in 0..=stream.len() {
        let mut acc = FrameAccumulator::new();
        let mut msgs = acc.feed(&stream[..cut]);
        msgs.extend(acc.feed(&stream[cut..]));
        assert_eq!(msgs, expected);
    }
}
