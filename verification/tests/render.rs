use log_indexer::render::{render_batch, render_batch_now, render_doc};

#[test]
fn one_document_has_the_exact_shape() {
    let out = render_doc(&b"hello".to_vec(), 1234);
    assert_eq!(out, b"{\"log_message\": \"hello\", \"timestamp\": 1234}".to_vec());
}

#[test]
fn zero_and_negative_timestamps_render_signed_decimal() {
    let zero = render_doc(&b"m".to_vec(), 0);
    assert_eq!(zero, b"{\"log_message\": \"m\", \"timestamp\": 0}".to_vec());
    let negative = render_doc(&b"m".to_vec(), -45);
    assert_eq!(negative, b"{\"log_message\": \"m\", \"timestamp\": -45}".to_vec());
    let extreme = render_doc(&b"m".to_vec(), i64::MIN);
    assert_eq!(
        extreme,
        b"{\"log_message\": \"m\", \"timestamp\": -9223372036854775808}".to_vec()
    );
}

#[test]
fn batch_documents_are_joined_by_single_newlines() {
    let batch = vec![b"one".to_vec(), b"two".to_vec()];
    let out = render_batch(&batch, 99);
    let expected = b"{\"log_message\": \"one\", \"timestamp\": 99}\n\
                     {\"log_message\": \"two\", \"timestamp\": 99}"
        .to_vec();
    assert_eq!(out, expected);
}

#[test]
fn empty_batch_renders_to_nothing() {
    let out = render_batch(&Vec::new(), 5);
    assert_eq!(out, Vec::<u8>::new());
}

#[test]
fn clocked_rendering_matches_its_reported_timestamp() {
    let batch = vec![b"a".to_vec(), b"b".to_vec()];
    let (out, ts) = render_batch_now(&batch);
    assert_eq!(out, render_batch(&batch, ts));
    // the reading is epoch milliseconds of a present-day clock
    assert!(ts > 0);
}
