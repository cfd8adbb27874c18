use log_indexer::buffer::Buffer;
use log_indexer::coordinator::{plan_flush, FlushTrigger};
use log_indexer::handler::{handle_chunk, ingest_messages, DEFAULT_SIZE_THRESHOLD};
use log_indexer::framing::FrameAccumulator;

#[test]
fn timer_on_idle_buffer_plans_no_sink_call() {
    let mut buf = Buffer::new();
    let batch = plan_flush(&mut buf, FlushTrigger::TimerElapsed);
    assert!(batch.is_none());
}

#[test]
fn timer_on_loaded_buffer_plans_exactly_the_contents() {
    let mut buf = Buffer::new();
    buf.append(b"x".to_vec());
    buf.append(b"y".to_vec());
    let batch = plan_flush(&mut buf, FlushTrigger::TimerElapsed);
    assert_eq!(batch, Some(vec![b"x".to_vec(), b"y".to_vec()]));
    assert_eq!(buf.len(), 0);
}

#[test]
fn shutdown_flush_delivers_every_buffered_message() {
    let mut buf = Buffer::new();
    let n = 7;
    for i in 0..n {
        buf.append(format!("line {}", i).into_bytes());
    }
    let batch = plan_flush(&mut buf, FlushTrigger::ShutdownRequested).unwrap();
    assert_eq!(batch.len(), n);
    for i in 0..n {
        assert_eq!(batch[i], format!("line {}", i).into_bytes());
    }
    // nothing is left for a later flush
    assert!(plan_flush(&mut buf, FlushTrigger::ShutdownRequested).is_none());
}

#[test]
fn threshold_inserts_trigger_exactly_one_flush() {
    let mut buf = Buffer::new();
    let msgs: Vec<Vec<u8>> = (0..DEFAULT_SIZE_THRESHOLD)
        .map(|i| format!("m{}", i).into_bytes())
        .collect();
    let batches = ingest_messages(&mut buf, msgs.clone(), DEFAULT_SIZE_THRESHOLD);
    assert_eq!(batches.len(), 1);
    assert_eq!(batches[0], msgs);
    assert_eq!(batches[0].len(), 100);
    assert_eq!(buf.len(), 0);
}

#[test]
fn below_threshold_inserts_trigger_no_flush() {
    let mut buf = Buffer::new();
    let msgs: Vec<Vec<u8>> = (0..DEFAULT_SIZE_THRESHOLD - 1)
        .map(|i| format!("m{}", i).into_bytes())
        .collect();
    let batches = ingest_messages(&mut buf, msgs, DEFAULT_SIZE_THRESHOLD);
    assert!(batches.is_empty());
    assert_eq!(buf.len(), DEFAULT_SIZE_THRESHOLD - 1);
}

#[test]
fn one_chunk_can_trigger_several_flushes() {
    let mut acc = FrameAccumulator::new();
    let mut buf = Buffer::new();
    let batches = handle_chunk(&mut acc, &mut buf, b"a\nb\nc\nd\ne", 2);
    assert_eq!(
        batches,
        vec![
            vec![b"a".to_vec(), b"b".to_vec()],
            vec![b"c".to_vec(), b"d".to_vec()],
        ]
    );
    assert_eq!(buf.len(), 0);
}

#[test]
fn handler_step_appends_without_flushing_below_threshold() {
    let mut acc = FrameAccumulator::new();
    let mut buf = Buffer::new();
    let batches = handle_chunk(&mut acc, &mut buf, b"a\nb\nc", DEFAULT_SIZE_THRESHOLD);
    assert!(batches.is_empty());
    assert_eq!(buf.len(), 2);
    let rest = plan_flush(&mut buf, FlushTrigger::TimerElapsed);
    assert_eq!(rest, Some(vec![b"a".to_vec(), b"b".to_vec()]));
}
