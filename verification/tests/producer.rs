use log_indexer::producer::{
    format_log_line, producer_step, ProducerAction, ProducerEvent, ProducerState,
};

#[test]
fn successful_write_keeps_the_cadence() {
    let (state, action) = producer_step(ProducerState::Connected, ProducerEvent::WriteSucceeded);
    assert_eq!(state, ProducerState::Connected);
    assert_eq!(action, ProducerAction::SendNext);
}

#[test]
fn write_failure_enters_reconnecting() {
    let (state, action) = producer_step(ProducerState::Connected, ProducerEvent::WriteFailed);
    assert_eq!(state, ProducerState::Reconnecting);
    assert_eq!(action, ProducerAction::RetryConnect);
}

#[test]
fn failed_connects_keep_retrying_until_one_succeeds() {
    let (mut state, mut action) =
        producer_step(ProducerState::Connected, ProducerEvent::WriteFailed);
    for _ in 0..5 {
        assert_eq!(state, ProducerState::Reconnecting);
        assert_eq!(action, ProducerAction::RetryConnect);
        let step = producer_step(state, ProducerEvent::ConnectFailed);
        state = step.0;
        action = step.1;
    }
    assert_eq!(state, ProducerState::Reconnecting);
    let (state, action) = producer_step(state, ProducerEvent::ConnectSucceeded);
    assert_eq!(state, ProducerState::Connected);
    assert_eq!(action, ProducerAction::SendNext);
}

#[test]
fn constructed_line_has_the_exact_shape() {
    let line = format_log_line(7);
    assert_eq!(line, b"{\"log_message\": \"Log message 7\"}\n".to_vec());
    let line = format_log_line(120);
    assert_eq!(line, b"{\"log_message\": \"Log message 120\"}\n".to_vec());
    let line = format_log_line(0);
    assert_eq!(line, b"{\"log_message\": \"Log message 0\"}\n".to_vec());
}
