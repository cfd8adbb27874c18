//! The producer client's behaviour: message construction and the
//! reconnect state machine.
//!
//! On a fixed cadence the client writes one message to its connection.
//! A write failure moves it to `Reconnecting`; it then attempts a new
//! connection with a fixed backoff between attempts, indefinitely, until
//! one succeeds, and resumes the cadence. The message whose write failed
//! is not retried: delivery is at-most-once and best-effort.

use vstd::prelude::*;

use crate::render::{dec_digits, doc_prefix, push_decimal_u64, push_doc_prefix};

verus! {

/// The fixed delay between reconnect attempts, in milliseconds.
pub const DEFAULT_RECONNECT_BACKOFF_MILLIS: u64 = 1000;

/// The producer client's connection state.
#[derive(Clone, Copy, Debug, PartialEq, Eq, Structural)]
pub enum ProducerState {
    /// A live connection is held; messages are written on the cadence.
    Connected,
    /// The connection was lost; connect attempts are in progress.
    Reconnecting,
}

/// What the runtime observed since the last step.
#[derive(Clone, Copy, Debug, PartialEq, Eq, Structural)]
pub enum ProducerEvent {
    /// The cadenced write completed.
    WriteSucceeded,
    /// The cadenced write failed: the connection is gone.
    WriteFailed,
    /// A connect attempt produced a fresh connection.
    ConnectSucceeded,
    /// A connect attempt failed.
    ConnectFailed,
}

/// What the runtime is to do next.
#[derive(Clone, Copy, Debug, PartialEq, Eq, Structural)]
pub enum ProducerAction {
    /// Wait one send-cadence tick, then write the next message.
    SendNext,
    /// Wait the reconnect backoff, then attempt a new connection.
    RetryConnect,
}

/// The transition table. A failed write abandons that message and asks
/// for a reconnect; a failed connect asks for another after the backoff;
/// a successful connect resumes the send cadence. Connect events while
/// connected, or write events while reconnecting, do not arise in the
/// client's loop; the table keeps the state and repeats its standing
/// action for them.
pub open spec fn spec_producer_step(state: ProducerState, event: ProducerEvent) -> (
    ProducerState,
    ProducerAction,
) {
    match state {
        ProducerState::Connected => match event {
            ProducerEvent::WriteFailed => (ProducerState::Reconnecting, ProducerAction::RetryConnect),
            _ => (ProducerState::Connected, ProducerAction::SendNext),
        },
        ProducerState::Reconnecting => match event {
            ProducerEvent::ConnectSucceeded => (ProducerState::Connected, ProducerAction::SendNext),
            _ => (ProducerState::Reconnecting, ProducerAction::RetryConnect),
        },
    }
}

/// One step of the client: from the current state and the event the
/// runtime observed, the next state and the action to perform.
pub fn producer_step(state: ProducerState, event: ProducerEvent) -> (r: (
    ProducerState,
    ProducerAction,
))
    ensures
        r == spec_producer_step(state, event),
{
    match state {
        ProducerState::Connected => match event {
            ProducerEvent::WriteFailed => (
                ProducerState::Reconnecting,
                ProducerAction::RetryConnect,
            ),
            _ => (ProducerState::Connected, ProducerAction::SendNext),
        },
        ProducerState::Reconnecting => match event {
            ProducerEvent::ConnectSucceeded => (ProducerState::Connected, ProducerAction::SendNext),
            _ => (ProducerState::Reconnecting, ProducerAction::RetryConnect),
        },
    }
}

/// The state after a sequence of events runs from `state`.
pub open spec fn run_producer(state: ProducerState, events: Seq<ProducerEvent>) -> ProducerState
    decreases events.len(),
{
    if events.len() == 0 {
        state
    } else {
        run_producer(spec_producer_step(state, events[0]).0, events.drop_first())
    }
}

/// `n` failed connect attempts in a row.
pub open spec fn connect_failures(n: nat) -> Seq<ProducerEvent> {
    Seq::new(n, |i: int| ProducerEvent::ConnectFailed)
}

/// The reconnect law: a write failure puts the client into
/// `Reconnecting`; it stays there through any number of failed connect
/// attempts, each of which asks for another attempt after the backoff;
/// the first successful connect returns it to `Connected` with the send
/// cadence resumed.
pub proof fn lemma_reconnect_until_success(n: nat)
    ensures
        spec_producer_step(ProducerState::Connected, ProducerEvent::WriteFailed) == (
            ProducerState::Reconnecting,
            ProducerAction::RetryConnect,
        ),
        run_producer(ProducerState::Reconnecting, connect_failures(n))
            == ProducerState::Reconnecting,
        spec_producer_step(ProducerState::Reconnecting, ProducerEvent::ConnectFailed) == (
            ProducerState::Reconnecting,
            ProducerAction::RetryConnect,
        ),
        spec_producer_step(ProducerState::Reconnecting, ProducerEvent::ConnectSucceeded) == (
            ProducerState::Connected,
            ProducerAction::SendNext,
        ),
        run_producer(
            ProducerState::Connected,
            seq![ProducerEvent::WriteFailed] + connect_failures(n) + seq![
                ProducerEvent::ConnectSucceeded,
            ],
        ) == ProducerState::Connected,
    decreases n,
{
    lemma_run_from_reconnecting(connect_failures(n) + seq![ProducerEvent::ConnectSucceeded]);
    let whole = seq![ProducerEvent::WriteFailed] + connect_failures(n) + seq![
        ProducerEvent::ConnectSucceeded,
    ];
    assert(whole.drop_first() =~= connect_failures(n) + seq![ProducerEvent::ConnectSucceeded]);
    if n > 0 {
        lemma_reconnect_until_success((n - 1) as nat);
        assert(connect_failures(n).drop_first() =~= connect_failures((n - 1) as nat));
    }
}

/// From `Reconnecting`, any run of failed attempts closed by one
/// successful connect ends in `Connected`.
proof fn lemma_run_from_reconnecting(events: Seq<ProducerEvent>)
    requires
        events.len() >= 1,
        forall|i: int| 0 <= i < events.len() - 1 ==> events[i] == ProducerEvent::ConnectFailed,
        events[events.len() - 1] == ProducerEvent::ConnectSucceeded,
    ensures
        run_producer(ProducerState::Reconnecting, events) == ProducerState::Connected,
    decreases events.len(),
{
    if events.len() > 1 {
        lemma_run_from_reconnecting(events.drop_first());
    } else {
        assert(events[0] == ProducerEvent::ConnectSucceeded);
        assert(run_producer(ProducerState::Connected, events.drop_first())
            == ProducerState::Connected);
    }
}

/// The bytes of one constructed log line, for the running message
/// counter `count`: `{"log_message": "Log message <count>"}` followed by
/// the wire delimiter.
pub open spec fn log_line(count: nat) -> Seq<u8> {
    doc_prefix() + seq![76u8, 111, 103, 32, 109, 101, 115, 115, 97, 103, 101, 32] + dec_digits(
        count,
    ) + seq![34u8, 125, 10]
}

/// Constructs the client's next message, delimiter included, for the
/// running counter `count`.
pub fn format_log_line(count: u64) -> (r: Vec<u8>)
    ensures
        r@ == log_line(count as nat),
{
    let mut out: Vec<u8> = Vec::new();
    push_doc_prefix(&mut out);
    out.push(76);
    out.push(111);
    out.push(103);
    out.push(32);
    out.push(109);
    out.push(101);
    out.push(115);
    out.push(115);
    out.push(97);
    out.push(103);
    out.push(101);
    out.push(32);
    push_decimal_u64(&mut out, count);
    out.push(34);
    out.push(125);
    out.push(10);
    proof {
        assert(out@ =~= log_line(count as nat));
    }
    out
}

} // verus!
