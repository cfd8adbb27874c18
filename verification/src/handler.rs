//! The connection handler's buffering step: each message completed by
//! the stream is appended to the shared buffer, and after each append
//! the buffer length is checked against the size threshold; reaching it
//! drains the buffer at once into a batch for the sink.
//!
//! One read's worth of bytes can complete many messages, so a single
//! step may produce several size-triggered batches.

use vstd::prelude::*;

use crate::buffer::{Batch, Buffer};
use crate::framing::{frame_msgs, frame_rem, FrameAccumulator};

verus! {

/// The buffer length that, once reached, triggers an immediate flush.
pub const DEFAULT_SIZE_THRESHOLD: usize = 100;

/// The batches drained while the messages `msgs` are appended in order
/// to a buffer holding `buf`, draining whenever the length reaches `t`.
pub open spec fn ingest_batches(buf: Seq<Seq<u8>>, msgs: Seq<Seq<u8>>, t: nat) -> Seq<
    Seq<Seq<u8>>,
>
    decreases msgs.len(),
{
    if msgs.len() == 0 {
        Seq::empty()
    } else {
        let grown = buf.push(msgs[0]);
        if grown.len() >= t {
            seq![grown] + ingest_batches(Seq::empty(), msgs.drop_first(), t)
        } else {
            ingest_batches(grown, msgs.drop_first(), t)
        }
    }
}

/// The buffer contents left after the same run of appends and drains.
pub open spec fn ingest_rest(buf: Seq<Seq<u8>>, msgs: Seq<Seq<u8>>, t: nat) -> Seq<Seq<u8>>
    decreases msgs.len(),
{
    if msgs.len() == 0 {
        buf
    } else {
        let grown = buf.push(msgs[0]);
        if grown.len() >= t {
            ingest_rest(Seq::empty(), msgs.drop_first(), t)
        } else {
            ingest_rest(grown, msgs.drop_first(), t)
        }
    }
}

/// Appends each message to the buffer in order; whenever an append makes
/// the length reach `threshold`, the buffer is drained into a batch.
/// Returns the drained batches in drain order.
pub fn ingest_messages(buffer: &mut Buffer, msgs: Vec<Vec<u8>>, threshold: usize) -> (batches: Vec<
    Batch,
>)
    ensures
        batches.deep_view() == ingest_batches(old(buffer)@, msgs.deep_view(), threshold as nat),
        final(buffer)@ == ingest_rest(old(buffer)@, msgs.deep_view(), threshold as nat),
{
    let ghost all: Seq<Seq<u8>> = msgs.deep_view();
    let mut batches: Vec<Batch> = Vec::new();
    let mut rest = msgs;
    proof {
        assert(batches.deep_view() =~= Seq::<Seq<Seq<u8>>>::empty());
        assert(batches.deep_view() + ingest_batches(buffer@, all, threshold as nat) =~=
        ingest_batches(buffer@, all, threshold as nat));
    }
    while rest.len() > 0
        invariant
            ingest_batches(old(buffer)@, all, threshold as nat) == batches.deep_view()
                + ingest_batches(buffer@, rest.deep_view(), threshold as nat),
            ingest_rest(old(buffer)@, all, threshold as nat) == ingest_rest(
                buffer@,
                rest.deep_view(),
                threshold as nat,
            ),
        decreases rest.len(),
    {
        let ghost pre_buf: Seq<Seq<u8>> = buffer@;
        let ghost pre_rest: Seq<Seq<u8>> = rest.deep_view();
        let m = rest.remove(0);
        proof {
            assert(m.deep_view() =~= m@);
            assert(rest.deep_view() =~~= pre_rest.drop_first());
            assert(pre_rest[0] == m@);
        }
        buffer.append(m);
        if buffer.len() >= threshold {
            let ghost grown: Seq<Seq<u8>> = buffer@;
            let ghost pre_batches: Seq<Seq<Seq<u8>>> = batches.deep_view();
            let batch = buffer.drain_all();
            proof {
                assert(batch.deep_view() == grown);
            }
            batches.push(batch);
            proof {
                assert(batches.deep_view() =~~= pre_batches.push(grown));
                assert(pre_batches.push(grown) + ingest_batches(
                    buffer@,
                    rest.deep_view(),
                    threshold as nat,
                ) =~= pre_batches + (seq![grown] + ingest_batches(
                    Seq::empty(),
                    rest.deep_view(),
                    threshold as nat,
                )));
                assert(buffer@ =~= Seq::<Seq<u8>>::empty());
            }
        }
    }
    proof {
        assert(rest.deep_view() =~= Seq::<Seq<u8>>::empty());
        assert(batches.deep_view() + ingest_batches(buffer@, rest.deep_view(), threshold as nat)
            =~= batches.deep_view());
    }
    batches
}

/// One full connection-handler step for one read from the stream: the
/// bytes are framed into messages, each message is appended to the
/// shared buffer, and every size-triggered batch is returned for the
/// sink.
pub fn handle_chunk(
    acc: &mut FrameAccumulator,
    buffer: &mut Buffer,
    chunk: &[u8],
    threshold: usize,
) -> (batches: Vec<Batch>)
    ensures
        batches.deep_view() == ingest_batches(
            old(buffer)@,
            frame_msgs(old(acc)@, chunk@),
            threshold as nat,
        ),
        final(buffer)@ == ingest_rest(
            old(buffer)@,
            frame_msgs(old(acc)@, chunk@),
            threshold as nat,
        ),
        final(acc)@ == frame_rem(old(acc)@, chunk@),
        old(acc).wf() ==> final(acc).wf(),
{
    let msgs = acc.feed(chunk);
    ingest_messages(buffer, msgs, threshold)
}

/// Filling an empty buffer with exactly as many messages as the
/// threshold drains exactly one batch, holding exactly those messages
/// in order, and leaves the buffer empty.
pub proof fn lemma_threshold_single_flush(msgs: Seq<Seq<u8>>, t: nat)
    requires
        t >= 1,
        msgs.len() == t,
    ensures
        ingest_batches(Seq::empty(), msgs, t) == seq![msgs],
        ingest_rest(Seq::empty(), msgs, t) == Seq::<Seq<u8>>::empty(),
{
    lemma_fill_to_threshold(Seq::empty(), msgs, t);
    assert(Seq::<Seq<u8>>::empty() + msgs =~= msgs);
}

/// While appends stay strictly below the threshold no batch is drained:
/// the messages simply accumulate at the buffer's tail.
pub proof fn lemma_below_threshold_no_flush(buf: Seq<Seq<u8>>, msgs: Seq<Seq<u8>>, t: nat)
    requires
        buf.len() + msgs.len() < t,
    ensures
        ingest_batches(buf, msgs, t) == Seq::<Seq<Seq<u8>>>::empty(),
        ingest_rest(buf, msgs, t) == buf + msgs,
    decreases msgs.len(),
{
    if msgs.len() == 0 {
        assert(buf + msgs =~= buf);
    } else {
        lemma_below_threshold_no_flush(buf.push(msgs[0]), msgs.drop_first(), t);
        assert(buf.push(msgs[0]) + msgs.drop_first() =~= buf + msgs);
    }
}

/// Appending messages that just fill the buffer to the threshold drains
/// the one batch `buf + msgs` and leaves the buffer empty.
proof fn lemma_fill_to_threshold(buf: Seq<Seq<u8>>, msgs: Seq<Seq<u8>>, t: nat)
    requires
        msgs.len() >= 1,
        buf.len() + msgs.len() == t,
    ensures
        ingest_batches(buf, msgs, t) == seq![buf + msgs],
        ingest_rest(buf, msgs, t) == Seq::<Seq<u8>>::empty(),
    decreases msgs.len(),
{
    let grown = buf.push(msgs[0]);
    if msgs.len() == 1 {
        assert(grown =~= buf + msgs);
        assert(seq![grown] + ingest_batches(Seq::empty(), msgs.drop_first(), t) =~= seq![grown]);
        assert(ingest_rest(Seq::empty(), msgs.drop_first(), t) =~= Seq::<Seq<u8>>::empty());
    } else {
        lemma_fill_to_threshold(grown, msgs.drop_first(), t);
        assert(grown + msgs.drop_first() =~= buf + msgs);
    }
}

} // verus!
