//! The flush coordinator: the one routine behind every flush trigger.
//!
//! Whatever fires — the timer cadence, a size-triggered check, or the
//! final shutdown flush — the coordinator atomically detaches the
//! buffer's contents and decides whether the sink is to be invoked: only
//! a non-empty batch is handed on, so a timer firing on an idle server
//! performs no sink call. The drain is the sole serialization point;
//! the sink I/O itself happens outside the critical section.

use vstd::prelude::*;

use crate::buffer::{Batch, Buffer};

verus! {

/// The flush cadence, in seconds, of the background scheduler.
pub const DEFAULT_FLUSH_INTERVAL_SECS: u64 = 10;

/// The event that causes one flush-coordinator invocation.
#[derive(Clone, Copy, Debug, PartialEq, Eq, Structural)]
pub enum FlushTrigger {
    /// The background scheduler's fixed cadence elapsed.
    TimerElapsed,
    /// An append made the buffer length reach the configured threshold.
    SizeThresholdReached(usize),
    /// A termination request asked for one final best-effort flush.
    ShutdownRequested,
}

/// Detaches the buffer's current contents and returns the batch to hand
/// to the sink — or `None` for an empty buffer, in which case the sink
/// must not be invoked. Every trigger is handled alike; the buffer is
/// empty afterwards either way.
pub fn plan_flush(buffer: &mut Buffer, trigger: FlushTrigger) -> (batch: Option<Batch>)
    ensures
        final(buffer)@ == Seq::<Seq<u8>>::empty(),
        old(buffer)@.len() == 0 ==> batch is None,
        old(buffer)@.len() > 0 ==> (batch matches Some(b) && b.deep_view() == old(buffer)@),
{
    let drained = buffer.drain_all();
    if drained.len() > 0 {
        Some(drained)
    } else {
        proof {
            assert(drained.deep_view().len() == drained@.len());
        }
        None
    }
}

} // verus!
