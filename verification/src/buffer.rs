//! The shared buffer: the single accumulation point for unflushed
//! messages, with append, an advisory length read, and an atomic drain.
//!
//! In the running process one `Buffer` lives behind a mutual-exclusion
//! lock shared by every connection handler and the flush paths; the lock
//! is held only for an `append` or the swap inside `drain_all`, never
//! across sink I/O. Under that serialization, the history of the buffer
//! is some interleaving of appends and drains, and
//! `lemma_drains_partition_appends` states the accounting law for every
//! such interleaving: nothing is lost, nothing is duplicated, and order
//! is preserved.

use vstd::prelude::*;

verus! {

/// One logical log line, as raw bytes (the trailing delimiter removed).
pub type Message = Vec<u8>;

/// An ordered snapshot of messages detached from the buffer by one drain.
pub type Batch = Vec<Vec<u8>>;

/// The ordered sequence of unflushed messages.
pub struct Buffer {
    msgs: Vec<Vec<u8>>,
}

impl View for Buffer {
    type V = Seq<Seq<u8>>;

    closed spec fn view(&self) -> Seq<Seq<u8>> {
        self.msgs.deep_view()
    }
}

impl Buffer {
    /// An empty buffer, created once at server start.
    pub fn new() -> (r: Buffer)
        ensures
            r@ == Seq::<Seq<u8>>::empty(),
    {
        let r = Buffer { msgs: Vec::with_capacity(100) };
        proof {
            assert(r@ =~= Seq::<Seq<u8>>::empty());
        }
        r
    }

    /// Adds one message at the tail. Never fails.
    pub fn append(&mut self, msg: Message)
        ensures
            final(self)@ == old(self)@.push(msg@),
    {
        let ghost m: Seq<u8> = msg@;
        self.msgs.push(msg);
        proof {
            assert(self@ =~~= old(self)@.push(m));
        }
    }

    /// Advisory size read, used by the size-trigger check.
    pub fn len(&self) -> (n: usize)
        ensures
            n == self@.len(),
    {
        self.msgs.len()
    }

    /// Atomically swaps the contents with a fresh empty sequence and
    /// returns exactly the messages that were present, in order. No
    /// message reaches two batches, and none is left behind.
    pub fn drain_all(&mut self) -> (batch: Batch)
        ensures
            batch.deep_view() == old(self)@,
            final(self)@ == Seq::<Seq<u8>>::empty(),
    {
        let mut taken: Vec<Vec<u8>> = Vec::with_capacity(100);
        core::mem::swap(&mut self.msgs, &mut taken);
        proof {
            assert(self@ =~= Seq::<Seq<u8>>::empty());
        }
        taken
    }
}

/// One operation of the buffer's serialized history. The lock admits
/// one appender or drainer at a time, so any concurrent execution is
/// some sequence of these.
pub enum BufferOp {
    /// An `append` of one message by some handler.
    Append { msg: Seq<u8> },
    /// A `drain_all` by one flush invocation.
    Drain,
}

/// The buffer contents after a history `ops` runs on contents `init`.
pub open spec fn run_contents(init: Seq<Seq<u8>>, ops: Seq<BufferOp>) -> Seq<Seq<u8>>
    decreases ops.len(),
{
    if ops.len() == 0 {
        init
    } else {
        match ops[0] {
            BufferOp::Append { msg } => run_contents(init.push(msg), ops.drop_first()),
            BufferOp::Drain => run_contents(Seq::empty(), ops.drop_first()),
        }
    }
}

/// The batches that the drains of a history `ops` return, in drain
/// order, starting from contents `init`.
pub open spec fn run_batches(init: Seq<Seq<u8>>, ops: Seq<BufferOp>) -> Seq<Seq<Seq<u8>>>
    decreases ops.len(),
{
    if ops.len() == 0 {
        Seq::empty()
    } else {
        match ops[0] {
            BufferOp::Append { msg } => run_batches(init.push(msg), ops.drop_first()),
            BufferOp::Drain => seq![init] + run_batches(Seq::empty(), ops.drop_first()),
        }
    }
}

/// The messages that a history appends, in append order.
pub open spec fn appended(ops: Seq<BufferOp>) -> Seq<Seq<u8>>
    decreases ops.len(),
{
    if ops.len() == 0 {
        Seq::empty()
    } else {
        match ops[0] {
            BufferOp::Append { msg } => seq![msg] + appended(ops.drop_first()),
            BufferOp::Drain => appended(ops.drop_first()),
        }
    }
}

/// All batches flattened, in drain order.
pub open spec fn concat_batches(batches: Seq<Seq<Seq<u8>>>) -> Seq<Seq<u8>>
    decreases batches.len(),
{
    if batches.len() == 0 {
        Seq::empty()
    } else {
        batches[0] + concat_batches(batches.drop_first())
    }
}

/// The accounting law for every interleaving of appends and drains:
/// the batches drained during a history, flattened in drain order,
/// followed by what remains buffered, are exactly the initial contents
/// followed by every appended message in append order. Hence no message
/// is lost, none reaches two batches, and messages keep the relative
/// order of their appends — in particular the order in which any single
/// handler appended them.
pub proof fn lemma_drains_partition_appends(init: Seq<Seq<u8>>, ops: Seq<BufferOp>)
    ensures
        concat_batches(run_batches(init, ops)) + run_contents(init, ops) == init + appended(ops),
    decreases ops.len(),
{
    if ops.len() == 0 {
        assert(concat_batches(run_batches(init, ops)) + run_contents(init, ops) =~= init
            + appended(ops));
    } else {
        let rest = ops.drop_first();
        match ops[0] {
            BufferOp::Append { msg } => {
                lemma_drains_partition_appends(init.push(msg), rest);
                assert(init.push(msg) + appended(rest) =~= init + (seq![msg] + appended(rest)));
            },
            BufferOp::Drain => {
                lemma_drains_partition_appends(Seq::empty(), rest);
                let tail = run_batches(Seq::empty(), rest);
                assert((seq![init] + tail).drop_first() =~= tail);
                assert(concat_batches(seq![init] + tail) == init + concat_batches(tail));
                assert(Seq::<Seq<u8>>::empty() + appended(rest) =~= appended(rest));
                assert((init + concat_batches(tail)) + run_contents(Seq::empty(), rest) =~= init
                    + (concat_batches(tail) + run_contents(Seq::empty(), rest)));
            },
        }
    }
}

} // verus!
