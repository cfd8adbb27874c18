//! Message framing: reassembling newline-delimited messages from a
//! connection's byte stream.
//!
//! A single read may return any number of complete or partial messages,
//! and one message may be split across reads. Each connection keeps a
//! `FrameAccumulator`: every chunk of fresh bytes is appended to the
//! leftover of earlier reads, every complete delimiter-terminated
//! message found is emitted, and the trailing undelimited remainder is
//! retained for the next read. Empty lines carry no message and are
//! dropped. On end of stream an unterminated final remainder is
//! discarded, not emitted.

use vstd::prelude::*;

verus! {

/// The wire delimiter: each logical message ends with one line feed.
pub const DELIMITER: u8 = 10;

/// The complete messages extracted when `chunk` follows an undelimited
/// remainder `cur`: bytes accumulate into `cur` until a delimiter, each
/// delimiter emits the non-empty accumulated message, and whatever never
/// meets a delimiter is not emitted.
pub open spec fn frame_msgs(cur: Seq<u8>, chunk: Seq<u8>) -> Seq<Seq<u8>>
    decreases chunk.len(),
{
    if chunk.len() == 0 {
        Seq::empty()
    } else if chunk[0] == DELIMITER {
        if cur.len() == 0 {
            frame_msgs(Seq::empty(), chunk.drop_first())
        } else {
            seq![cur] + frame_msgs(Seq::empty(), chunk.drop_first())
        }
    } else {
        frame_msgs(cur.push(chunk[0]), chunk.drop_first())
    }
}

/// The undelimited remainder left after `chunk` follows the remainder
/// `cur`: the bytes past the last delimiter (or all of them, if no
/// delimiter occurs).
pub open spec fn frame_rem(cur: Seq<u8>, chunk: Seq<u8>) -> Seq<u8>
    decreases chunk.len(),
{
    if chunk.len() == 0 {
        cur
    } else if chunk[0] == DELIMITER {
        frame_rem(Seq::empty(), chunk.drop_first())
    } else {
        frame_rem(cur.push(chunk[0]), chunk.drop_first())
    }
}

/// Per-connection reassembly state: the bytes read so far that no
/// delimiter has yet terminated.
pub struct FrameAccumulator {
    leftover: Vec<u8>,
}

impl View for FrameAccumulator {
    type V = Seq<u8>;

    closed spec fn view(&self) -> Seq<u8> {
        self.leftover@
    }
}

impl FrameAccumulator {
    /// A remainder never holds a delimiter: everything up to and
    /// including one has already been emitted or dropped.
    pub open spec fn wf(&self) -> bool {
        no_delim(self@)
    }

    /// Fresh state for a newly accepted connection.
    pub fn new() -> (r: FrameAccumulator)
        ensures
            r@ == Seq::<u8>::empty(),
            r.wf(),
    {
        FrameAccumulator { leftover: Vec::new() }
    }

    /// Absorbs one read's worth of bytes and returns every message the
    /// stream has completed, in stream order.
    pub fn feed(&mut self, chunk: &[u8]) -> (msgs: Vec<Vec<u8>>)
        ensures
            msgs.deep_view() == frame_msgs(old(self)@, chunk@),
            final(self)@ == frame_rem(old(self)@, chunk@),
            old(self).wf() ==> final(self).wf(),
    {
        proof {
            if old(self).wf() {
                lemma_frame_rem_keeps_wf(old(self)@, chunk@);
            }
        }
        let ghost all: Seq<u8> = chunk@;
        let mut out: Vec<Vec<u8>> = Vec::new();
        let mut i: usize = 0;
        proof {
            assert(all.skip(0) =~= all);
            assert(out.deep_view() =~= Seq::<Seq<u8>>::empty());
            assert(out.deep_view() + frame_msgs(self@, all) =~= frame_msgs(self@, all));
        }
        while i < chunk.len()
            invariant
                i <= chunk.len(),
                all == chunk@,
                frame_msgs(old(self)@, all) == out.deep_view() + frame_msgs(
                    self@,
                    all.skip(i as int),
                ),
                frame_rem(old(self)@, all) == frame_rem(self@, all.skip(i as int)),
            decreases chunk.len() - i,
        {
            let ghost pre: Seq<u8> = self@;
            let ghost rest: Seq<u8> = all.skip(i as int);
            proof {
                assert(rest[0] == all[i as int]);
                assert(rest.drop_first() =~= all.skip(i as int + 1));
            }
            let b = chunk[i];
            if b == DELIMITER {
                if self.leftover.len() > 0 {
                    let mut msg: Vec<u8> = Vec::new();
                    core::mem::swap(&mut self.leftover, &mut msg);
                    let ghost m: Seq<u8> = msg@;
                    let ghost pre_out: Seq<Seq<u8>> = out.deep_view();
                    out.push(msg);
                    proof {
                        assert(m == pre);
                        assert(self@ =~= Seq::<u8>::empty());
                        assert(out.deep_view() =~~= pre_out.push(m));
                        assert(out.deep_view() + frame_msgs(self@, rest.drop_first()) =~= (pre_out
                            + (seq![pre] + frame_msgs(Seq::empty(), rest.drop_first()))));
                    }
                } else {
                    proof {
                        assert(pre =~= Seq::<u8>::empty());
                        assert(self@ =~= Seq::<u8>::empty());
                    }
                }
            } else {
                self.leftover.push(b);
                proof {
                    assert(self@ =~= pre.push(b));
                }
            }
            i += 1;
        }
        proof {
            assert(all.skip(i as int) =~= Seq::<u8>::empty());
            assert(out.deep_view() + frame_msgs(self@, Seq::empty()) =~= out.deep_view());
        }
        out
    }

    /// End of stream: the unterminated remainder, if any, is discarded.
    pub fn finish(&mut self)
        ensures
            final(self)@ == Seq::<u8>::empty(),
            final(self).wf(),
    {
        self.leftover.clear();
    }
}

/// Holds when no byte of `s` is the wire delimiter.
pub open spec fn no_delim(s: Seq<u8>) -> bool {
    forall|i: int| 0 <= i < s.len() ==> s[i] != DELIMITER
}

/// Whatever remainder a chunk leaves behind holds no delimiter, provided
/// the remainder it started from held none.
pub proof fn lemma_frame_rem_keeps_wf(cur: Seq<u8>, chunk: Seq<u8>)
    requires
        no_delim(cur),
    ensures
        no_delim(frame_rem(cur, chunk)),
    decreases chunk.len(),
{
    if chunk.len() == 0 {
    } else if chunk[0] == DELIMITER {
        lemma_frame_rem_keeps_wf(Seq::empty(), chunk.drop_first());
    } else {
        assert forall|i: int|
            0 <= i < cur.push(chunk[0]).len() implies cur.push(chunk[0])[i] != DELIMITER by {
            if i < cur.len() {
                assert(cur.push(chunk[0])[i] == cur[i]);
            }
        }
        lemma_frame_rem_keeps_wf(cur.push(chunk[0]), chunk.drop_first());
    }
}

/// Every message a stream completes has the wire shape: it is
/// non-empty and holds no delimiter, whatever the reads looked like.
pub proof fn lemma_frame_msgs_wf(cur: Seq<u8>, chunk: Seq<u8>)
    requires
        no_delim(cur),
    ensures
        forall|k: int|
            0 <= k < frame_msgs(cur, chunk).len() ==> (frame_msgs(cur, chunk)[k].len() > 0
                && no_delim(#[trigger] frame_msgs(cur, chunk)[k])),
    decreases chunk.len(),
{
    if chunk.len() == 0 {
    } else if chunk[0] == DELIMITER {
        lemma_frame_msgs_wf(Seq::empty(), chunk.drop_first());
        let rest = frame_msgs(Seq::empty(), chunk.drop_first());
        assert forall|k: int|
            0 <= k < frame_msgs(cur, chunk).len() implies (frame_msgs(cur, chunk)[k].len() > 0
            && no_delim(#[trigger] frame_msgs(cur, chunk)[k])) by {
            if cur.len() > 0 {
                assert(frame_msgs(cur, chunk) == seq![cur] + rest);
                if k == 0 {
                    assert(frame_msgs(cur, chunk)[k] == cur);
                } else {
                    assert(frame_msgs(cur, chunk)[k] == rest[k - 1]);
                }
            } else {
                assert(frame_msgs(cur, chunk)[k] == rest[k]);
            }
        }
    } else {
        assert forall|i: int|
            0 <= i < cur.push(chunk[0]).len() implies cur.push(chunk[0])[i] != DELIMITER by {
            if i < cur.len() {
                assert(cur.push(chunk[0])[i] == cur[i]);
            }
        }
        lemma_frame_msgs_wf(cur.push(chunk[0]), chunk.drop_first());
        let rest = frame_msgs(cur.push(chunk[0]), chunk.drop_first());
        assert forall|k: int|
            0 <= k < frame_msgs(cur, chunk).len() implies (frame_msgs(cur, chunk)[k].len() > 0
            && no_delim(#[trigger] frame_msgs(cur, chunk)[k])) by {
            assert(frame_msgs(cur, chunk)[k] == rest[k]);
        }
    }
}

/// Splitting a stream anywhere does not change what is framed: feeding
/// `left` and then `right` emits the same messages, and leaves the same
/// remainder, as feeding `left + right` in one read.
pub proof fn lemma_frame_split(cur: Seq<u8>, left: Seq<u8>, right: Seq<u8>)
    ensures
        frame_msgs(cur, left + right) == frame_msgs(cur, left) + frame_msgs(
            frame_rem(cur, left),
            right,
        ),
        frame_rem(cur, left + right) == frame_rem(frame_rem(cur, left), right),
    decreases left.len(),
{
    if left.len() == 0 {
        assert(left + right =~= right);
        assert(frame_msgs(cur, left) + frame_msgs(frame_rem(cur, left), right) =~= frame_msgs(
            cur,
            right,
        ));
    } else {
        let whole = left + right;
        assert(whole[0] == left[0]);
        assert(whole.drop_first() =~= left.drop_first() + right);
        if left[0] == DELIMITER {
            lemma_frame_split(Seq::empty(), left.drop_first(), right);
            if cur.len() > 0 {
                assert(seq![cur] + (frame_msgs(Seq::empty(), left.drop_first()) + frame_msgs(
                    frame_rem(Seq::empty(), left.drop_first()),
                    right,
                )) =~= (seq![cur] + frame_msgs(Seq::empty(), left.drop_first())) + frame_msgs(
                    frame_rem(Seq::empty(), left.drop_first()),
                    right,
                ));
            }
        } else {
            lemma_frame_split(cur.push(left[0]), left.drop_first(), right);
        }
    }
}

} // verus!
