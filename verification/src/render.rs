//! Rendering a batch for the sink: one JSON document per message, each
//! on its own line, carrying the raw message text and a server-assigned
//! ingestion timestamp in epoch milliseconds.
//!
//! A document has the shape `{"log_message": "<bytes>", "timestamp": <n>}`.
//! The message bytes are inserted as they arrived on the wire; the
//! protocol carries plain text, so no escaping is applied. All documents
//! of one batch share the timestamp taken when the flush is rendered.

use vstd::prelude::*;

use crate::framing::DELIMITER;

verus! {

/// Decimal digits of `n`, most significant first, no sign and no
/// leading zero (except for `n == 0` itself).
pub open spec fn dec_digits(n: nat) -> Seq<u8>
    decreases n,
{
    if n < 10 {
        seq![(48 + n) as u8]
    } else {
        dec_digits(n / 10).push((48 + n % 10) as u8)
    }
}

/// Signed decimal rendering: a leading minus sign for negative values.
pub open spec fn dec_signed(n: int) -> Seq<u8> {
    if n < 0 {
        seq![45u8] + dec_digits((-n) as nat)
    } else {
        dec_digits(n as nat)
    }
}

/// The bytes of `{"log_message": "`.
pub open spec fn doc_prefix() -> Seq<u8> {
    seq![123u8, 34, 108, 111, 103, 95, 109, 101, 115, 115, 97, 103, 101, 34, 58, 32, 34]
}

/// The bytes of `", "timestamp": `.
pub open spec fn doc_infix() -> Seq<u8> {
    seq![34u8, 44, 32, 34, 116, 105, 109, 101, 115, 116, 97, 109, 112, 34, 58, 32]
}

/// One rendered document.
pub open spec fn doc_json(msg: Seq<u8>, ts: int) -> Seq<u8> {
    doc_prefix() + msg + doc_infix() + dec_signed(ts) + seq![125u8]
}

/// The documents after the first, each preceded by the line delimiter.
pub open spec fn docs_rest(batch: Seq<Seq<u8>>, ts: int) -> Seq<u8>
    decreases batch.len(),
{
    if batch.len() == 0 {
        Seq::empty()
    } else {
        seq![DELIMITER] + doc_json(batch[0], ts) + docs_rest(batch.drop_first(), ts)
    }
}

/// A whole rendered batch: the documents joined by the line delimiter,
/// with no trailing delimiter; an empty batch renders to nothing.
pub open spec fn batch_json(batch: Seq<Seq<u8>>, ts: int) -> Seq<u8> {
    if batch.len() == 0 {
        Seq::empty()
    } else {
        doc_json(batch[0], ts) + docs_rest(batch.drop_first(), ts)
    }
}

/// Appends the decimal digits of `n`.
pub(crate) fn push_decimal_u64(out: &mut Vec<u8>, n: u64)
    ensures
        final(out)@ == old(out)@ + dec_digits(n as nat),
    decreases n,
{
    if n < 10 {
        out.push(48 + (n as u8));
        proof {
            assert(out@ =~= old(out)@ + dec_digits(n as nat));
        }
    } else {
        push_decimal_u64(out, n / 10);
        out.push(48 + ((n % 10) as u8));
        proof {
            assert(out@ =~= old(out)@ + dec_digits(n as nat));
        }
    }
}

/// Appends the signed decimal digits of `n`.
fn push_decimal_i64(out: &mut Vec<u8>, n: i64)
    ensures
        final(out)@ == old(out)@ + dec_signed(n as int),
{
    if n < 0 {
        out.push(45);
        let magnitude: u64 = ((-(n + 1)) as u64) + 1;
        push_decimal_u64(out, magnitude);
        proof {
            assert(out@ =~= old(out)@ + dec_signed(n as int));
        }
    } else {
        push_decimal_u64(out, n as u64);
    }
}

/// Appends a copy of `bytes`.
fn push_bytes(out: &mut Vec<u8>, bytes: &Vec<u8>)
    ensures
        final(out)@ == old(out)@ + bytes@,
{
    let mut i: usize = 0;
    proof {
        assert(out@ =~= old(out)@ + bytes@.take(0));
    }
    while i < bytes.len()
        invariant
            i <= bytes@.len(),
            out@ == old(out)@ + bytes@.take(i as int),
        decreases bytes@.len() - i,
    {
        out.push(bytes[i]);
        proof {
            assert(bytes@.take(i as int).push(bytes@[i as int]) =~= bytes@.take(i as int + 1));
            assert(out@ =~= old(out)@ + bytes@.take(i as int + 1));
        }
        i += 1;
    }
    proof {
        assert(bytes@.take(bytes@.len() as int) =~= bytes@);
    }
}

/// Appends the bytes of `{"log_message": "`.
pub(crate) fn push_doc_prefix(out: &mut Vec<u8>)
    ensures
        final(out)@ == old(out)@ + doc_prefix(),
{
    out.push(123);
    out.push(34);
    out.push(108);
    out.push(111);
    out.push(103);
    out.push(95);
    out.push(109);
    out.push(101);
    out.push(115);
    out.push(115);
    out.push(97);
    out.push(103);
    out.push(101);
    out.push(34);
    out.push(58);
    out.push(32);
    out.push(34);
    proof {
        assert(out@ =~= old(out)@ + doc_prefix());
    }
}

/// Appends the bytes of `", "timestamp": `.
fn push_doc_infix(out: &mut Vec<u8>)
    ensures
        final(out)@ == old(out)@ + doc_infix(),
{
    out.push(34);
    out.push(44);
    out.push(32);
    out.push(34);
    out.push(116);
    out.push(105);
    out.push(109);
    out.push(101);
    out.push(115);
    out.push(116);
    out.push(97);
    out.push(109);
    out.push(112);
    out.push(34);
    out.push(58);
    out.push(32);
    proof {
        assert(out@ =~= old(out)@ + doc_infix());
    }
}

/// Appends one rendered document for `msg`.
fn push_doc(out: &mut Vec<u8>, msg: &Vec<u8>, ts: i64)
    ensures
        final(out)@ == old(out)@ + doc_json(msg@, ts as int),
{
    push_doc_prefix(out);
    push_bytes(out, msg);
    push_doc_infix(out);
    push_decimal_i64(out, ts);
    out.push(125);
    proof {
        assert(out@ =~= old(out)@ + doc_json(msg@, ts as int));
    }
}

/// Renders one document: the message bytes and the given ingestion
/// timestamp in the documented JSON shape.
pub fn render_doc(msg: &Vec<u8>, ts: i64) -> (r: Vec<u8>)
    ensures
        r@ == doc_json(msg@, ts as int),
{
    let mut out: Vec<u8> = Vec::new();
    push_doc(&mut out, msg, ts);
    proof {
        assert(Seq::<u8>::empty() + doc_json(msg@, ts as int) =~= doc_json(msg@, ts as int));
    }
    out
}

/// Renders a whole batch under the given ingestion timestamp: the
/// documents in batch order, joined by the line delimiter.
pub fn render_batch(batch: &Vec<Vec<u8>>, ts: i64) -> (r: Vec<u8>)
    ensures
        r@ == batch_json(batch.deep_view(), ts as int),
{
    let ghost all: Seq<Seq<u8>> = batch.deep_view();
    let mut out: Vec<u8> = Vec::new();
    if batch.len() == 0 {
        return out;
    }
    proof {
        assert(all[0] =~= batch@[0]@);
    }
    push_doc(&mut out, &batch[0], ts);
    proof {
        assert(Seq::<u8>::empty() + doc_json(all[0], ts as int) =~= doc_json(all[0], ts as int));
        assert(all.skip(1) =~= all.drop_first());
    }
    let mut i: usize = 1;
    while i < batch.len()
        invariant
            1 <= i <= all.len(),
            all == batch.deep_view(),
            batch_json(all, ts as int) == out@ + docs_rest(all.skip(i as int), ts as int),
        decreases batch@.len() - i,
    {
        let ghost rest: Seq<Seq<u8>> = all.skip(i as int);
        let ghost pre: Seq<u8> = out@;
        proof {
            assert(rest[0] == all[i as int]);
            assert(rest.drop_first() =~= all.skip(i as int + 1));
            assert(all[i as int] =~= batch@[i as int]@);
        }
        out.push(DELIMITER);
        push_doc(&mut out, &batch[i], ts);
        proof {
            assert(out@ =~= pre + (seq![DELIMITER] + doc_json(rest[0], ts as int)));
            assert(pre + (seq![DELIMITER] + doc_json(rest[0], ts as int)) + docs_rest(
                rest.drop_first(),
                ts as int,
            ) =~= pre + (seq![DELIMITER] + doc_json(rest[0], ts as int) + docs_rest(
                rest.drop_first(),
                ts as int,
            )));
        }
        i += 1;
    }
    proof {
        assert(docs_rest(all.skip(i as int), ts as int) =~= Seq::<u8>::empty());
        assert(out@ + Seq::<u8>::empty() =~= out@);
    }
    out
}

/// Relies on `chrono::Utc::now` and `chrono::DateTime::timestamp_millis`
/// for the current wall-clock time as milliseconds since the Unix epoch.
/// Nothing is promised of the clock's reading.
#[verifier::external_body]
fn now_millis() -> i64 {
    chrono::Utc::now().timestamp_millis()
}

/// Renders a batch with the ingestion timestamp read from the wall
/// clock at the moment of the flush. Returns the rendered bytes
/// together with the timestamp that was used: whatever the clock read,
/// the bytes are exactly the batch rendered under that timestamp.
pub fn render_batch_now(batch: &Vec<Vec<u8>>) -> (r: (Vec<u8>, i64))
    ensures
        r.0@ == batch_json(batch.deep_view(), r.1 as int),
{
    let ts = now_millis();
    (render_batch(batch, ts), ts)
}

} // verus!
