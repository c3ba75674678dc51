//! Framing: every message travels as four big-endian length bytes followed by
//! the message, and a receiver collects the message in chunks until it has
//! all of it.

use vstd::prelude::*;

use crate::comms::{be_bytes, be_value, lemma_u32_bytes_of_value, lemma_u32_roundtrip, Deserialiser, Encoder};

verus! {

/// The frame that carries `payload`: its length, as four big-endian bytes of a
/// `u32` (which keeps the length modulo 2^32), then the payload.
pub open spec fn frame_spec(payload: Seq<u8>) -> Seq<u8> {
    be_bytes(payload.len() as u32) + payload
}

/// Puts `payload` into a frame.
pub fn encode_frame(payload: &Vec<u8>) -> (frame: Vec<u8>)
    ensures
        frame@ == frame_spec(payload@),
{
    let size = payload.len() as u32;
    let mut output = size.to_bytes();
    output.extend_from_slice(payload.as_slice());
    assert(output@ =~= frame_spec(payload@));
    output
}

/// The payload length that a frame header announces; a header is exactly four bytes.
pub fn decode_frame_size(header: &Vec<u8>) -> (size: Option<u32>)
    ensures
        size == (if header@.len() == 4 {
            Some(be_value(header@))
        } else {
            None
        }),
{
    if header.len() != 4 {
        return None;
    }
    let mut d = Deserialiser::from_vec(header.clone());
    Some(d.get_u32())
}

/// The first four bytes of a frame announce the payload's length, and the
/// rest of the frame is the payload, for every payload that a `u32` can measure.
pub proof fn lemma_frame_roundtrip(payload: Seq<u8>)
    requires
        payload.len() <= u32::MAX,
    ensures
        frame_spec(payload).take(4).len() == 4,
        be_value(frame_spec(payload).take(4)) == payload.len(),
        frame_spec(payload).skip(4) == payload,
{
    let frame = frame_spec(payload);
    lemma_u32_roundtrip(payload.len() as u32, payload);
    assert(frame.take(4) =~= be_bytes(payload.len() as u32));
    lemma_u32_roundtrip(payload.len() as u32, Seq::empty());
    assert(be_bytes(payload.len() as u32) + Seq::<u8>::empty() =~= be_bytes(payload.len() as u32));
}

/// Any four bytes are the header of the frames whose payload length they announce.
pub proof fn lemma_header_roundtrip(header: Seq<u8>, payload: Seq<u8>)
    requires
        header.len() == 4,
        payload.len() == be_value(header),
    ensures
        frame_spec(payload) == header + payload,
{
    lemma_u32_bytes_of_value(header);
    assert(header.take(4) =~= header);
}

/// A payload being received in chunks: how long it is, and what has arrived.
pub struct Incoming {
    wanted: usize,
    received: Vec<u8>,
}

impl View for Incoming {
    type V = Seq<u8>;

    /// The bytes received so far, in the order they arrived.
    closed spec fn view(&self) -> Seq<u8> {
        self.received@
    }
}

impl Incoming {
    /// The number of bytes that the payload has.
    pub closed spec fn wanted(&self) -> nat {
        self.wanted as nat
    }

    /// The number of bytes still missing.
    pub open spec fn missing(&self) -> nat {
        if self@.len() < self.wanted() {
            (self.wanted() - self@.len()) as nat
        } else {
            0
        }
    }

    /// Starts receiving a payload of `amount` bytes.
    pub fn new(amount: u32) -> (r: Incoming)
        ensures
            r.wanted() == amount,
            r@ == Seq::<u8>::empty(),
    {
        Incoming { wanted: amount as usize, received: Vec::new() }
    }

    /// The number of bytes received so far.
    pub fn received_len(&self) -> (n: usize)
        ensures
            n == self@.len(),
    {
        self.received.len()
    }

    /// Whether the whole payload has arrived.
    pub fn is_complete(&self) -> (done: bool)
        ensures
            done == (self@.len() >= self.wanted()),
    {
        self.received.len() >= self.wanted
    }

    /// How many bytes are still to be read.
    pub fn needed(&self) -> (n: usize)
        ensures
            n == self.missing(),
    {
        if self.received.len() < self.wanted {
            self.wanted - self.received.len()
        } else {
            0
        }
    }

    /// Adds a chunk that arrived.
    pub fn push(&mut self, chunk: &Vec<u8>)
        ensures
            final(self)@ == old(self)@ + chunk@,
            final(self).wanted() == old(self).wanted(),
    {
        self.received.extend_from_slice(chunk.as_slice());
        assert(self.received@ =~= old(self)@ + chunk@);
    }

    /// The bytes received.
    pub fn into_bytes(self) -> (bytes: Vec<u8>)
        ensures
            bytes@ == self@,
    {
        self.received
    }
}

/// A payload is complete exactly when no byte is missing.
pub proof fn lemma_complete_iff_nothing_missing(inc: Incoming)
    ensures
        (inc@.len() >= inc.wanted()) <==> inc.missing() == 0,
{
}

/// A chunk shortens what is missing by its length, down to nothing: a chunk as
/// long as what is missing completes the payload.
pub proof fn lemma_push_shortens_missing(before: Incoming, after: Incoming, chunk: Seq<u8>)
    requires
        after@ == before@ + chunk,
        after.wanted() == before.wanted(),
    ensures
        after.missing() == (if chunk.len() >= before.missing() {
            0
        } else {
            before.missing() - chunk.len()
        }),
{
}

/// The chunks joined in order.
pub open spec fn joined(chunks: Seq<Seq<u8>>) -> Seq<u8>
    decreases chunks.len(),
{
    if chunks.len() == 0 {
        Seq::empty()
    } else {
        joined(chunks.drop_last()) + chunks.last()
    }
}

/// The first `i` chunks joined are the beginning of all of them joined.
proof fn lemma_joined_prefix(chunks: Seq<Seq<u8>>, i: int)
    requires
        0 <= i <= chunks.len(),
    ensures
        joined(chunks.take(i)).len() <= joined(chunks).len(),
        joined(chunks.take(i)) == joined(chunks).take(joined(chunks.take(i)).len() as int),
    decreases chunks.len(),
{
    if i == chunks.len() {
        assert(chunks.take(i) =~= chunks);
    } else {
        let dl = chunks.drop_last();
        lemma_joined_prefix(dl, i);
        assert(chunks.take(i) =~= dl.take(i));
        let whole = joined(chunks);
        assert(whole == joined(dl) + chunks.last());
        assert(joined(dl) =~= whole.take(joined(dl).len() as int));
        assert(joined(chunks.take(i)) =~= whole.take(joined(chunks.take(i)).len() as int));
    }
}

/// However the payload of a frame arrives in pieces, pushing the pieces in
/// order into an `Incoming` started from the frame's header collects exactly
/// the payload: after each piece what has arrived is the beginning of the
/// payload and the rest is what is missing; after the last piece the whole
/// payload has arrived and nothing is missing.
pub proof fn lemma_frame_reassembled(payload: Seq<u8>, chunks: Seq<Seq<u8>>, steps: Seq<Incoming>)
    requires
        payload.len() <= u32::MAX,
        joined(chunks) == payload,
        steps.len() == chunks.len() + 1,
        steps[0]@ == Seq::<u8>::empty(),
        steps[0].wanted() == be_value(frame_spec(payload).take(4)),
        forall|i: int|
            0 <= i < chunks.len() ==> #[trigger] steps[i + 1]@ == steps[i]@ + chunks[i]
                && steps[i + 1].wanted() == steps[i].wanted(),
    ensures
        forall|i: int|
            0 <= i < steps.len() ==> #[trigger] steps[i]@ == payload.take(steps[i]@.len() as int)
                && steps[i].missing() == payload.len() - steps[i]@.len(),
        steps.last()@ == payload,
        steps.last().missing() == 0,
{
    lemma_frame_roundtrip(payload);
    assert forall|i: int| 0 <= i < steps.len() implies #[trigger] steps[i]@ == joined(chunks.take(i))
        && steps[i].wanted() == payload.len() by {
        lemma_steps_joined(payload, chunks, steps, i);
    }
    assert forall|i: int| 0 <= i < steps.len() implies #[trigger] steps[i]@ == payload.take(
        steps[i]@.len() as int,
    ) && steps[i].missing() == payload.len() - steps[i]@.len() by {
        assert(steps[i]@ == joined(chunks.take(i)));
        lemma_joined_prefix(chunks, i);
    }
    assert(chunks.take(chunks.len() as int) =~= chunks);
    assert(steps[steps.len() - 1]@ == joined(chunks.take(chunks.len() as int)));
}

/// After `i` pieces, an `Incoming` holds the first `i` pieces joined and
/// still wants the payload's length.
proof fn lemma_steps_joined(payload: Seq<u8>, chunks: Seq<Seq<u8>>, steps: Seq<Incoming>, i: int)
    requires
        steps.len() == chunks.len() + 1,
        steps[0]@ == Seq::<u8>::empty(),
        steps[0].wanted() == payload.len(),
        forall|j: int|
            0 <= j < chunks.len() ==> #[trigger] steps[j + 1]@ == steps[j]@ + chunks[j]
                && steps[j + 1].wanted() == steps[j].wanted(),
        0 <= i < steps.len(),
    ensures
        steps[i]@ == joined(chunks.take(i)),
        steps[i].wanted() == payload.len(),
    decreases i,
{
    if i == 0 {
        assert(chunks.take(0) =~= Seq::<Seq<u8>>::empty());
    } else {
        lemma_steps_joined(payload, chunks, steps, i - 1);
        assert(steps[(i - 1) + 1]@ == steps[i - 1]@ + chunks[i - 1]);
        assert(chunks.take(i).drop_last() =~= chunks.take(i - 1));
    }
}

} // verus!
