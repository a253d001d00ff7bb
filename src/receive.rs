use vstd::prelude::*;

verus! {

/// Size of the read buffer: the largest payload a UDP datagram can carry.
pub const DATAGRAM_CAPACITY: usize = 65535;

/// The number of bytes waiting, as the receive loop sees it: a failed peek
/// counts as nothing pending.
pub open spec fn pending_spec(peeked: Option<usize>) -> usize {
    match peeked {
        Some(n) => n,
        None => 0,
    }
}

/// Collapses the outcome of a peek (`None` for an error) to the number of
/// bytes waiting.
pub fn pending_bytes(peeked: Option<usize>) -> (r: usize)
    ensures
        r == pending_spec(peeked),
{
    match peeked {
        Some(n) => n,
        None => 0,
    }
}

/// Whether the receive loop reads a datagram after a peek saw `pending`
/// bytes waiting. An empty datagram is indistinguishable from none.
pub fn should_consume(pending: usize) -> (r: bool)
    ensures
        r == (pending > 0),
{
    pending > 0
}

/// A copy of the `amt` bytes that a read left at the front of the shared
/// buffer; the buffer can then be reused for the next datagram.
pub fn take_datagram(buffer: &[u8], amt: usize) -> (r: Vec<u8>)
    requires
        amt <= buffer@.len(),
    ensures
        r@ == buffer@.subrange(0, amt as int),
{
    let mut r: Vec<u8> = Vec::with_capacity(amt);
    let mut i: usize = 0;
    while i < amt
        invariant
            amt <= buffer@.len(),
            i <= amt,
            r@ == buffer@.subrange(0, i as int),
        decreases amt - i,
    {
        r.push(buffer[i]);
        i = i + 1;
        assert(r@ =~= buffer@.subrange(0, i as int));
    }
    r
}

/// A peek on an endpoint whose pending datagrams are `queue`, oldest first:
/// the size of the oldest, or an error when none is waiting.
pub open spec fn peek_model(queue: Seq<Seq<u8>>) -> Option<usize> {
    if queue.len() == 0 {
        None
    } else {
        Some(queue[0].len() as usize)
    }
}

/// The buffer after a read of datagram `d` into it: `d` at the front, the
/// rest as it was.
pub open spec fn read_into(buffer: Seq<u8>, d: Seq<u8>) -> Seq<u8> {
    d + buffer.subrange(d.len() as int, buffer.len() as int)
}

/// One pass of the receive loop over an endpoint holding `queue`: the
/// endpoint's queue and the buffer afterwards, and the payload delivered to
/// the stream, if any.
pub open spec fn poll(queue: Seq<Seq<u8>>, buffer: Seq<u8>) -> (Seq<Seq<u8>>, Seq<u8>, Option<Seq<u8>>) {
    if pending_spec(peek_model(queue)) > 0 {
        let b = read_into(buffer, queue[0]);
        (queue.drop_first(), b, Some(b.subrange(0, queue[0].len() as int)))
    } else {
        (queue, buffer, None)
    }
}

/// The payloads delivered to the stream, in order, over `passes` passes of
/// the receive loop.
pub open spec fn delivered(queue: Seq<Seq<u8>>, buffer: Seq<u8>, passes: nat) -> Seq<Seq<u8>>
    decreases passes,
{
    if passes == 0 {
        Seq::empty()
    } else {
        let (q, b, out) = poll(queue, buffer);
        match out {
            Some(d) => seq![d] + delivered(q, b, (passes - 1) as nat),
            None => delivered(q, b, (passes - 1) as nat),
        }
    }
}

/// With nothing waiting, the loop delivers nothing.
proof fn lemma_idle_delivers_nothing(buffer: Seq<u8>, passes: nat)
    ensures
        delivered(Seq::empty(), buffer, passes) == Seq::<Seq<u8>>::empty(),
    decreases passes,
{
    if passes > 0 {
        lemma_idle_delivers_nothing(buffer, (passes - 1) as nat);
    }
}

/// Datagrams that were waiting before the loop ran come out of the stream
/// all, once each, in the order they arrived and byte for byte, provided
/// each holds at least one byte and fits the buffer.
pub proof fn lemma_stream_keeps_every_datagram_in_order(
    queue: Seq<Seq<u8>>,
    buffer: Seq<u8>,
    passes: nat,
)
    requires
        buffer.len() == DATAGRAM_CAPACITY,
        passes >= queue.len(),
        forall|i: int| 0 <= i < queue.len() ==> 0 < (#[trigger] queue[i]).len() <= DATAGRAM_CAPACITY,
    ensures
        delivered(queue, buffer, passes) == queue,
    decreases queue.len(),
{
    if queue.len() == 0 {
        lemma_idle_delivers_nothing(buffer, passes);
        assert(queue =~= Seq::<Seq<u8>>::empty());
    } else {
        let d = queue[0];
        let b = read_into(buffer, d);
        assert(b.subrange(0, d.len() as int) =~= d);
        assert(b.len() == DATAGRAM_CAPACITY);
        assert(pending_spec(peek_model(queue)) == d.len());
        assert(poll(queue, buffer) == (queue.drop_first(), b, Some(d)));
        let rest = queue.drop_first();
        assert forall|i: int| 0 <= i < rest.len() implies 0 < (#[trigger] rest[i]).len()
            <= DATAGRAM_CAPACITY by {
            assert(rest[i] == queue[i + 1]);
        }
        lemma_stream_keeps_every_datagram_in_order(rest, b, (passes - 1) as nat);
        assert(delivered(queue, buffer, passes) == seq![d] + delivered(rest, b, (passes - 1) as nat));
        assert(seq![d] + rest =~= queue);
    }
}

} // verus!
