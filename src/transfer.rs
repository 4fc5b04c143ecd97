//! Cutting a payload into fixed-size chunks, and putting received chunks
//! back together.

use vstd::prelude::*;
use vstd::slice::{slice_subrange, slice_to_vec};

verus! {

/// The largest number of bytes written or read in one step.
pub const CHUNK_SIZE: usize = 1024;

/// The number of chunks a payload of `len` bytes is cut into.
pub open spec fn chunk_count(len: nat) -> nat {
    ((len + CHUNK_SIZE - 1) / CHUNK_SIZE as int) as nat
}

/// The `i`-th chunk of `data`: the bytes from `i * CHUNK_SIZE` up to the next
/// multiple of `CHUNK_SIZE`, or to the end of `data`.
pub open spec fn chunk_at(data: Seq<u8>, i: int) -> Seq<u8> {
    let start = i * CHUNK_SIZE;
    let end = if start + CHUNK_SIZE <= data.len() {
        start + CHUNK_SIZE
    } else {
        data.len() as int
    };
    data.subrange(start, end)
}

/// The chunks of `data`, in order.
pub open spec fn chunks_of(data: Seq<u8>) -> Seq<Seq<u8>> {
    Seq::new(chunk_count(data.len()), |i: int| chunk_at(data, i))
}

/// The bytes of `chunks` one after the other, in order.
pub open spec fn concat(chunks: Seq<Seq<u8>>) -> Seq<u8>
    decreases chunks.len(),
{
    if chunks.len() == 0 {
        Seq::empty()
    } else {
        concat(chunks.drop_last()) + chunks.last()
    }
}

/// Cuts `data` into chunks of `CHUNK_SIZE` bytes, the last one shorter when
/// the length is not a multiple of it. An empty payload has no chunk.
pub fn split_chunks(data: &[u8]) -> (r: Vec<Vec<u8>>)
    ensures
        r.len() == chunk_count(data@.len()),
        forall|i: int| 0 <= i < r.len() ==> #[trigger] r[i]@ == chunk_at(data@, i),
        concat(chunks_view(r@)) == data@,
{
    let mut chunks: Vec<Vec<u8>> = Vec::new();
    let mut offset: usize = 0;
    while offset < data.len()
        invariant
            offset <= data.len(),
            offset == chunks.len() * CHUNK_SIZE || (offset == data.len() && chunks.len() > 0
                && (chunks.len() - 1) * CHUNK_SIZE < data.len() <= chunks.len() * CHUNK_SIZE),
            forall|i: int| 0 <= i < chunks.len() ==> #[trigger] chunks[i]@ == chunk_at(data@, i),
        decreases data.len() - offset,
    {
        let end: usize = if data.len() - offset <= CHUNK_SIZE {
            data.len()
        } else {
            offset + CHUNK_SIZE
        };
        let piece = slice_to_vec(slice_subrange(data, offset, end));
        assert(piece@ == chunk_at(data@, chunks.len() as int));
        chunks.push(piece);
        offset = end;
    }
    let n = chunks.len();
    let len = data.len();
    assert(n == chunk_count(len as nat)) by (nonlinear_arith)
        requires
            len == n * 1024 || (n > 0 && (n - 1) * 1024 < len <= n * 1024),
            chunk_count(len as nat) == (len + 1023) / 1024,
    ;
    proof {
        assert(chunks_view(chunks@) =~= chunks_of(data@));
        lemma_chunks_round_trip(data@);
    }
    chunks
}

/// Owned chunks as plain values.
pub open spec fn chunks_view(chunks: Seq<Vec<u8>>) -> Seq<Seq<u8>> {
    Seq::new(chunks.len(), |i: int| chunks[i]@)
}

/// The first `k` chunks of `data`, put together, are the first bytes of
/// `data` up to the end of chunk `k - 1`.
proof fn lemma_prefix_of_chunks(data: Seq<u8>, k: int)
    requires
        0 <= k <= chunk_count(data.len()),
    ensures
        concat(chunks_of(data).take(k)) == data.subrange(
            0,
            if k * CHUNK_SIZE <= data.len() {
                k * CHUNK_SIZE
            } else {
                data.len() as int
            },
        ),
    decreases k,
{
    let n = chunk_count(data.len());
    let len = data.len() as int;
    if k == 0 {
        assert(chunks_of(data).take(0) =~= Seq::<Seq<u8>>::empty());
        assert(data.subrange(0, 0) =~= Seq::<u8>::empty());
    } else {
        lemma_prefix_of_chunks(data, k - 1);
        let pre = chunks_of(data).take(k);
        assert(pre.drop_last() =~= chunks_of(data).take(k - 1));
        assert(pre.last() == chunk_at(data, k - 1));
        assert((k - 1) * 1024 < len) by (nonlinear_arith)
            requires
                k <= n,
                n == (len + 1023) / 1024,
                len >= 0,
        ;
        assert((k - 1) * 1024 + 1024 == k * 1024) by (nonlinear_arith);
        let start = (k - 1) * CHUNK_SIZE;
        let end = if k * CHUNK_SIZE <= len {
            k * CHUNK_SIZE
        } else {
            len
        };
        assert(data.subrange(0, start) + data.subrange(start, end) =~= data.subrange(0, end));
    }
}

/// Cutting a payload into chunks and putting the chunks back together, in
/// order, gives the payload back, whatever its length.
pub proof fn lemma_chunks_round_trip(data: Seq<u8>)
    ensures
        concat(chunks_of(data)) == data,
{
    let n = chunk_count(data.len());
    let len = data.len() as int;
    lemma_prefix_of_chunks(data, n as int);
    assert(chunks_of(data).take(n as int) =~= chunks_of(data));
    assert(len <= n * 1024) by (nonlinear_arith)
        requires
            n == (len + 1023) / 1024,
            len >= 0,
    ;
    assert(data.subrange(0, len) =~= data);
}

/// A payload sent in chunks and received as any sequence of chunks that
/// carries the same bytes in the same order is reassembled exactly: the
/// buffer after the last received chunk is the payload.
pub proof fn lemma_send_receive_round_trip(
    data: Seq<u8>,
    received: Seq<Seq<u8>>,
    buffers: Seq<Seq<u8>>,
)
    requires
        concat(received) == concat(chunks_of(data)),
        buffers.len() == received.len() + 1,
        buffers[0] == Seq::<u8>::empty(),
        forall|i: int|
            0 <= i < received.len() ==> #[trigger] buffers[i + 1] == buffers[i] + received[i],
    ensures
        buffers.last() == data,
{
    lemma_chunks_round_trip(data);
    lemma_buffers_concat(received, buffers, received.len() as int);
    assert(received.take(received.len() as int) =~= received);
}

proof fn lemma_buffers_concat(received: Seq<Seq<u8>>, buffers: Seq<Seq<u8>>, k: int)
    requires
        buffers.len() == received.len() + 1,
        buffers[0] == Seq::<u8>::empty(),
        forall|i: int|
            0 <= i < received.len() ==> #[trigger] buffers[i + 1] == buffers[i] + received[i],
        0 <= k <= received.len(),
    ensures
        buffers[k] == concat(received.take(k)),
    decreases k,
{
    if k == 0 {
        assert(received.take(0) =~= Seq::<Seq<u8>>::empty());
    } else {
        let j = k - 1;
        lemma_buffers_concat(received, buffers, j);
        assert(buffers[j + 1] == buffers[j] + received[j]);
        assert(received.take(k).drop_last() =~= received.take(j));
    }
}

/// The bytes received so far on one stream.
pub struct Reassembly {
    buffer: Vec<u8>,
    received: Ghost<Seq<Seq<u8>>>,
}

impl View for Reassembly {
    type V = Seq<u8>;

    closed spec fn view(&self) -> Seq<u8> {
        self.buffer@
    }
}

impl Reassembly {
    /// The chunks received so far, in arrival order.
    pub closed spec fn chunks(&self) -> Seq<Seq<u8>> {
        self.received@
    }

    /// The buffer holds the received chunks one after the other.
    pub closed spec fn wf(&self) -> bool {
        self.buffer@ == concat(self.received@)
    }

    /// Nothing received yet.
    pub fn new() -> (r: Reassembly)
        ensures
            r.wf(),
            r@ == Seq::<u8>::empty(),
            r.chunks() == Seq::<Seq<u8>>::empty(),
    {
        let r = Reassembly { buffer: Vec::new(), received: Ghost(Seq::empty()) };
        assert(r.buffer@ =~= concat(r.received@));
        r
    }

    /// Appends one received chunk after the bytes received before it.
    pub fn push_chunk(&mut self, chunk: &[u8])
        requires
            old(self).wf(),
        ensures
            final(self).wf(),
            final(self)@ == old(self)@ + chunk@,
            final(self).chunks() == old(self).chunks().push(chunk@),
    {
        let mut i: usize = 0;
        while i < chunk.len()
            invariant
                i <= chunk.len(),
                self.received == old(self).received,
                self@ == old(self)@ + chunk@.subrange(0, i as int),
            decreases chunk.len() - i,
        {
            self.buffer.push(chunk[i]);
            i = i + 1;
            assert(chunk@.subrange(0, i as int) == chunk@.subrange(0, i - 1) + seq![chunk@[i - 1]]);
        }
        assert(chunk@.subrange(0, chunk@.len() as int) == chunk@);
        self.received = Ghost(self.received@.push(chunk@));
        assert(self.received@.drop_last() =~= old(self).received@);
    }

    /// The whole payload, once the peer has signalled its end: the received
    /// chunks one after the other.
    pub fn finish(self) -> (r: Vec<u8>)
        requires
            self.wf(),
        ensures
            r@ == self@,
            r@ == concat(self.chunks()),
    {
        self.buffer
    }
}

} // verus!
