//! The decisions a session makes at the start of a transfer.

use crate::streams::StreamMap;
use crate::transfer::{chunk_at, chunk_count, chunks_view, concat, split_chunks, Reassembly};
use vstd::prelude::*;

verus! {

/// How a send on a handle proceeds: the stream half, taken out of its map
/// for the transfer, and the chunks to write to it in order.
pub struct SendPlan<S> {
    pub stream: S,
    pub chunks: Vec<Vec<u8>>,
}

/// Starts a send of `data` on `handle`. An unknown handle needs no transfer:
/// the result is `None` and the map is left as it was.
pub fn plan_send<S>(streams: &mut StreamMap<S>, handle: u64, data: &[u8]) -> (r: Option<SendPlan<S>>)
    ensures
        !old(streams)@.contains_key(handle) ==> r.is_none() && final(streams)@ == old(streams)@,
        old(streams)@.contains_key(handle) ==> final(streams)@ == old(streams)@.remove(handle)
            && match r {
            Some(plan) => {
                &&& plan.stream == old(streams)@[handle]
                &&& plan.chunks.len() == chunk_count(data@.len())
                &&& concat(chunks_view(plan.chunks@)) == data@
                &&& forall|i: int|
                    0 <= i < plan.chunks.len() ==> #[trigger] plan.chunks[i]@ == chunk_at(data@, i)
            },
            None => false,
        },
{
    match streams.take(handle) {
        None => {
            assert(old(streams)@.remove(handle) =~= old(streams)@);
            None
        },
        Some(stream) => Some(SendPlan { stream, chunks: split_chunks(data) }),
    }
}

/// How a receive on a handle proceeds.
pub enum ReceiveStart<R> {
    /// Read the stream half, taken out of its map, into the buffer.
    Read(R, Reassembly),
    /// Nothing to read: this is the whole payload.
    Done(Vec<u8>),
}

/// Starts a receive on `handle`. An unknown handle has received nothing: the
/// payload is empty at once, and the map is left as it was.
pub fn start_receive<R>(streams: &mut StreamMap<R>, handle: u64) -> (r: ReceiveStart<R>)
    ensures
        !old(streams)@.contains_key(handle) ==> final(streams)@ == old(streams)@ && match r {
            ReceiveStart::Done(payload) => payload@ == Seq::<u8>::empty(),
            ReceiveStart::Read(..) => false,
        },
        old(streams)@.contains_key(handle) ==> final(streams)@ == old(streams)@.remove(handle)
            && match r {
            ReceiveStart::Read(stream, buffer) => stream == old(streams)@[handle] && buffer.wf()
                && buffer@ == Seq::<u8>::empty() && buffer.chunks() == Seq::<Seq<u8>>::empty(),
            ReceiveStart::Done(..) => false,
        },
{
    match streams.take(handle) {
        None => {
            assert(old(streams)@.remove(handle) =~= old(streams)@);
            ReceiveStart::Done(Vec::new())
        },
        Some(stream) => ReceiveStart::Read(stream, Reassembly::new()),
    }
}

} // verus!
