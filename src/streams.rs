//! Local stream handles and the tables that map them to stream halves.

use std::collections::HashMap;
use vstd::prelude::*;

verus! {

broadcast use vstd::std_specs::hash::group_hash_axioms;

/// The application error code a session is closed with.
pub const CLOSE_CODE: u32 = 0;

/// The reason a session gives its peer when it is closed.
pub const CLOSE_REASON: &'static str = "done";

/// The source of stream handles of one session.
///
/// Opening and accepting a stream both draw from it, so a handle is a purely
/// local index that is never sent to the peer.
pub struct HandleCounter {
    next: u64,
}

impl HandleCounter {
    /// The handle that the next allocation returns.
    pub closed spec fn next_handle(&self) -> nat {
        self.next as nat
    }

    /// Every handle handed out so far, in the order it was handed out.
    pub closed spec fn issued(&self) -> Seq<u64> {
        Seq::new(self.next as nat, |i: int| i as u64)
    }

    /// The handles handed out by a counter are pairwise distinct and are
    /// exactly `0, 1, 2, ...` in the order they were handed out.
    pub proof fn lemma_issued_contiguous(&self)
        ensures
            self.issued().len() == self.next_handle(),
            forall|i: int| 0 <= i < self.issued().len() ==> #[trigger] self.issued()[i] == i,
            forall|i: int, j: int|
                0 <= i < j < self.issued().len() ==> #[trigger] self.issued()[i]
                    != #[trigger] self.issued()[j],
    {
    }

    /// A counter that has handed out nothing yet.
    pub fn new() -> (r: HandleCounter)
        ensures
            r.next_handle() == 0,
            r.issued() == Seq::<u64>::empty(),
    {
        proof {
            assert(HandleCounter { next: 0 }.issued() =~= Seq::<u64>::empty());
        }
        HandleCounter { next: 0 }
    }

    /// The handle that the next allocation will return.
    pub fn peek(&self) -> (r: u64)
        ensures
            r == self.next_handle(),
    {
        self.next
    }

    /// Hands out the next handle, or `None` once every `u64` has been used.
    pub fn allocate(&mut self) -> (r: Option<u64>)
        ensures
            allocated(*old(self), *final(self), r),
    {
        if self.next == u64::MAX {
            None
        } else {
            let h = self.next;
            self.next = self.next + 1;
            assert(self.issued() =~= old(self).issued().push(h));
            Some(h)
        }
    }
}

/// What one call of `allocate` does to the counter.
pub open spec fn allocated(before: HandleCounter, after: HandleCounter, r: Option<u64>) -> bool {
    if before.next_handle() < u64::MAX {
        &&& r == Some(before.next_handle() as u64)
        &&& after.next_handle() == before.next_handle() + 1
        &&& after.issued() == before.issued().push(before.next_handle() as u64)
    } else {
        &&& r.is_none()
        &&& after.next_handle() == before.next_handle()
        &&& after.issued() == before.issued()
    }
}

/// Handles returned by consecutive allocations starting from a fresh counter
/// are pairwise distinct and are exactly `0, 1, 2, ...` in order.
pub proof fn lemma_handles_contiguous(counters: Seq<HandleCounter>, handles: Seq<Option<u64>>)
    requires
        counters.len() == handles.len() + 1,
        counters[0].next_handle() == 0,
        handles.len() <= u64::MAX,
        forall|i: int|
            0 <= i < handles.len() ==> #[trigger] allocated(counters[i], counters[i + 1], handles[i]),
    ensures
        forall|i: int| 0 <= i < handles.len() ==> #[trigger] handles[i] == Some(i as u64),
        forall|i: int, j: int|
            0 <= i < j < handles.len() ==> #[trigger] handles[i] != #[trigger] handles[j],
{
    assert forall|i: int| 0 <= i < counters.len() implies #[trigger] counters[i].next_handle()
        == i by {
        lemma_counter_at(counters, handles, i);
    }
    assert forall|i: int| 0 <= i < handles.len() implies #[trigger] handles[i] == Some(
        i as u64,
    ) by {
        assert(counters[i].next_handle() == i);
        assert(allocated(counters[i], counters[i + 1], handles[i]));
    }
}

proof fn lemma_counter_at(counters: Seq<HandleCounter>, handles: Seq<Option<u64>>, i: int)
    requires
        counters.len() == handles.len() + 1,
        counters[0].next_handle() == 0,
        handles.len() <= u64::MAX,
        forall|k: int|
            0 <= k < handles.len() ==> #[trigger] allocated(counters[k], counters[k + 1], handles[k]),
        0 <= i < counters.len(),
    ensures
        counters[i].next_handle() == i,
    decreases i,
{
    if i > 0 {
        let k = i - 1;
        lemma_counter_at(counters, handles, k);
        assert(allocated(counters[k], counters[k + 1], handles[k]));
    }
}

/// The stream halves of one direction of a session, keyed by handle.
pub struct StreamMap<T> {
    streams: HashMap<u64, T>,
}

impl<T> View for StreamMap<T> {
    type V = Map<u64, T>;

    closed spec fn view(&self) -> Map<u64, T> {
        self.streams@
    }
}

impl<T> StreamMap<T> {
    /// An empty map.
    pub fn new() -> (r: StreamMap<T>)
        ensures
            r@ == Map::<u64, T>::empty(),
    {
        StreamMap { streams: HashMap::new() }
    }

    /// Whether a stream half is registered under `handle`.
    pub fn contains(&self, handle: u64) -> (r: bool)
        ensures
            r == self@.contains_key(handle),
    {
        self.streams.contains_key(&handle)
    }

    /// Takes the stream half registered under `handle` out of the map, for
    /// the duration of a transfer. An unknown handle gives `None` and leaves
    /// the map as it was.
    pub fn take(&mut self, handle: u64) -> (r: Option<T>)
        ensures
            final(self)@ == old(self)@.remove(handle),
            old(self)@.contains_key(handle) ==> r == Some(old(self)@[handle]),
            !old(self)@.contains_key(handle) ==> r.is_none(),
    {
        self.streams.remove(&handle)
    }

    /// Puts a stream half back under `handle` once a transfer is over.
    pub fn restore(&mut self, handle: u64, stream: T)
        ensures
            final(self)@ == old(self)@.insert(handle, stream),
    {
        self.streams.insert(handle, stream);
    }
}

/// Every handle in the map was handed out by the counter.
pub open spec fn issued_by<T>(counter: HandleCounter, map: Map<u64, T>) -> bool {
    forall|h: u64| #[trigger] map.contains_key(h) ==> h < counter.next_handle()
}

/// Allocates a handle and registers both halves of a new bidirectional
/// stream under it, in one step. Returns `None`, and registers nothing, only
/// once the counter is exhausted.
pub fn register_pair<S, R>(
    counter: &mut HandleCounter,
    sends: &mut StreamMap<S>,
    recvs: &mut StreamMap<R>,
    send: S,
    recv: R,
) -> (r: Option<u64>)
    requires
        issued_by(*old(counter), old(sends)@),
        issued_by(*old(counter), old(recvs)@),
    ensures
        allocated(*old(counter), *final(counter), r),
        issued_by(*final(counter), final(sends)@),
        issued_by(*final(counter), final(recvs)@),
        match r {
            Some(h) => {
                &&& !old(sends)@.contains_key(h)
                &&& !old(recvs)@.contains_key(h)
                &&& final(sends)@ == old(sends)@.insert(h, send)
                &&& final(recvs)@ == old(recvs)@.insert(h, recv)
            },
            None => final(sends)@ == old(sends)@ && final(recvs)@ == old(recvs)@,
        },
{
    match counter.allocate() {
        Some(h) => {
            sends.restore(h, send);
            recvs.restore(h, recv);
            Some(h)
        },
        None => None,
    }
}

} // verus!
