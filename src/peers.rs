//! The table of sessions of a socket, one per peer address.

use vstd::prelude::*;

verus! {

/// A peer's socket address: an IPv4 address and port, or an IPv6 address,
/// port, flow label and scope.
#[derive(Clone, Copy, PartialEq, Eq, Structural, Debug, Hash)]
pub enum PeerAddr {
    V4 { ip4: u32, port: u16 },
    V6 { ip6: u128, port: u16, flowinfo: u32, scope_id: u32 },
}

/// The map that a list of entries describes, later entries winning.
pub open spec fn entries_map<V>(entries: Seq<(PeerAddr, V)>) -> Map<PeerAddr, V>
    decreases entries.len(),
{
    if entries.len() == 0 {
        Map::empty()
    } else {
        entries_map(entries.drop_last()).insert(entries.last().0, entries.last().1)
    }
}

/// No two entries share an address.
pub open spec fn unique_keys<V>(entries: Seq<(PeerAddr, V)>) -> bool {
    forall|i: int, j: int|
        0 <= i < entries.len() && 0 <= j < entries.len() && i != j ==> #[trigger] entries[i].0
            != #[trigger] entries[j].0
}

proof fn lemma_entries_map<V>(entries: Seq<(PeerAddr, V)>, a: PeerAddr)
    requires
        unique_keys(entries),
    ensures
        entries_map(entries).contains_key(a) <==> exists|i: int|
            0 <= i < entries.len() && #[trigger] entries[i].0 == a,
        forall|i: int|
            0 <= i < entries.len() && #[trigger] entries[i].0 == a ==> entries_map(entries)[a]
                == entries[i].1,
    decreases entries.len(),
{
    if entries.len() > 0 {
        let rest = entries.drop_last();
        assert forall|i: int, j: int|
            0 <= i < rest.len() && 0 <= j < rest.len() && i != j implies #[trigger] rest[i].0
            != #[trigger] rest[j].0 by {
            assert(rest[i] == entries[i] && rest[j] == entries[j]);
        }
        lemma_entries_map(rest, a);
        let last = entries.len() - 1;
        if entries[last].0 != a {
            if exists|i: int| 0 <= i < entries.len() && #[trigger] entries[i].0 == a {
                let i = choose|i: int| 0 <= i < entries.len() && #[trigger] entries[i].0 == a;
                assert(rest[i] == entries[i]);
            }
            assert forall|i: int| 0 <= i < entries.len() && #[trigger] entries[i].0 == a implies
                entries_map(entries)[a] == entries[i].1 by {
                assert(rest[i] == entries[i]);
            }
        } else {
            assert forall|i: int| 0 <= i < entries.len() && #[trigger] entries[i].0 == a implies
                entries_map(entries)[a] == entries[i].1 by {
                if i != last {
                    assert(entries[i].0 != entries[last].0);
                }
            }
        }
    }
}

/// Sessions keyed by peer address.
pub struct SessionTable<V> {
    entries: Vec<(PeerAddr, V)>,
}

impl<V> View for SessionTable<V> {
    type V = Map<PeerAddr, V>;

    closed spec fn view(&self) -> Map<PeerAddr, V> {
        entries_map(self.entries@)
    }
}

impl<V> SessionTable<V> {
    /// The entries in table order.
    pub closed spec fn entries(&self) -> Seq<(PeerAddr, V)> {
        self.entries@
    }

    /// The table is well formed: no address appears twice.
    pub closed spec fn wf(&self) -> bool {
        unique_keys(self.entries@)
    }

    /// A table without sessions.
    pub fn new() -> (r: SessionTable<V>)
        ensures
            r.wf(),
            r@ == Map::<PeerAddr, V>::empty(),
    {
        SessionTable { entries: Vec::new() }
    }

    /// The number of sessions held.
    pub fn len(&self) -> (r: usize)
        requires
            self.wf(),
        ensures
            r == self@.dom().len(),
    {
        proof {
            self.lemma_dom_len();
        }
        self.entries.len()
    }

    proof fn lemma_dom_len(&self)
        requires
            self.wf(),
        ensures
            self@.dom().len() == self.entries@.len(),
        decreases self.entries@.len(),
    {
        lemma_dom_len_of(self.entries@);
    }

    fn position(&self, addr: PeerAddr) -> (r: Option<usize>)
        requires
            self.wf(),
        ensures
            match r {
                Some(i) => i < self.entries@.len() && self.entries@[i as int].0 == addr,
                None => forall|i: int| 0 <= i < self.entries@.len() ==> self.entries@[i].0 != addr,
            },
    {
        let mut i: usize = 0;
        while i < self.entries.len()
            invariant
                i <= self.entries@.len(),
                forall|j: int| 0 <= j < i ==> self.entries@[j].0 != addr,
            decreases self.entries@.len() - i,
        {
            if self.entries[i].0 == addr {
                return Some(i);
            }
            i = i + 1;
        }
        None
    }

    /// Registers `session` under `addr`, and hands back the session that was
    /// there before, if any; the caller decides what becomes of it.
    pub fn insert(&mut self, addr: PeerAddr, session: V) -> (r: Option<V>)
        requires
            old(self).wf(),
        ensures
            final(self).wf(),
            final(self)@ == old(self)@.insert(addr, session),
            match r {
                Some(v) => old(self)@.contains_key(addr) && v == old(self)@[addr],
                None => !old(self)@.contains_key(addr),
            },
    {
        let previous = self.remove(addr);
        let ghost mid = self.entries@;
        self.entries.push((addr, session));
        assert(self.entries@.drop_last() == mid);
        proof {
            assert forall|i: int, j: int|
                0 <= i < self.entries@.len() && 0 <= j < self.entries@.len() && i != j implies #[trigger] self.entries@[i].0
                != #[trigger] self.entries@[j].0 by {
                if i < mid.len() && j < mid.len() {
                    assert(self.entries@[i] == mid[i] && self.entries@[j] == mid[j]);
                } else if i < mid.len() {
                    assert(self.entries@[i] == mid[i]);
                    assert(!entries_map(mid).contains_key(addr));
                    lemma_entries_map(mid, addr);
                } else {
                    assert(self.entries@[j] == mid[j]);
                    assert(!entries_map(mid).contains_key(addr));
                    lemma_entries_map(mid, addr);
                }
            }
        }
        previous
    }

    /// Takes the session registered under `addr` out of the table.
    pub fn remove(&mut self, addr: PeerAddr) -> (r: Option<V>)
        requires
            old(self).wf(),
        ensures
            final(self).wf(),
            final(self)@ == old(self)@.remove(addr),
            match r {
                Some(v) => old(self)@.contains_key(addr) && v == old(self)@[addr],
                None => !old(self)@.contains_key(addr),
            },
    {
        let ghost before = self.entries@;
        proof {
            lemma_entries_map(before, addr);
        }
        match self.position(addr) {
            None => {
                assert(entries_map(before).remove(addr) =~= entries_map(before));
                None
            },
            Some(i) => {
                let (_, v) = self.entries.remove(i);
                let ghost after = self.entries@;
                assert(after =~= before.remove(i as int));
                assert forall|x: int, y: int|
                    0 <= x < after.len() && 0 <= y < after.len() && x != y implies #[trigger] after[x].0
                    != #[trigger] after[y].0 by {
                    let bx = if x < i { x } else { x + 1 };
                    let by_ = if y < i { y } else { y + 1 };
                    assert(after[x] == before[bx] && after[y] == before[by_]);
                }
                assert forall|k: PeerAddr| #[trigger] entries_map(after).contains_key(k)
                    == entries_map(before).remove(addr).contains_key(k) by {
                    lemma_removed_entry(before, after, i as int, addr, k);
                }
                assert forall|k: PeerAddr| #[trigger] entries_map(after).contains_key(k) implies
                    entries_map(after)[k] == entries_map(before).remove(addr)[k] by {
                    lemma_removed_entry(before, after, i as int, addr, k);
                }
                assert(entries_map(after) =~= entries_map(before).remove(addr));
                Some(v)
            },
        }
    }

    /// Empties the table, handing back every session it held, in table order.
    pub fn drain(&mut self) -> (r: Vec<V>)
        requires
            old(self).wf(),
        ensures
            final(self).wf(),
            final(self)@ == Map::<PeerAddr, V>::empty(),
            r@ == old(self).entries().map_values(|e: (PeerAddr, V)| e.1),
            r@.len() == old(self)@.dom().len(),
            forall|a: PeerAddr| #[trigger] old(self)@.contains_key(a) ==> r@.contains(old(self)@[a]),
    {
        proof {
            lemma_dom_len_of(self.entries@);
        }
        let mut out: Vec<V> = Vec::new();
        let ghost before = self.entries@;
        let mut taken: Vec<(PeerAddr, V)> = Vec::new();
        std::mem::swap(&mut taken, &mut self.entries);
        let ghost n = taken@.len();
        while taken.len() > 0
            invariant
                taken@.len() + out@.len() == n,
                forall|j: int| 0 <= j < taken@.len() ==> taken@[j] == before[out@.len() + j],
                forall|j: int| 0 <= j < out@.len() ==> out@[j] == before[j].1,
                n == before.len(),
            decreases taken@.len(),
        {
            let (_, v) = taken.remove(0);
            out.push(v);
        }
        assert(out@ =~= before.map_values(|e: (PeerAddr, V)| e.1));
        assert forall|a: PeerAddr| #[trigger] entries_map(before).contains_key(a) implies out@.contains(
            entries_map(before)[a],
        ) by {
            lemma_entries_map(before, a);
            let i = choose|i: int| 0 <= i < before.len() && #[trigger] before[i].0 == a;
            assert(out@[i] == before[i].1);
        }
        assert(self.entries@ == Seq::<(PeerAddr, V)>::empty());
        out
    }
}

proof fn lemma_removed_entry<V>(
    before: Seq<(PeerAddr, V)>,
    after: Seq<(PeerAddr, V)>,
    i: int,
    addr: PeerAddr,
    k: PeerAddr,
)
    requires
        unique_keys(before),
        unique_keys(after),
        0 <= i < before.len(),
        before[i].0 == addr,
        after == before.remove(i),
    ensures
        entries_map(after).contains_key(k) == entries_map(before).remove(addr).contains_key(k),
        entries_map(after).contains_key(k) ==> entries_map(after)[k] == entries_map(before)[k],
{
    lemma_entries_map(before, k);
    lemma_entries_map(after, k);
    if entries_map(after).contains_key(k) {
        let x = choose|x: int| 0 <= x < after.len() && #[trigger] after[x].0 == k;
        let bx = if x < i {
            x
        } else {
            x + 1
        };
        assert(after[x] == before[bx]);
        assert(bx != i);
    }
    if entries_map(before).remove(addr).contains_key(k) {
        let b = choose|b: int| 0 <= b < before.len() && #[trigger] before[b].0 == k;
        assert(b != i);
        let x = if b < i {
            b
        } else {
            b - 1
        };
        assert(after[x] == before[b]);
    }
}

proof fn lemma_dom_len_of<V>(entries: Seq<(PeerAddr, V)>)
    requires
        unique_keys(entries),
    ensures
        entries_map(entries).dom().len() == entries.len(),
        entries_map(entries).dom().finite(),
    decreases entries.len(),
{
    if entries.len() > 0 {
        let rest = entries.drop_last();
        assert forall|i: int, j: int|
            0 <= i < rest.len() && 0 <= j < rest.len() && i != j implies #[trigger] rest[i].0
            != #[trigger] rest[j].0 by {
            assert(rest[i] == entries[i] && rest[j] == entries[j]);
        }
        lemma_dom_len_of(rest);
        let a = entries.last().0;
        lemma_entries_map(rest, a);
        assert forall|i: int| 0 <= i < rest.len() implies #[trigger] rest[i].0 != a by {
            assert(rest[i] == entries[i]);
            assert(entries[i].0 != entries[entries.len() - 1].0);
        }
        assert(!entries_map(rest).contains_key(a));
    }
}

} // verus!
