//! The table of connected clients: at most one entry per address, each
//! holding the channel on which that client is answered.

use vstd::prelude::*;
use crate::address::ClientAddr;

verus! {

/// The map that a list of (address, channel) entries stands for: later
/// entries win over earlier ones for the same address.
pub open spec fn entries_map<S>(entries: Seq<(ClientAddr, S)>) -> Map<ClientAddr, S>
    decreases entries.len(),
{
    if entries.len() == 0 {
        Map::empty()
    } else {
        entries_map(entries.drop_last()).insert(entries.last().0, entries.last().1)
    }
}

/// No address occurs twice among the entries.
pub open spec fn distinct_addresses<S>(entries: Seq<(ClientAddr, S)>) -> bool {
    forall|i: int, j: int|
        0 <= i < entries.len() && 0 <= j < entries.len() && i != j ==> #[trigger] entries[i].0
            != #[trigger] entries[j].0
}

/// Dropping the last entry keeps addresses distinct.
proof fn lemma_drop_last_distinct<S>(entries: Seq<(ClientAddr, S)>)
    requires
        distinct_addresses(entries),
        entries.len() > 0,
    ensures
        distinct_addresses(entries.drop_last()),
{
    let rest = entries.drop_last();
    assert forall|a: int, b: int|
        0 <= a < rest.len() && 0 <= b < rest.len() && a != b implies #[trigger] rest[a].0
        != #[trigger] rest[b].0 by {
        assert(rest[a] == entries[a] && rest[b] == entries[b]);
    }
}

/// An address is mapped exactly when some entry holds it.
proof fn lemma_entries_map_dom<S>(entries: Seq<(ClientAddr, S)>, address: ClientAddr)
    ensures
        entries_map(entries).dom().contains(address) <==> exists|i: int|
            0 <= i < entries.len() && #[trigger] entries[i].0 == address,
    decreases entries.len(),
{
    if entries.len() > 0 {
        let rest = entries.drop_last();
        lemma_entries_map_dom(rest, address);
        if exists|i: int| 0 <= i < rest.len() && #[trigger] rest[i].0 == address {
            let i = choose|i: int| 0 <= i < rest.len() && #[trigger] rest[i].0 == address;
            assert(entries[i].0 == address);
        }
        if exists|i: int| 0 <= i < entries.len() && #[trigger] entries[i].0 == address {
            let i = choose|i: int| 0 <= i < entries.len() && #[trigger] entries[i].0 == address;
            if i < entries.len() - 1 {
                assert(rest[i].0 == address);
            }
        }
    }
}

/// With distinct addresses, each entry's address maps to that entry's channel.
proof fn lemma_entries_map_value<S>(entries: Seq<(ClientAddr, S)>, i: int)
    requires
        distinct_addresses(entries),
        0 <= i < entries.len(),
    ensures
        entries_map(entries).dom().contains(entries[i].0),
        entries_map(entries)[entries[i].0] == entries[i].1,
    decreases entries.len(),
{
    if i < entries.len() - 1 {
        let rest = entries.drop_last();
        lemma_drop_last_distinct(entries);
        lemma_entries_map_value(rest, i);
        assert(rest[i] == entries[i]);
        assert(entries[i].0 != entries[entries.len() - 1].0);
    }
}

/// Appending an entry maps its address to its channel.
proof fn lemma_entries_map_push<S>(entries: Seq<(ClientAddr, S)>, entry: (ClientAddr, S))
    ensures
        entries_map(entries.push(entry)) == entries_map(entries).insert(entry.0, entry.1),
{
    assert(entries.push(entry).drop_last() =~= entries);
}

/// Removing the entry at `i` unmaps its address and keeps the rest.
proof fn lemma_entries_map_remove<S>(entries: Seq<(ClientAddr, S)>, i: int)
    requires
        distinct_addresses(entries),
        0 <= i < entries.len(),
    ensures
        distinct_addresses(entries.remove(i)),
        entries_map(entries.remove(i)) == entries_map(entries).remove(entries[i].0),
{
    let after = entries.remove(i);
    let gone = entries[i].0;
    assert forall|a: int, b: int|
        0 <= a < after.len() && 0 <= b < after.len() && a != b implies #[trigger] after[a].0
        != #[trigger] after[b].0 by {
        let a2 = if a < i { a } else { a + 1 };
        let b2 = if b < i { b } else { b + 1 };
        assert(after[a] == entries[a2] && after[b] == entries[b2]);
    }
    let lhs = entries_map(after);
    let rhs = entries_map(entries).remove(gone);
    assert forall|k: ClientAddr| #[trigger] lhs.dom().contains(k) <==> rhs.dom().contains(k) by {
        lemma_entries_map_dom(after, k);
        lemma_entries_map_dom(entries, k);
        if lhs.dom().contains(k) {
            let j = choose|j: int| 0 <= j < after.len() && #[trigger] after[j].0 == k;
            let j2 = if j < i { j } else { j + 1 };
            assert(entries[j2].0 == k);
            assert(k != gone);
        }
        if rhs.dom().contains(k) {
            let j = choose|j: int| 0 <= j < entries.len() && #[trigger] entries[j].0 == k;
            assert(j != i);
            let j1 = if j < i { j } else { j - 1 };
            assert(after[j1].0 == k);
        }
    }
    assert forall|k: ClientAddr| #[trigger] lhs.dom().contains(k) implies lhs[k] == rhs[k] by {
        lemma_entries_map_dom(after, k);
        let j = choose|j: int| 0 <= j < after.len() && #[trigger] after[j].0 == k;
        let j2 = if j < i { j } else { j + 1 };
        assert(after[j] == entries[j2]);
        lemma_entries_map_value(after, j);
        lemma_entries_map_value(entries, j2);
    }
    assert(lhs =~= rhs);
}

/// The connected clients, each with the channel it is answered on.
pub struct ClientRegistry<S> {
    entries: Vec<(ClientAddr, S)>,
}

impl<S> View for ClientRegistry<S> {
    type V = Map<ClientAddr, S>;

    closed spec fn view(&self) -> Map<ClientAddr, S> {
        entries_map(self.entries@)
    }
}

impl<S> ClientRegistry<S> {
    /// The registry's invariant: one entry per address.
    pub closed spec fn wf(&self) -> bool {
        distinct_addresses(self.entries@)
    }

    /// A registry with no clients.
    pub fn new() -> (registry: Self)
        ensures
            registry.wf(),
            registry@ == Map::<ClientAddr, S>::empty(),
    {
        ClientRegistry { entries: Vec::new() }
    }

    /// The number of registered clients.
    pub fn len(&self) -> (n: usize)
        requires
            self.wf(),
        ensures
            n == self@.len(),
    {
        proof {
            self.lemma_len();
        }
        self.entries.len()
    }

    proof fn lemma_len(&self)
        requires
            self.wf(),
        ensures
            self@.dom().finite(),
            self@.len() == self.entries@.len(),
    {
        lemma_entries_map_finite_len(self.entries@);
    }

    /// Where `address` sits among the entries, if anywhere.
    fn position(&self, address: &ClientAddr) -> (found: Option<usize>)
        ensures
            match found {
                Some(i) => i < self.entries@.len() && self.entries@[i as int].0 == *address,
                None => forall|i: int|
                    0 <= i < self.entries@.len() ==> #[trigger] self.entries@[i].0 != *address,
            },
    {
        let mut i: usize = 0;
        while i < self.entries.len()
            invariant
                i <= self.entries@.len(),
                forall|j: int| 0 <= j < i ==> #[trigger] self.entries@[j].0 != *address,
            decreases self.entries@.len() - i,
        {
            if self.entries[i].0 == *address {
                return Some(i);
            }
            i = i + 1;
        }
        None
    }

    /// The channel registered for `address`, if any.
    pub fn get(&self, address: &ClientAddr) -> (found: Option<&S>)
        requires
            self.wf(),
        ensures
            match found {
                Some(sender) => self@.contains_key(*address) && *sender == self@[*address],
                None => !self@.contains_key(*address),
            },
    {
        proof {
            lemma_entries_map_dom(self.entries@, *address);
        }
        match self.position(address) {
            Some(i) => {
                proof {
                    lemma_entries_map_value(self.entries@, i as int);
                }
                Some(&self.entries[i].1)
            },
            None => None,
        }
    }

    /// Registers `sender` for `address`, replacing and handing back the
    /// channel registered for it before, if any.
    pub fn insert(&mut self, address: ClientAddr, sender: S) -> (previous: Option<S>)
        requires
            old(self).wf(),
        ensures
            final(self).wf(),
            final(self)@ == old(self)@.insert(address, sender),
            previous == (if old(self)@.contains_key(address) {
                Some(old(self)@[address])
            } else {
                None::<S>
            }),
    {
        proof {
            lemma_entries_map_dom(self.entries@, address);
        }
        let ghost before = self.entries@;
        match self.position(&address) {
            Some(i) => {
                proof {
                    lemma_entries_map_value(before, i as int);
                    lemma_entries_map_remove(before, i as int);
                }
                let (_, prev) = self.entries.remove(i);
                let ghost middle = self.entries@;
                proof {
                    lemma_entries_map_dom(middle, address);
                    lemma_entries_map_push(middle, (address, sender));
                }
                self.entries.push((address, sender));
                proof {
                    self.lemma_push_keeps_distinct(middle, address, sender);
                    assert(entries_map(middle).insert(address, sender) =~= entries_map(
                        before,
                    ).insert(address, sender));
                }
                Some(prev)
            },
            None => {
                proof {
                    lemma_entries_map_push(before, (address, sender));
                }
                self.entries.push((address, sender));
                proof {
                    self.lemma_push_keeps_distinct(before, address, sender);
                }
                None
            },
        }
    }

    proof fn lemma_push_keeps_distinct(&self, before: Seq<(ClientAddr, S)>, address: ClientAddr, sender: S)
        requires
            distinct_addresses(before),
            forall|i: int| 0 <= i < before.len() ==> #[trigger] before[i].0 != address,
            self.entries@ == before.push((address, sender)),
        ensures
            self.wf(),
    {
        let after = self.entries@;
        assert forall|a: int, b: int|
            0 <= a < after.len() && 0 <= b < after.len() && a != b implies #[trigger] after[a].0
            != #[trigger] after[b].0 by {
            if a < before.len() && b < before.len() {
                assert(after[a] == before[a] && after[b] == before[b]);
            } else if a < before.len() {
                assert(after[a] == before[a]);
            } else {
                assert(after[b] == before[b]);
            }
        }
    }

    /// Unregisters `address`, handing back the channel it had, if any.
    pub fn remove(&mut self, address: &ClientAddr) -> (previous: Option<S>)
        requires
            old(self).wf(),
        ensures
            final(self).wf(),
            final(self)@ == old(self)@.remove(*address),
            previous == (if old(self)@.contains_key(*address) {
                Some(old(self)@[*address])
            } else {
                None::<S>
            }),
    {
        proof {
            lemma_entries_map_dom(self.entries@, *address);
        }
        let ghost before = self.entries@;
        match self.position(address) {
            Some(i) => {
                proof {
                    lemma_entries_map_value(before, i as int);
                    lemma_entries_map_remove(before, i as int);
                }
                let (_, prev) = self.entries.remove(i);
                Some(prev)
            },
            None => {
                assert(entries_map(before).remove(*address) =~= entries_map(before));
                None
            },
        }
    }
}

/// With distinct addresses the map is finite and has one key per entry.
proof fn lemma_entries_map_finite_len<S>(entries: Seq<(ClientAddr, S)>)
    requires
        distinct_addresses(entries),
    ensures
        entries_map(entries).dom().finite(),
        entries_map(entries).len() == entries.len(),
    decreases entries.len(),
{
    if entries.len() > 0 {
        let rest = entries.drop_last();
        lemma_drop_last_distinct(entries);
        lemma_entries_map_finite_len(rest);
        lemma_entries_map_dom(rest, entries.last().0);
        if entries_map(rest).dom().contains(entries.last().0) {
            let j = choose|j: int| 0 <= j < rest.len() && #[trigger] rest[j].0 == entries.last().0;
            assert(entries[j].0 == entries[entries.len() - 1].0);
        }
    }
}

} // verus!
