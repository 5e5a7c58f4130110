//! The server's connection registry: the peers that are connected, each with
//! the handle of its connection, in the order in which they came.

use crate::seq_facts::{lemma_filter_drops_one, lemma_filter_keeps_all, lemma_filter_push};
use vstd::prelude::*;

verus! {

/// The network address of a peer, as plain numbers.
#[derive(Clone, Copy, PartialEq, Eq, Hash, Debug, Structural)]
#[allow(inconsistent_fields)]
pub enum PeerAddr {
    /// An IPv4 address and a port.
    V4 { ip: u32, port: u16 },
    /// An IPv6 address and a port, with the flow information and the scope
    /// that belong to the address.
    V6 { ip: u128, port: u16, flowinfo: u32, scope_id: u32 },
}

/// One registered peer.
pub struct Entry<H> {
    pub addr: PeerAddr,
    pub handle: H,
}

/// The addresses of `entries`, in their order.
pub open spec fn addresses<H>(entries: Seq<Entry<H>>) -> Seq<PeerAddr> {
    entries.map_values(|e: Entry<H>| e.addr)
}

/// The test that an entry is not the one of `addr`.
pub open spec fn not_at<H>(addr: PeerAddr) -> spec_fn(Entry<H>) -> bool {
    |e: Entry<H>| e.addr != addr
}

/// The test that a peer is not `author`.
pub open spec fn other_than(author: PeerAddr) -> spec_fn(PeerAddr) -> bool {
    |p: PeerAddr| p != author
}

/// `entries` without the peer at `addr`.
pub open spec fn without<H>(entries: Seq<Entry<H>>, addr: PeerAddr) -> Seq<Entry<H>> {
    entries.filter(not_at(addr))
}

/// The peers that a message from `author` goes to: every peer but the
/// author, in the order of `peers`.
pub open spec fn fanout(peers: Seq<PeerAddr>, author: PeerAddr) -> Seq<PeerAddr> {
    peers.filter(other_than(author))
}

/// The handle under which `addr` is registered in `entries`, if it is.
pub open spec fn handle_of<H>(entries: Seq<Entry<H>>, addr: PeerAddr) -> Option<H> {
    if addresses(entries).contains(addr) {
        Some(entries[addresses(entries).index_of(addr)].handle)
    } else {
        None
    }
}

/// The set of connected peers. No address is registered twice.
pub struct Registry<H> {
    entries: Vec<Entry<H>>,
}

impl<H> View for Registry<H> {
    type V = Seq<Entry<H>>;

    closed spec fn view(&self) -> Seq<Entry<H>> {
        self.entries@
    }
}

impl<H> Registry<H> {
    #[verifier::type_invariant]
    spec fn distinct(self) -> bool {
        addresses(self.entries@).no_duplicates()
    }

    /// The addresses of the registered peers, in the order in which they
    /// were registered.
    pub open spec fn peers(&self) -> Seq<PeerAddr> {
        addresses(self@)
    }

    /// Whether `addr` is registered.
    pub open spec fn has(&self, addr: PeerAddr) -> bool {
        self.peers().contains(addr)
    }

    /// An empty registry.
    pub fn new() -> (registry: Registry<H>)
        ensures
            registry@ == Seq::<Entry<H>>::empty(),
    {
        Registry { entries: Vec::new() }
    }

    /// The number of registered peers.
    pub fn len(&self) -> (n: usize)
        ensures
            n == self@.len(),
    {
        self.entries.len()
    }

    /// The place of `addr` among the entries, if it is registered.
    fn position(&self, addr: PeerAddr) -> (found: Option<usize>)
        ensures
            self.peers().no_duplicates(),
            match found {
                Some(i) => i < self@.len() && self@[i as int].addr == addr && self.has(addr)
                    && self.peers().index_of(addr) == i,
                None => !self.has(addr),
            },
    {
        proof {
            use_type_invariant(self);
        }
        let mut i: usize = 0;
        while i < self.entries.len()
            invariant
                i <= self.entries@.len(),
                self.peers().no_duplicates(),
                forall|j: int| 0 <= j < i ==> self.entries@[j].addr != addr,
            decreases self.entries@.len() - i,
        {
            if self.entries[i].addr == addr {
                proof {
                    let peers = self.peers();
                    assert(peers[i as int] == addr);
                    assert(peers.contains(addr));
                    let k = peers.index_of(addr);
                    assert(0 <= k < peers.len() && peers[k] == addr);
                    assert(k == i);
                }
                return Some(i);
            }
            i += 1;
        }
        assert forall|j: int| 0 <= j < self.peers().len() implies self.peers()[j] != addr by {
            assert(self.peers()[j] == self.entries@[j].addr);
        }
        None
    }

    /// Whether `addr` is registered.
    pub fn contains(&self, addr: PeerAddr) -> (b: bool)
        ensures
            b == self.has(addr),
    {
        self.position(addr).is_some()
    }

    /// The handle of the connection to `addr`, if it is registered.
    pub fn handle(&self, addr: PeerAddr) -> (found: Option<&H>)
        ensures
            match found {
                Some(h) => Some(*h) == handle_of(self@, addr),
                None => handle_of(self@, addr) is None,
            },
    {
        match self.position(addr) {
            Some(i) => Some(&self.entries[i].handle),
            None => None,
        }
    }

    /// Registers the peer at `addr`. Where the address is registered
    /// already, nothing changes and the first handle stays.
    pub fn connect(&mut self, addr: PeerAddr, handle: H) -> (added: bool)
        ensures
            added == !old(self).has(addr),
            added ==> final(self)@ == old(self)@.push(Entry { addr, handle }),
            !added ==> final(self)@ == old(self)@,
    {
        proof {
            use_type_invariant(&*self);
        }
        if self.position(addr).is_some() {
            return false;
        }
        let mut entries = Vec::new();
        std::mem::swap(&mut entries, &mut self.entries);
        entries.push(Entry { addr, handle });
        proof {
            let before = addresses(old(self)@);
            let after = addresses(entries@);
            assert(after =~= before.push(addr));
            assert forall|a: int, b: int|
                0 <= a < after.len() && 0 <= b < after.len() && a != b implies after[a]
                != after[b] by {
                if a < before.len() {
                    assert(before.contains(before[a]));
                }
                if b < before.len() {
                    assert(before.contains(before[b]));
                }
            }
        }
        self.entries = entries;
        true
    }

    /// Takes the peer at `addr` out of the registry and hands back its
    /// handle. Where the address is not registered, nothing changes.
    pub fn disconnect(&mut self, addr: PeerAddr) -> (removed: Option<H>)
        ensures
            final(self)@ == without(old(self)@, addr),
            removed == handle_of(old(self)@, addr),
    {
        proof {
            use_type_invariant(&*self);
        }
        let pred = Ghost(not_at::<H>(addr));
        match self.position(addr) {
            None => {
                proof {
                    assert forall|i: int| 0 <= i < self@.len() implies (pred@)(
                        #[trigger] self@[i],
                    ) by {
                        assert(self.peers()[i] == self@[i].addr);
                        assert(self.peers().contains(self.peers()[i]));
                    }
                    lemma_filter_keeps_all(self@, pred@);
                }
                None
            },
            Some(i) => {
                let mut entries = Vec::new();
                std::mem::swap(&mut entries, &mut self.entries);
                let entry = entries.remove(i);
                proof {
                    let before = old(self)@;
                    let peers = addresses(before);
                    assert forall|j: int| 0 <= j < before.len() && j != i implies (pred@)(
                        #[trigger] before[j],
                    ) by {
                        assert(peers[j] == before[j].addr);
                        assert(peers[i as int] == before[i as int].addr);
                    }
                    lemma_filter_drops_one(before, i as int, pred@);
                    let after = addresses(entries@);
                    assert forall|a: int, b: int|
                        0 <= a < after.len() && 0 <= b < after.len() && a != b implies after[a]
                        != after[b] by {
                        let a0 = if a < i { a } else { a + 1 };
                        let b0 = if b < i { b } else { b + 1 };
                        assert(after[a] == peers[a0]);
                        assert(after[b] == peers[b0]);
                    }
                }
                self.entries = entries;
                Some(entry.handle)
            },
        }
    }

    /// The peers that a message from `author` goes to: every registered peer
    /// but the author, each once, in the order of registration.
    pub fn recipients(&self, author: PeerAddr) -> (targets: Vec<PeerAddr>)
        ensures
            targets@ == fanout(self.peers(), author),
            self.peers().no_duplicates(),
    {
        proof {
            use_type_invariant(self);
        }
        let pred = Ghost(other_than(author));
        let mut targets: Vec<PeerAddr> = Vec::new();
        let mut i: usize = 0;
        proof {
            reveal(Seq::filter);
            assert(self.peers().take(0) =~= Seq::<PeerAddr>::empty());
        }
        while i < self.entries.len()
            invariant
                i <= self.entries@.len(),
                pred@ == other_than(author),
                targets@ == self.peers().take(i as int).filter(pred@),
            decreases self.entries@.len() - i,
        {
            let addr = self.entries[i].addr;
            proof {
                lemma_filter_push(self.peers().take(i as int), addr, pred@);
                assert(self.peers().take(i as int).push(addr) =~= self.peers().take(i + 1));
            }
            if addr != author {
                targets.push(addr);
            }
            i += 1;
        }
        assert(self.peers().take(i as int) =~= self.peers());
        targets
    }
}

} // verus!
