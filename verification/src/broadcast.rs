//! The server's broadcast core: what each event does to the registry, and
//! the round of writes that relays one message to every other peer.

use crate::registry::{addresses, fanout, not_at, without, Entry, PeerAddr, Registry};
use crate::seq_facts::lemma_filter_members;
use vstd::prelude::*;

verus! {

/// Everything that reaches the broadcast core through its channel.
pub enum ServerEvent<H> {
    /// A peer connected from this address, with this handle of its
    /// connection.
    ClientConnected(PeerAddr, H),
    /// The peer at this address is gone.
    ClientDisconnected(PeerAddr),
    /// The peer at this address sent these bytes.
    NewMessage(PeerAddr, Vec<u8>),
}

/// `entries` after the peer at `addr` connected with `handle`: unchanged
/// where the address is registered already.
pub open spec fn joined<H>(entries: Seq<Entry<H>>, addr: PeerAddr, handle: H) -> Seq<Entry<H>> {
    if addresses(entries).contains(addr) {
        entries
    } else {
        entries.push(Entry { addr, handle })
    }
}

/// `entries` without the peers in `failed`.
pub open spec fn settled<H>(entries: Seq<Entry<H>>, failed: Seq<PeerAddr>) -> Seq<Entry<H>>
    decreases failed.len(),
{
    if failed.len() == 0 {
        entries
    } else {
        without(settled(entries, failed.drop_last()), failed.last())
    }
}

/// One round of writes: the bytes of one message on their way to every peer
/// but their author.
pub struct Broadcast {
    recipients: Vec<PeerAddr>,
    next: usize,
    failed: Vec<PeerAddr>,
    bytes: Vec<u8>,
}

/// What a `Broadcast` holds.
pub struct BroadcastView {
    /// The peers that are still to be written to, the next one first.
    pub remaining: Seq<PeerAddr>,
    /// The peers to which the write failed.
    pub failed: Seq<PeerAddr>,
    /// The bytes to write, as they came.
    pub bytes: Seq<u8>,
}

impl BroadcastView {
    /// The round after the write to the next peer was tried. A failed write
    /// marks that peer and no other, and the round goes on with the rest.
    pub open spec fn recorded(self, delivered: bool) -> BroadcastView {
        if self.remaining.len() == 0 {
            self
        } else {
            BroadcastView {
                remaining: self.remaining.drop_first(),
                failed: if delivered {
                    self.failed
                } else {
                    self.failed.push(self.remaining[0])
                },
                bytes: self.bytes,
            }
        }
    }

    /// The round after as many writes as `outcomes` holds, each with its
    /// outcome.
    pub open spec fn after(self, outcomes: Seq<bool>) -> BroadcastView
        decreases outcomes.len(),
    {
        if outcomes.len() == 0 {
            self
        } else {
            self.recorded(outcomes[0]).after(outcomes.drop_first())
        }
    }
}

impl View for Broadcast {
    type V = BroadcastView;

    closed spec fn view(&self) -> BroadcastView {
        BroadcastView {
            remaining: self.recipients@.skip(self.next as int),
            failed: self.failed@,
            bytes: self.bytes@,
        }
    }
}

impl Broadcast {
    #[verifier::type_invariant]
    spec fn in_range(self) -> bool {
        self.next <= self.recipients@.len()
    }

    /// Plans the round that relays `bytes` from `author` to every other
    /// peer in `registry`.
    pub fn begin<H>(registry: &Registry<H>, author: PeerAddr, bytes: Vec<u8>) -> (round: Broadcast)
        ensures
            round@ == (BroadcastView {
                remaining: fanout(registry.peers(), author),
                failed: Seq::empty(),
                bytes: bytes@,
            }),
    {
        let recipients = registry.recipients(author);
        assert(recipients@.skip(0) =~= recipients@);
        Broadcast { recipients, next: 0, failed: Vec::new(), bytes }
    }

    /// The peer to write to next, if any is left.
    pub fn next_recipient(&self) -> (next: Option<PeerAddr>)
        ensures
            match next {
                Some(p) => self@.remaining.len() > 0 && p == self@.remaining[0],
                None => self@.remaining.len() == 0,
            },
    {
        proof {
            use_type_invariant(self);
        }
        if self.next < self.recipients.len() {
            Some(self.recipients[self.next])
        } else {
            None
        }
    }

    /// The bytes to write to each peer.
    pub fn bytes(&self) -> (bytes: &[u8])
        ensures
            bytes@ == self@.bytes,
    {
        self.bytes.as_slice()
    }

    /// Takes in whether the write to the next peer succeeded.
    pub fn record(&mut self, delivered: bool)
        ensures
            final(self)@ == old(self)@.recorded(delivered),
    {
        proof {
            use_type_invariant(&*self);
        }
        if self.next < self.recipients.len() {
            if !delivered {
                let peer = self.recipients[self.next];
                let mut failed = Vec::new();
                std::mem::swap(&mut failed, &mut self.failed);
                failed.push(peer);
                self.failed = failed;
            }
            self.next = self.next + 1;
            assert(self@.remaining =~= old(self)@.remaining.drop_first());
        }
    }

    /// Ends the round: every peer to which the write failed leaves
    /// `registry`, as if it had disconnected.
    pub fn settle<H>(self, registry: &mut Registry<H>)
        ensures
            final(registry)@ == settled(old(registry)@, self@.failed),
    {
        let mut i: usize = 0;
        while i < self.failed.len()
            invariant
                i <= self.failed@.len(),
                registry@ == settled(old(registry)@, self.failed@.take(i as int)),
            decreases self.failed@.len() - i,
        {
            let _ = registry.disconnect(self.failed[i]);
            i += 1;
            assert(self.failed@.take(i as int).drop_last() =~= self.failed@.take(i - 1));
        }
        assert(self.failed@.take(i as int) =~= self.failed@);
    }
}

/// Handles one event of the broadcast core. A connection and a
/// disconnection change the registry and start no round; a message leaves
/// the registry as it is and starts the round that relays its bytes.
pub fn process<H>(registry: &mut Registry<H>, event: ServerEvent<H>) -> (round: Option<Broadcast>)
    ensures
        match event {
            ServerEvent::ClientConnected(addr, handle) => round is None && final(registry)@
                == joined(old(registry)@, addr, handle),
            ServerEvent::ClientDisconnected(addr) => round is None && final(registry)@ == without(
                old(registry)@,
                addr,
            ),
            ServerEvent::NewMessage(author, bytes) => final(registry)@ == old(registry)@
                && round is Some && round->Some_0@ == (BroadcastView {
                remaining: fanout(old(registry).peers(), author),
                failed: Seq::empty(),
                bytes: bytes@,
            }),
        },
{
    match event {
        ServerEvent::ClientConnected(addr, handle) => {
            let _ = registry.connect(addr, handle);
            None
        },
        ServerEvent::ClientDisconnected(addr) => {
            let _ = registry.disconnect(addr);
            None
        },
        ServerEvent::NewMessage(author, bytes) => Some(Broadcast::begin(registry, author, bytes)),
    }
}

/// Broadcast exclusion: a message goes to every registered peer but its
/// author, to each once, and never back to the author.
pub proof fn lemma_broadcast_excludes_author(peers: Seq<PeerAddr>, author: PeerAddr)
    requires
        peers.no_duplicates(),
    ensures
        !fanout(peers, author).contains(author),
        forall|p: PeerAddr| #[trigger]
            fanout(peers, author).contains(p) <==> peers.contains(p) && p != author,
        fanout(peers, author).no_duplicates(),
{
    lemma_filter_members(peers, crate::registry::other_than(author));
}

/// Whether, among the first writes of a round to `remaining`, one to `p`
/// failed, where `outcomes` holds the outcome of each.
pub open spec fn failed_among(remaining: Seq<PeerAddr>, outcomes: Seq<bool>, p: PeerAddr) -> bool {
    exists|i: int| 0 <= i < outcomes.len() && #[trigger] remaining[i] == p && !outcomes[i]
}

/// A round goes on whatever its writes come to: after any number of them the
/// peers behind are still to be written to, the bytes are the same, and the
/// peers marked are those marked before and those whose write failed.
pub proof fn lemma_round_goes_on(round: BroadcastView, outcomes: Seq<bool>)
    requires
        outcomes.len() <= round.remaining.len(),
    ensures
        round.after(outcomes).remaining == round.remaining.skip(outcomes.len() as int),
        round.after(outcomes).bytes == round.bytes,
        forall|p: PeerAddr| #[trigger]
            round.after(outcomes).failed.contains(p) <==> round.failed.contains(p) || failed_among(
                round.remaining,
                outcomes,
                p,
            ),
    decreases outcomes.len(),
{
    if outcomes.len() == 0 {
        assert(round.remaining.skip(0) =~= round.remaining);
    } else {
        let step = round.recorded(outcomes[0]);
        let rest = outcomes.drop_first();
        lemma_round_goes_on(step, rest);
        let end = round.after(outcomes);
        assert(end == step.after(rest));
        assert(step.remaining.skip(rest.len() as int) =~= round.remaining.skip(
            outcomes.len() as int,
        ));
        assert forall|p: PeerAddr| #[trigger]
            end.failed.contains(p) <==> round.failed.contains(p) || failed_among(
                round.remaining,
                outcomes,
                p,
            ) by {
            let first = round.remaining[0];
            if failed_among(step.remaining, rest, p) {
                let i = choose|i: int|
                    0 <= i < rest.len() && #[trigger] step.remaining[i] == p && !rest[i];
                assert(round.remaining[i + 1] == p && !outcomes[i + 1]);
            }
            if failed_among(round.remaining, outcomes, p) {
                let i = choose|i: int|
                    0 <= i < outcomes.len() && #[trigger] round.remaining[i] == p && !outcomes[i];
                if i > 0 {
                    assert(step.remaining[i - 1] == p && !rest[i - 1]);
                } else {
                    assert(step.failed == round.failed.push(first));
                    assert(step.failed[round.failed.len() as int] == p);
                }
            }
            if step.failed.contains(p) && !round.failed.contains(p) {
                let k = choose|k: int| 0 <= k < step.failed.len() && step.failed[k] == p;
                if outcomes[0] {
                } else {
                    if k < round.failed.len() {
                        assert(round.failed[k] == p);
                    }
                    assert(round.remaining[0] == p && !outcomes[0]);
                }
            }
            if round.failed.contains(p) {
                let k = choose|k: int| 0 <= k < round.failed.len() && round.failed[k] == p;
                assert(step.failed[k] == p);
            }
        }
    }
}

/// Taking one peer out of the entries takes its address, and no other, out
/// of the addresses.
pub proof fn lemma_without_members<H>(entries: Seq<Entry<H>>, addr: PeerAddr)
    ensures
        forall|p: PeerAddr| #[trigger]
            addresses(without(entries, addr)).contains(p) <==> addresses(entries).contains(p) && p
                != addr,
{
    let kept = without(entries, addr);
    lemma_filter_members(entries, not_at::<H>(addr));
    assert forall|p: PeerAddr| #[trigger]
        addresses(kept).contains(p) <==> addresses(entries).contains(p) && p != addr by {
        if addresses(kept).contains(p) {
            let k = choose|k: int| 0 <= k < addresses(kept).len() && addresses(kept)[k] == p;
            assert(kept.contains(kept[k]));
            assert(entries.contains(kept[k]));
            let j = choose|j: int| 0 <= j < entries.len() && entries[j] == kept[k];
            assert(addresses(entries)[j] == p);
        }
        if addresses(entries).contains(p) && p != addr {
            let j = choose|j: int|
                0 <= j < addresses(entries).len() && addresses(entries)[j] == p;
            assert(entries.contains(entries[j]));
            assert(kept.contains(entries[j]));
            let k = choose|k: int| 0 <= k < kept.len() && kept[k] == entries[j];
            assert(addresses(kept)[k] == p);
        }
    }
}

/// Settling a round takes the marked peers, and no others, out of the
/// registry.
pub proof fn lemma_settled_members<H>(entries: Seq<Entry<H>>, failed: Seq<PeerAddr>)
    ensures
        forall|p: PeerAddr| #[trigger]
            addresses(settled(entries, failed)).contains(p) <==> addresses(entries).contains(p)
                && !failed.contains(p),
    decreases failed.len(),
{
    if failed.len() > 0 {
        let front = failed.drop_last();
        lemma_settled_members(entries, front);
        lemma_without_members(settled(entries, front), failed.last());
        assert forall|p: PeerAddr| #[trigger]
            addresses(settled(entries, failed)).contains(p) <==> addresses(entries).contains(p)
                && !failed.contains(p) by {
            if front.contains(p) {
                let k = choose|k: int| 0 <= k < front.len() && front[k] == p;
                assert(failed[k] == p);
            }
            if failed.contains(p) && p != failed.last() {
                let k = choose|k: int| 0 <= k < failed.len() && failed[k] == p;
                assert(front[k] == p);
            }
            if p == failed.last() {
                assert(failed[failed.len() - 1] == p);
            }
        }
    }
}

/// Partial failure isolation: in a round that relays a message from
/// `author`, every write is tried whatever became of the writes before it,
/// and when the round is settled the registry has lost the peers to which
/// the write failed, and no other peer.
pub proof fn lemma_failed_write_is_isolated<H>(
    entries: Seq<Entry<H>>,
    author: PeerAddr,
    bytes: Seq<u8>,
    outcomes: Seq<bool>,
)
    requires
        addresses(entries).no_duplicates(),
        outcomes.len() == fanout(addresses(entries), author).len(),
    ensures
        ({
            let plan = fanout(addresses(entries), author);
            let start = BroadcastView { remaining: plan, failed: Seq::empty(), bytes };
            let end = start.after(outcomes);
            &&& forall|i: int|
                0 <= i < plan.len() ==> {
                    let before = #[trigger] start.after(outcomes.take(i));
                    before.remaining.len() > 0 && before.remaining[0] == plan[i] && before.bytes
                        == bytes
                }
            &&& end.remaining.len() == 0
            &&& forall|i: int|
                0 <= i < plan.len() ==> (end.failed.contains(#[trigger] plan[i]) <==> !outcomes[i])
            &&& forall|p: PeerAddr| #[trigger]
                addresses(settled(entries, end.failed)).contains(p) <==> addresses(
                    entries,
                ).contains(p) && !end.failed.contains(p)
        }),
{
    let plan = fanout(addresses(entries), author);
    let start = BroadcastView { remaining: plan, failed: Seq::empty(), bytes };
    let end = start.after(outcomes);
    lemma_broadcast_excludes_author(addresses(entries), author);
    lemma_round_goes_on(start, outcomes);
    lemma_settled_members(entries, end.failed);
    assert forall|i: int| 0 <= i < plan.len() implies {
        let before = #[trigger] start.after(outcomes.take(i));
        before.remaining.len() > 0 && before.remaining[0] == plan[i] && before.bytes == bytes
    } by {
        lemma_round_goes_on(start, outcomes.take(i));
    }
    assert forall|i: int| 0 <= i < plan.len() implies (end.failed.contains(#[trigger] plan[i])
        <==> !outcomes[i]) by {
        if failed_among(plan, outcomes, plan[i]) {
            let j = choose|j: int|
                0 <= j < outcomes.len() && #[trigger] plan[j] == plan[i] && !outcomes[j];
            assert(j == i);
        }
        if !outcomes[i] {
            assert(failed_among(plan, outcomes, plan[i]));
        }
    }
}

} // verus!
