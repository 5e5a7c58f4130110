//! The server's per-connection reader: which event each read on a peer's
//! socket becomes.

use crate::broadcast::ServerEvent;
use crate::read::{ReadOutcome, ReadOutcomeView};
use crate::registry::PeerAddr;
use vstd::prelude::*;

verus! {

/// What the reader of one connection does after one read.
pub struct ReaderStep<H> {
    /// The event to send to the broadcast core.
    pub event: ServerEvent<H>,
    /// Whether the reader ends after sending it.
    pub done: bool,
}

/// Whether a read brought bytes to relay.
pub open spec fn brought_bytes(outcome: ReadOutcomeView) -> bool {
    outcome matches ReadOutcomeView::Data(bytes) && bytes.len() > 0
}

/// Decides on the outcome of one read on the socket of `peer`. Bytes are
/// relayed as they came, and the reader goes on; the end of the stream and
/// every failed read report the peer as gone, and the reader ends.
pub fn reader_step<H>(peer: PeerAddr, outcome: ReadOutcome) -> (step: ReaderStep<H>)
    ensures
        step.done == !brought_bytes(outcome@),
        brought_bytes(outcome@) ==> (step.event matches ServerEvent::NewMessage(author, bytes)
            && author == peer && outcome@ == ReadOutcomeView::Data(bytes@)),
        !brought_bytes(outcome@) ==> (step.event matches ServerEvent::ClientDisconnected(addr)
            && addr == peer),
{
    match outcome {
        ReadOutcome::Data(bytes) => {
            if bytes.len() > 0 {
                ReaderStep { event: ServerEvent::NewMessage(peer, bytes), done: false }
            } else {
                ReaderStep { event: ServerEvent::ClientDisconnected(peer), done: true }
            }
        },
        _ => ReaderStep { event: ServerEvent::ClientDisconnected(peer), done: true },
    }
}

} // verus!
