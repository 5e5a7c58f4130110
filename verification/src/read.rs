//! The outcome of one read on a socket, as the engines see it.

use vstd::prelude::*;

verus! {

/// What one read on a socket came back with.
#[derive(Clone, PartialEq, Eq, Debug)]
pub enum ReadOutcome {
    /// The read returned these bytes; none means that the stream has ended.
    Data(Vec<u8>),
    /// The read was interrupted before it got anything.
    Interrupted,
    /// Nothing is there to read right now.
    WouldBlock,
    /// The read failed in another way.
    Failed,
}

/// What a `ReadOutcome` holds.
pub enum ReadOutcomeView {
    Data(Seq<u8>),
    Interrupted,
    WouldBlock,
    Failed,
}

impl View for ReadOutcome {
    type V = ReadOutcomeView;

    open spec fn view(&self) -> ReadOutcomeView {
        match self {
            ReadOutcome::Data(bytes) => ReadOutcomeView::Data(bytes@),
            ReadOutcome::Interrupted => ReadOutcomeView::Interrupted,
            ReadOutcome::WouldBlock => ReadOutcomeView::WouldBlock,
            ReadOutcome::Failed => ReadOutcomeView::Failed,
        }
    }
}

} // verus!
