//! What can go wrong while relaying, and what each engine does about it.

use vstd::prelude::*;

verus! {

/// The failures of one frame or one connection. None of them ends the
/// process.
#[derive(Clone, Copy, PartialEq, Eq, Debug, Structural)]
pub enum ChatError {
    /// Fewer bytes than a full header, or a header whose flag names no kind
    /// of frame.
    MalformedHeader,
    /// A text payload that is not UTF-8.
    InvalidEncoding,
    /// An image payload that the image codec refused.
    InvalidImageData,
    /// A payload too long for the length field of the header.
    PayloadTooLarge,
    /// A read or a write on a socket failed.
    ConnectionIo,
    /// The task at the other end of a channel is gone.
    ChannelClosed,
}

/// The two engines that meet these failures.
#[derive(Clone, Copy, PartialEq, Eq, Debug, Structural)]
pub enum Role {
    Server,
    Client,
}

/// What an engine does after a failure.
#[derive(Clone, Copy, PartialEq, Eq, Debug, Structural)]
pub enum Reaction {
    /// Nothing was consumed: look again at the next poll.
    Retry,
    /// Log the failure and drop the one message.
    DropMessage,
    /// Log the failure, skip the one operation and go on.
    SkipOperation,
    /// Take the one peer out of the registry, as if it had disconnected.
    DisconnectPeer,
    /// Shut the task down in good order.
    Shutdown,
}

impl Reaction {
    /// Whether the engine goes on serving its connection after reacting.
    pub open spec fn keeps_running(self) -> bool {
        self != Reaction::Shutdown
    }
}

/// The reaction that each failure calls for.
pub open spec fn reaction_to(role: Role, error: ChatError) -> Reaction {
    match error {
        ChatError::MalformedHeader => Reaction::Retry,
        ChatError::InvalidEncoding => Reaction::DropMessage,
        ChatError::InvalidImageData => Reaction::DropMessage,
        ChatError::PayloadTooLarge => Reaction::DropMessage,
        ChatError::ConnectionIo => match role {
            Role::Server => Reaction::DisconnectPeer,
            Role::Client => Reaction::SkipOperation,
        },
        ChatError::ChannelClosed => Reaction::Shutdown,
    }
}

/// Decides what `role` does after `error`.
pub fn reaction(role: Role, error: ChatError) -> (r: Reaction)
    ensures
        r == reaction_to(role, error),
{
    match error {
        ChatError::MalformedHeader => Reaction::Retry,
        ChatError::InvalidEncoding => Reaction::DropMessage,
        ChatError::InvalidImageData => Reaction::DropMessage,
        ChatError::PayloadTooLarge => Reaction::DropMessage,
        ChatError::ConnectionIo => match role {
            Role::Server => Reaction::DisconnectPeer,
            Role::Client => Reaction::SkipOperation,
        },
        ChatError::ChannelClosed => Reaction::Shutdown,
    }
}

/// Only a closed channel stops an engine: every failure of a frame or of a
/// socket leaves it running.
pub proof fn lemma_only_closed_channel_stops(role: Role, error: ChatError)
    ensures
        reaction_to(role, error).keeps_running() <==> error != ChatError::ChannelClosed,
{
}

} // verus!
