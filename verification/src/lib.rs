//! A small chat relay protocol: the wire framing of text and image messages,
//! the server's connection registry and broadcast fan-out, and the decisions
//! of the client's network and input engines.
//!
//! Nothing here touches a socket, a channel or the console. Each engine is a
//! set of functions from what was observed (bytes peeked, the outcome of a
//! read, a console line, an event) to what must be done next, so that the
//! program around the library only performs the I/O.

pub mod broadcast;
pub mod error;
pub mod imaging;
pub mod input;
pub mod message;
pub mod network;
pub mod read;
pub mod reader;
pub mod registry;
pub mod relay;
mod seq_facts;
pub mod signature;
pub mod text;
pub mod wire;
