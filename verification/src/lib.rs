//! A minimal multi-user chat service core: the line codec of the wire
//! protocol, the registry of connected users with its broadcast fan-out, and
//! the per-connection state machines that drive both.

pub mod client;
pub mod forwarder;
pub mod protocol;
pub mod registry;
pub mod session;
pub mod text;

pub use registry::{ChatState, JoinError, Tx};
