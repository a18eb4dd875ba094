//! Wire message shapes produced and consumed by the synchronization engine.
//!
//! Framing and delivery are the transport's concern; these types carry only
//! the fields the state machine reads and writes.

use vstd::prelude::*;

verus! {

/// A peer's announcement of its view of the log: its fork, the length it can
/// reach, and what it believes about the other side.
#[derive(Clone, Copy, Debug, PartialEq, Eq, Structural)]
pub struct Synchronize {
    pub fork: u64,
    pub length: u64,
    pub remote_length: u64,
    pub can_upgrade: bool,
    pub uploading: bool,
    pub downloading: bool,
}

/// A request for one block of the log, together with a fixed number of
/// supporting proof nodes.
#[derive(Clone, Copy, Debug, PartialEq, Eq, Structural)]
pub struct RequestBlock {
    pub index: u64,
    pub nodes: u32,
}

/// A request to prove that the log extends over `[start, start + length)`.
#[derive(Clone, Copy, Debug, PartialEq, Eq, Structural)]
pub struct RequestUpgrade {
    pub start: u64,
    pub length: u64,
}

/// A request message: either for a single block or for an upgrade proof.
#[derive(Clone, Copy, Debug, PartialEq, Eq)]
pub struct Request {
    pub id: u64,
    pub fork: u64,
    pub block: Option<RequestBlock>,
    pub upgrade: Option<RequestUpgrade>,
}

/// The upgrade part of an inbound Data message: the remote claims the log
/// now extends to `length`.
#[derive(Clone, Copy, Debug, PartialEq, Eq, Structural)]
pub struct DataUpgrade {
    pub length: u64,
}

/// An outbound message of the session.
#[derive(Clone, Copy, Debug, PartialEq, Eq)]
pub enum Message {
    Synchronize(Synchronize),
    Request(Request),
}

/// A snapshot of the local log: fork marker, total verified length, and the
/// count of entries held contiguously from index 0.
#[derive(Clone, Copy, Debug, PartialEq, Eq, Structural)]
pub struct LogInfo {
    pub fork: u64,
    pub length: u64,
    pub contiguous_length: u64,
}

} // verus!
