//! Peer synchronization engine for a single-writer, verifiable append-only
//! log replicated between two endpoints over a message-oriented channel.
//!
//! The crate is organised around four components: a byte-addressable,
//! length-tracking storage port (`storage`), a registry mapping discovery
//! identifiers to log handles (`registry`), a per-peer synchronization state
//! machine (`peer`), and the decision logic of the replication driver
//! (`driver`). Key parsing and discovery-identifier derivation live in
//! `keys`, and the wire message shapes in `messages`.

pub mod driver;
pub mod keys;
pub mod messages;
pub mod peer;
pub mod registry;
pub mod storage;
