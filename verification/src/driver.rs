//! The replication driver's decisions.
//!
//! The driver consumes transport lifecycle events. Everything it decides is
//! a pure function of the registry and the event: a handshake is
//! informational, a discovery announcement for a registered log asks the
//! transport to open a channel for that log's key, and an opened channel for
//! a registered log starts a peer session. Running the event loop and
//! talking to the transport are the caller's work.

use crate::registry::{lookup, HypercoreStore};
use vstd::prelude::*;

verus! {

/// A transport lifecycle event, as the driver sees it.
#[derive(Debug, PartialEq, Eq)]
pub enum ProtocolEvent {
    /// The transport handshake completed.
    Handshake,
    /// The remote announced interest in the log with this discovery
    /// identifier.
    DiscoveryKey(Vec<u8>),
    /// A channel was opened for the log with this discovery identifier.
    Channel(Vec<u8>),
    /// The channel for this discovery identifier was closed.
    Close(Vec<u8>),
}

/// What the driver does in response to an event.
#[derive(Debug, PartialEq, Eq)]
pub enum DriverAction {
    /// Nothing: the event is informational, or no log is registered for it.
    Ignore,
    /// Ask the transport to open a channel for the log with this public
    /// key.
    OpenChannel(Vec<u8>),
    /// Start a peer session for the registered log with this public key.
    StartSession(Vec<u8>),
}

/// Copy a byte string.
fn copy_bytes(v: &Vec<u8>) -> (r: Vec<u8>)
    ensures
        r@ == v@,
{
    let mut r: Vec<u8> = Vec::new();
    let mut i: usize = 0;
    while i < v.len()
        invariant
            0 <= i <= v@.len(),
            r@ == v@.take(i as int),
        decreases v@.len() - i,
    {
        r.push(v[i]);
        assert(r@ =~= v@.take(i + 1));
        i = i + 1;
    }
    assert(r@ =~= v@);
    r
}

/// Decide what to do with one transport event: open a channel for a
/// registered discovery announcement, start a session for a channel opened
/// on a registered log, and ignore everything else.
pub fn handle_event(store: &HypercoreStore, event: &ProtocolEvent) -> (a: DriverAction)
    ensures
        match event {
            ProtocolEvent::Handshake => a == DriverAction::Ignore,
            ProtocolEvent::Close(_) => a == DriverAction::Ignore,
            ProtocolEvent::DiscoveryKey(d) => match lookup(store.entries_spec(), d@) {
                Some(w) => a matches DriverAction::OpenChannel(k) && k@ == w.key_spec(),
                None => a == DriverAction::Ignore,
            },
            ProtocolEvent::Channel(d) => match lookup(store.entries_spec(), d@) {
                Some(w) => a matches DriverAction::StartSession(k) && k@ == w.key_spec(),
                None => a == DriverAction::Ignore,
            },
        },
{
    match event {
        ProtocolEvent::Handshake => DriverAction::Ignore,
        ProtocolEvent::Close(_) => DriverAction::Ignore,
        ProtocolEvent::DiscoveryKey(d) => match store.get(d) {
            Some(w) => DriverAction::OpenChannel(copy_bytes(w.key())),
            None => {
                proof {
                    crate::registry::lemma_lookup_unregistered(store.entries_spec(), d@);
                }
                DriverAction::Ignore
            },
        },
        ProtocolEvent::Channel(d) => match store.get(d) {
            Some(w) => DriverAction::StartSession(copy_bytes(w.key())),
            None => {
                proof {
                    crate::registry::lemma_lookup_unregistered(store.entries_spec(), d@);
                }
                DriverAction::Ignore
            },
        },
    }
}

} // verus!
