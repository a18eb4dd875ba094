//! The log registry: the join point between transport-level discovery and
//! the synchronization engine.
//!
//! A log handle binds a public key to its discovery identifier. The store
//! maps discovery identifiers to handles, holds at most one handle per
//! identifier, and only ever grows.

use crate::keys::{discovery_id_of, discovery_key_of};
use vstd::prelude::*;

verus! {

/// Why a handle was rejected by the store.
#[derive(Clone, Copy, Debug, PartialEq, Eq, Structural)]
pub enum RegistryError {
    /// A handle with the same discovery identifier is already registered.
    DuplicateLog,
}

/// A handle for one log: its public key and the discovery identifier
/// derived from it. The binding is established on construction and never
/// recomputed from remote input.
pub struct HypercoreWrapper {
    key: Vec<u8>,
    discovery_key: Vec<u8>,
}

impl HypercoreWrapper {
    /// The log's public key.
    pub closed spec fn key_spec(&self) -> Seq<u8> {
        self.key@
    }

    /// The log's discovery identifier.
    pub closed spec fn discovery_key_spec(&self) -> Seq<u8> {
        self.discovery_key@
    }

    /// The discovery identifier is derived from the 32-byte public key.
    pub open spec fn wf(&self) -> bool {
        self.key_spec().len() == 32 && self.discovery_key_spec() == discovery_id_of(
            self.key_spec(),
        )
    }

    /// Wrap a log given by its public key, deriving its discovery
    /// identifier.
    pub fn from_proxy_hypercore(key: Vec<u8>) -> (w: Self)
        requires
            key@.len() == 32,
        ensures
            w.wf(),
            w.key_spec() == key@,
    {
        let discovery_key = discovery_key_of(&key);
        HypercoreWrapper { key, discovery_key }
    }

    /// The log's public key.
    pub fn key(&self) -> (r: &Vec<u8>)
        ensures
            r@ == self.key_spec(),
    {
        &self.key
    }

    /// The log's discovery identifier.
    pub fn discovery_key(&self) -> (r: &Vec<u8>)
        ensures
            r@ == self.discovery_key_spec(),
    {
        &self.discovery_key
    }
}

/// Whether some handle in `s` is registered under the identifier `id`.
pub open spec fn contains_id(s: Seq<HypercoreWrapper>, id: Seq<u8>) -> bool {
    exists|i: int| 0 <= i < s.len() && s[i].discovery_key_spec() == id
}

/// The first handle in `s` registered under the identifier `id`, if any.
pub open spec fn lookup(s: Seq<HypercoreWrapper>, id: Seq<u8>) -> Option<HypercoreWrapper>
    decreases s.len(),
{
    if s.len() == 0 {
        None
    } else if s[0].discovery_key_spec() == id {
        Some(s[0])
    } else {
        lookup(s.drop_first(), id)
    }
}

/// An unregistered identifier finds nothing.
pub proof fn lemma_lookup_unregistered(s: Seq<HypercoreWrapper>, id: Seq<u8>)
    requires
        !contains_id(s, id),
    ensures
        lookup(s, id) is None,
    decreases s.len(),
{
    if s.len() > 0 {
        assert(forall|i: int|
            #![trigger s.drop_first()[i]]
            0 <= i < s.drop_first().len() ==> s.drop_first()[i] == s[i + 1]);
        lemma_lookup_unregistered(s.drop_first(), id);
    }
}

/// The first match wins: if `s[j]` carries `id` and no earlier handle does,
/// the lookup returns `s[j]`.
pub proof fn lemma_lookup_first_match(s: Seq<HypercoreWrapper>, id: Seq<u8>, j: int)
    requires
        0 <= j < s.len(),
        s[j].discovery_key_spec() == id,
        forall|k: int| 0 <= k < j ==> s[k].discovery_key_spec() != id,
    ensures
        lookup(s, id) == Some(s[j]),
    decreases j,
{
    if j > 0 {
        assert(forall|i: int|
            #![trigger s.drop_first()[i]]
            0 <= i < s.drop_first().len() ==> s.drop_first()[i] == s[i + 1]);
        lemma_lookup_first_match(s.drop_first(), id, j - 1);
    }
}

/// Law: registering a handle under a fresh identifier makes it findable
/// under exactly that identifier.
pub proof fn lemma_get_after_add(s: Seq<HypercoreWrapper>, w: HypercoreWrapper)
    requires
        !contains_id(s, w.discovery_key_spec()),
    ensures
        lookup(s.push(w), w.discovery_key_spec()) == Some(w),
{
    let s2 = s.push(w);
    assert(s2[s.len() as int] == w);
    assert(forall|k: int| 0 <= k < s.len() ==> s2[k] == s[k]);
    lemma_lookup_first_match(s2, w.discovery_key_spec(), s.len() as int);
}

/// Whether two byte strings hold the same bytes.
fn bytes_eq(a: &Vec<u8>, b: &Vec<u8>) -> (r: bool)
    ensures
        r == (a@ == b@),
{
    if a.len() != b.len() {
        return false;
    }
    let mut i: usize = 0;
    while i < a.len()
        invariant
            0 <= i <= a@.len(),
            a@.len() == b@.len(),
            forall|j: int| 0 <= j < i ==> a@[j] == b@[j],
        decreases a@.len() - i,
    {
        if a[i] != b[i] {
            return false;
        }
        i = i + 1;
    }
    assert(a@ =~= b@);
    true
}

/// The store of registered logs, keyed by discovery identifier.
pub struct HypercoreStore {
    entries: Vec<HypercoreWrapper>,
}

impl HypercoreStore {
    /// The registered handles, in registration order.
    pub closed spec fn entries_spec(&self) -> Seq<HypercoreWrapper> {
        self.entries@
    }

    /// Every handle is well formed and no two handles share a discovery
    /// identifier.
    pub open spec fn wf(&self) -> bool {
        (forall|i: int|
            0 <= i < self.entries_spec().len() ==> (#[trigger] self.entries_spec()[i]).wf())
            && (forall|i: int, j: int|
            0 <= i < j < self.entries_spec().len()
                ==> #[trigger] self.entries_spec()[i].discovery_key_spec()
                != #[trigger] self.entries_spec()[j].discovery_key_spec())
    }

    /// An empty store.
    pub fn new() -> (s: Self)
        ensures
            s.wf(),
            s.entries_spec() == Seq::<HypercoreWrapper>::empty(),
    {
        let s = HypercoreStore { entries: Vec::new() };
        assert(s.entries@ =~= Seq::<HypercoreWrapper>::empty());
        s
    }

    /// Register a handle under its discovery identifier. Fails with
    /// `DuplicateLog`, leaving the store unchanged, exactly when a handle is
    /// already registered under the same identifier.
    pub fn add(&mut self, hypercore: HypercoreWrapper) -> (r: Result<(), RegistryError>)
        requires
            old(self).wf(),
            hypercore.wf(),
        ensures
            final(self).wf(),
            contains_id(old(self).entries_spec(), hypercore.discovery_key_spec()) ==> r == Err::<
                (),
                RegistryError,
            >(RegistryError::DuplicateLog) && final(self).entries_spec() == old(
                self,
            ).entries_spec(),
            !contains_id(old(self).entries_spec(), hypercore.discovery_key_spec()) ==> r is Ok
                && final(self).entries_spec() == old(self).entries_spec().push(hypercore),
    {
        let mut i: usize = 0;
        while i < self.entries.len()
            invariant
                0 <= i <= self.entries@.len(),
                *self == *old(self),
                old(self).wf(),
                forall|j: int|
                    0 <= j < i ==> (#[trigger] self.entries@[j].discovery_key_spec())
                        != hypercore.discovery_key_spec(),
            decreases self.entries@.len() - i,
        {
            if bytes_eq(&self.entries[i].discovery_key, &hypercore.discovery_key) {
                return Err(RegistryError::DuplicateLog);
            }
            i = i + 1;
        }
        let ghost s1 = self.entries@;
        proof {
            assert(forall|j: int|
                0 <= j < s1.len() ==> (#[trigger] s1[j].discovery_key_spec())
                    != hypercore.discovery_key_spec());
        }
        self.entries.push(hypercore);
        proof {
            let s2 = self.entries@;
            assert(forall|k: int| 0 <= k < s1.len() ==> s2[k] == s1[k]);
            assert(s2[s1.len() as int] == hypercore);
            assert forall|k: int| 0 <= k < s2.len() implies (#[trigger] s2[k]).wf() by {
                if k < s1.len() {
                    assert(old(self).entries_spec()[k].wf());
                    assert(s2[k] == s1[k]);
                } else {
                    assert(s2[k] == hypercore);
                }
            }
            assert forall|a: int, b: int|
                0 <= a < b < s2.len() implies #[trigger] s2[a].discovery_key_spec()
                != #[trigger] s2[b].discovery_key_spec() by {
                if b < s1.len() {
                    assert(old(self).entries_spec()[a].discovery_key_spec() != old(
                        self,
                    ).entries_spec()[b].discovery_key_spec());
                } else {
                    assert(s2[b] == hypercore);
                    assert(s1[a].discovery_key_spec() != hypercore.discovery_key_spec());
                }
            }
        }
        Ok(())
    }

    /// Look a discovery identifier up: a pure lookup, no side effects.
    /// Returns the handle registered under it, or nothing.
    pub fn get(&self, discovery_key: &Vec<u8>) -> (r: Option<&HypercoreWrapper>)
        ensures
            match r {
                Some(w) => lookup(self.entries_spec(), discovery_key@) == Some(*w) && contains_id(
                    self.entries_spec(),
                    discovery_key@,
                ),
                None => !contains_id(self.entries_spec(), discovery_key@),
            },
    {
        let mut i: usize = 0;
        while i < self.entries.len()
            invariant
                0 <= i <= self.entries@.len(),
                forall|j: int|
                    0 <= j < i ==> (#[trigger] self.entries@[j].discovery_key_spec())
                        != discovery_key@,
            decreases self.entries@.len() - i,
        {
            if bytes_eq(&self.entries[i].discovery_key, discovery_key) {
                proof {
                    lemma_lookup_first_match(self.entries@, discovery_key@, i as int);
                }
                return Some(&self.entries[i]);
            }
            i = i + 1;
        }
        None
    }
}

} // verus!
