//! The storage port: byte-addressable, length-tracking stores keyed by a
//! logical store name.
//!
//! Each store tracks its own length as the source of truth for bounds
//! checks: a write extends the tracked length to `offset + data.len()` when
//! it reaches past the end, and a read past the tracked length is rejected
//! before any byte is returned. Reads issued after a write on the same store
//! observe that write.

use vstd::math::max;
use vstd::prelude::*;

verus! {

/// Why a storage operation was rejected.
#[derive(Clone, Copy, Debug, PartialEq, Eq, Structural)]
pub enum StorageError {
    /// A read reached past the tracked length of the store.
    OutOfBounds,
}

/// The contents of a store after writing `data` at `offset`: bytes under the
/// write take their new value, bytes before keep their old one, and any gap
/// between the old end and `offset` is zero-filled.
pub open spec fn write_spec(s: Seq<u8>, offset: int, data: Seq<u8>) -> Seq<u8> {
    Seq::new(
        max(s.len() as int, offset + data.len()) as nat,
        |i: int|
            if offset <= i < offset + data.len() {
                data[i - offset]
            } else if i < s.len() {
                s[i]
            } else {
                0u8
            },
    )
}

/// The contents of a store after deleting `length` bytes at `offset`: a
/// delete reaching the end of the store shrinks it to `offset`; a delete
/// strictly inside the store zeroes the range; a delete past the end is a
/// no-op.
pub open spec fn del_spec(s: Seq<u8>, offset: int, length: int) -> Seq<u8> {
    if offset >= s.len() {
        s
    } else if offset + length >= s.len() {
        s.subrange(0, offset)
    } else {
        Seq::new(s.len(), |i: int| if offset <= i < offset + length { 0u8 } else { s[i] })
    }
}

/// The contents of a store after resizing it to `new_length`: bytes past the
/// new end are discarded, and growth is zero-padded.
pub open spec fn truncate_spec(s: Seq<u8>, new_length: int) -> Seq<u8> {
    Seq::new(new_length as nat, |i: int| if i < s.len() { s[i] } else { 0u8 })
}

/// One logical store: a named byte string whose length is tracked locally
/// and trusted for bounds checks.
#[derive(Debug)]
pub struct RandomAccessProxy {
    id: String,
    length: u64,
    contents: Vec<u8>,
}

impl View for RandomAccessProxy {
    type V = Seq<u8>;

    closed spec fn view(&self) -> Seq<u8> {
        self.contents@
    }
}

impl RandomAccessProxy {
    /// The logical store name this store was created under.
    pub closed spec fn id(&self) -> Seq<char> {
        self.id@
    }

    /// The tracked length agrees with the bytes held.
    pub closed spec fn well_formed(&self) -> bool {
        self.length as int == self.contents@.len()
    }

    /// Create an empty store under the name `id`.
    pub fn new(id: String) -> (s: Self)
        ensures
            s.well_formed(),
            s@ == Seq::<u8>::empty(),
            s.id() == id@,
    {
        RandomAccessProxy { id, length: 0, contents: Vec::new() }
    }

    /// The tracked length of the store.
    pub fn len(&self) -> (r: u64)
        requires
            self.well_formed(),
        ensures
            r as int == self@.len(),
    {
        self.length
    }

    /// Whether the store holds no bytes.
    pub fn is_empty(&self) -> (r: bool)
        requires
            self.well_formed(),
        ensures
            r == (self@.len() == 0),
    {
        self.length == 0
    }

    /// Flush buffered data. The store keeps every byte in memory, so there
    /// is nothing to flush and the call always succeeds.
    pub fn sync_all(&self) -> (r: Result<(), StorageError>)
        ensures
            r is Ok,
    {
        Ok(())
    }

    /// Write `data` at `offset`, zero-filling any gap past the old end and
    /// extending the tracked length to cover the write.
    pub fn write(&mut self, offset: u64, data: &Vec<u8>) -> (r: Result<(), StorageError>)
        requires
            old(self).well_formed(),
            offset + data@.len() <= usize::MAX,
        ensures
            final(self).well_formed(),
            final(self)@ == write_spec(old(self)@, offset as int, data@),
            final(self).id() == old(self).id(),
            r is Ok,
    {
        let ghost s0 = self.contents@;
        let ghost id0 = self.id@;
        let off = offset as usize;
        while self.contents.len() < off
            invariant
                off == offset as int,
                self.contents@.len() <= max(s0.len() as int, off as int),
                forall|j: int|
                    0 <= j < self.contents@.len() ==> self.contents@[j] == (if j < s0.len() {
                        s0[j]
                    } else {
                        0u8
                    }),
                s0.len() <= self.contents@.len(),
                self.id@ == id0,
            decreases off - self.contents.len(),
        {
            self.contents.push(0u8);
        }
        let ghost base = self.contents@.len() as int;
        assert(base == max(s0.len() as int, off as int));
        let mut i: usize = 0;
        while i < data.len()
            invariant
                0 <= i <= data@.len(),
                off == offset as int,
                off + data@.len() <= usize::MAX,
                base == max(s0.len() as int, off as int),
                self.contents@.len() == max(base, off + i),
                forall|j: int|
                    0 <= j < self.contents@.len() ==> self.contents@[j] == (if off <= j < off + i {
                        data@[j - off]
                    } else if j < s0.len() {
                        s0[j]
                    } else {
                        0u8
                    }),
                self.id@ == id0,
            decreases data@.len() - i,
        {
            let pos = off + i;
            if pos < self.contents.len() {
                self.contents[pos] = data[i];
            } else {
                assert(pos == self.contents@.len());
                self.contents.push(data[i]);
            }
            i = i + 1;
        }
        assert(self.contents@ =~= write_spec(s0, offset as int, data@));
        self.length = self.contents.len() as u64;
        Ok(())
    }

    /// Read `length` bytes at `offset`. Fails with `OutOfBounds` exactly
    /// when the range reaches past the tracked length; otherwise returns the
    /// full range, never a short read.
    pub fn read(&self, offset: u64, length: u64) -> (r: Result<Vec<u8>, StorageError>)
        requires
            self.well_formed(),
        ensures
            r is Ok <==> offset + length <= self@.len(),
            (r matches Ok(v) ==> v@ == self@.subrange(offset as int, offset as int + length as int)),
            (r matches Err(e) ==> e == StorageError::OutOfBounds),
    {
        if length > self.length || offset > self.length - length {
            return Err(StorageError::OutOfBounds);
        }
        let total = self.contents.len();
        assert(offset + length <= total as int);
        let off = offset as usize;
        let n = length as usize;
        let mut out: Vec<u8> = Vec::new();
        let mut i: usize = 0;
        while i < n
            invariant
                0 <= i <= n,
                off + n <= total as int,
                total as int == self.contents@.len(),
                off == offset as int,
                n == length as int,
                self.well_formed(),
                out@ == self.contents@.subrange(off as int, off + i),
            decreases n - i,
        {
            out.push(self.contents[off + i]);
            assert(out@ =~= self.contents@.subrange(off as int, off + i + 1));
            i = i + 1;
        }
        Ok(out)
    }

    /// Delete `length` bytes at `offset`: shrink the store when the range
    /// reaches its end, zero the range when it lies strictly inside.
    pub fn del(&mut self, offset: u64, length: u64) -> (r: Result<(), StorageError>)
        requires
            old(self).well_formed(),
        ensures
            final(self).well_formed(),
            final(self)@ == del_spec(old(self)@, offset as int, length as int),
            final(self).id() == old(self).id(),
            r is Ok,
    {
        let ghost s0 = self.contents@;
        let ghost id0 = self.id@;
        let total = self.contents.len();
        assert(total as int == s0.len());
        if offset >= self.length {
            return Ok(());
        }
        if self.length - offset <= length {
            self.contents.truncate(offset as usize);
            self.length = offset;
            return Ok(());
        }
        let off = offset as usize;
        let n = length as usize;
        let mut i: usize = 0;
        while i < n
            invariant
                0 <= i <= n,
                off == offset as int,
                n == length as int,
                off + n < s0.len(),
                s0.len() <= usize::MAX,
                self.contents@.len() == s0.len(),
                self.length as int == s0.len(),
                forall|j: int|
                    0 <= j < self.contents@.len() ==> self.contents@[j] == (if off <= j < off + i {
                        0u8
                    } else {
                        s0[j]
                    }),
                self.id@ == id0,
            decreases n - i,
        {
            self.contents[off + i] = 0u8;
            i = i + 1;
        }
        assert(self.contents@ =~= del_spec(s0, offset as int, length as int));
        Ok(())
    }

    /// Resize the store to `new_length`, discarding bytes from the end or
    /// zero-padding it.
    pub fn truncate(&mut self, new_length: u64) -> (r: Result<(), StorageError>)
        requires
            old(self).well_formed(),
            new_length <= usize::MAX,
        ensures
            final(self).well_formed(),
            final(self)@ == truncate_spec(old(self)@, new_length as int),
            final(self).id() == old(self).id(),
            r is Ok,
    {
        let ghost s0 = self.contents@;
        let ghost id0 = self.id@;
        let target = new_length as usize;
        if new_length <= self.length {
            self.contents.truncate(target);
        } else {
            while self.contents.len() < target
                invariant
                    s0.len() <= self.contents@.len() <= target as int,
                    forall|j: int|
                        0 <= j < self.contents@.len() ==> self.contents@[j] == (if j < s0.len() {
                            s0[j]
                        } else {
                            0u8
                        }),
                    self.id@ == id0,
                decreases target - self.contents.len(),
            {
                self.contents.push(0u8);
            }
        }
        assert(self.contents@ =~= truncate_spec(s0, new_length as int));
        self.length = new_length;
        Ok(())
    }
}

/// Law: writing `data` at `offset` and immediately reading `data.len()`
/// bytes back from `offset` on the same store returns exactly `data`.
pub proof fn lemma_write_then_read(s: Seq<u8>, offset: int, data: Seq<u8>)
    requires
        0 <= offset,
    ensures
        offset + data.len() <= write_spec(s, offset, data).len(),
        write_spec(s, offset, data).subrange(offset, offset + data.len()) == data,
{
    assert(write_spec(s, offset, data).subrange(offset, offset + data.len()) =~= data);
}

/// The logical store names of a log: its Merkle tree, entry payloads,
/// bitfield, and operation log.
#[derive(Clone, Copy, Debug, PartialEq, Eq, Structural)]
pub enum Store {
    Tree,
    Data,
    Bitfield,
    Oplog,
}

/// The textual name a store is keyed by in the backend.
pub open spec fn store_name(which: Store) -> Seq<char> {
    match which {
        Store::Tree => "tree"@,
        Store::Data => "data"@,
        Store::Bitfield => "bitfield"@,
        Store::Oplog => "oplog"@,
    }
}

impl Store {
    /// The textual name of this store.
    pub fn name(&self) -> (r: String)
        ensures
            r@ == store_name(*self),
    {
        match self {
            Store::Tree => String::from_str("tree"),
            Store::Data => String::from_str("data"),
            Store::Bitfield => String::from_str("bitfield"),
            Store::Oplog => String::from_str("oplog"),
        }
    }
}

/// The four stores a log keeps its state in, one per logical store name.
pub struct WasmStorage {
    tree: RandomAccessProxy,
    data: RandomAccessProxy,
    bitfield: RandomAccessProxy,
    oplog: RandomAccessProxy,
}

impl WasmStorage {
    /// The store kept under the name `which`.
    pub closed spec fn store_spec(&self, which: Store) -> RandomAccessProxy {
        match which {
            Store::Tree => self.tree,
            Store::Data => self.data,
            Store::Bitfield => self.bitfield,
            Store::Oplog => self.oplog,
        }
    }

    /// Every store is well formed and keyed under its own name.
    pub open spec fn well_formed(&self) -> bool {
        forall|which: Store|
            #![trigger self.store_spec(which)]
            self.store_spec(which).well_formed() && self.store_spec(which).id() == store_name(
                which,
            )
    }

    /// Create the four stores of a log, all empty.
    pub fn new_proxy() -> (s: Self)
        ensures
            s.well_formed(),
            forall|which: Store| #![trigger s.store_spec(which)] s.store_spec(which)@ == Seq::<u8>::empty(),
    {
        let s = WasmStorage {
            tree: RandomAccessProxy::new(Store::Tree.name()),
            data: RandomAccessProxy::new(Store::Data.name()),
            bitfield: RandomAccessProxy::new(Store::Bitfield.name()),
            oplog: RandomAccessProxy::new(Store::Oplog.name()),
        };
        assert forall|which: Store| #![trigger s.store_spec(which)]
            s.store_spec(which).well_formed() && s.store_spec(which).id() == store_name(which)
                && s.store_spec(which)@ == Seq::<u8>::empty() by {
            match which {
                Store::Tree => {},
                Store::Data => {},
                Store::Bitfield => {},
                Store::Oplog => {},
            }
        }
        s
    }

    /// Borrow the store kept under the name `which`.
    pub fn store(&self, which: Store) -> (r: &RandomAccessProxy)
        ensures
            *r == self.store_spec(which),
    {
        match which {
            Store::Tree => &self.tree,
            Store::Data => &self.data,
            Store::Bitfield => &self.bitfield,
            Store::Oplog => &self.oplog,
        }
    }

    /// Mutably borrow the store kept under the name `which`; the other
    /// stores are untouched.
    pub fn store_mut(&mut self, which: Store) -> (r: &mut RandomAccessProxy)
        ensures
            *r == old(self).store_spec(which),
            final(self).store_spec(which) == *final(r),
            forall|other: Store|
                #![trigger final(self).store_spec(other)]
                other != which ==> final(self).store_spec(other) == old(self).store_spec(other),
    {
        match which {
            Store::Tree => &mut self.tree,
            Store::Data => &mut self.data,
            Store::Bitfield => &mut self.bitfield,
            Store::Oplog => &mut self.oplog,
        }
    }
}

} // verus!
