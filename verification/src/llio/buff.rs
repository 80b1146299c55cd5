//! A byte buffer with a read position and a write position: bytes are
//! appended at the write position and consumed from the read position.

use vstd::prelude::*;

verus! {

/// Calls `Vec::capacity`, which std documents to be at least the vector's
/// length. How much more it is depends on the allocator, so no more is
/// stated.
#[verifier::external_body]
fn capacity_of(v: &Vec<u8>) -> (c: usize)
    ensures
        c >= v.len(),
{
    v.capacity()
}

/// A sequence of `n` zero bytes.
pub open spec fn zeros(n: nat) -> Seq<u8> {
    Seq::new(n, |i: int| 0u8)
}

/// A byte buffer: `storage()[read_pos()..write_pos()]` holds the bytes written
/// and not yet read; `storage()[write_pos()..]` is free room for writing.
pub struct Buff {
    data: Vec<u8>,
    readpos: usize,
    limit: usize,
}

impl Buff {
    /// Every byte of the buffer's storage.
    pub closed spec fn storage(&self) -> Seq<u8> {
        self.data@
    }

    /// Index of the next byte to read.
    pub closed spec fn read_pos(&self) -> nat {
        self.readpos as nat
    }

    /// Index at which the next byte is written.
    pub closed spec fn write_pos(&self) -> nat {
        self.limit as nat
    }

    /// The read position never passes the write position, which never
    /// passes the end of the storage.
    pub open spec fn wf(&self) -> bool {
        self.read_pos() <= self.write_pos() <= self.storage().len()
    }

    /// The bytes written and not yet read.
    pub open spec fn readable(&self) -> Seq<u8> {
        self.storage().subrange(self.read_pos() as int, self.write_pos() as int)
    }

    /// Number of bytes of storage.
    pub open spec fn size(&self) -> nat {
        self.storage().len()
    }

    /// A buffer of `size` zero bytes, nothing written.
    pub fn with_capacity(size: usize) -> (b: Buff)
        ensures
            b.wf(),
            b.storage() == zeros(size as nat),
            b.read_pos() == 0,
            b.write_pos() == 0,
    {
        let data: Vec<u8> = vec![0u8; size];
        let b = Buff { data, readpos: 0, limit: 0 };
        assert(b.storage() =~= zeros(size as nat));
        b
    }

    /// Appends zero bytes to the storage: at least `size` of them, up to the
    /// storage's allocated capacity.
    fn grow_by(&mut self, size: usize)
        requires
            old(self).wf(),
            old(self).size() + size <= isize::MAX,
        ensures
            final(self).wf(),
            final(self).read_pos() == old(self).read_pos(),
            final(self).write_pos() == old(self).write_pos(),
            final(self).size() >= old(self).size() + size,
            final(self).storage() == old(self).storage() + zeros(
                (final(self).size() - old(self).size()) as nat,
            ),
    {
        self.data.reserve(size);
        let capacity = capacity_of(&self.data);
        let wanted = self.data.len() + size;
        let target = if capacity > wanted { capacity } else { wanted };
        let ghost old_len = self.data.len();
        while self.data.len() < target
            invariant
                old_len <= self.data.len() <= target,
                self.data@.subrange(0, old_len as int) == old(self).storage(),
                forall|i: int| old_len <= i < self.data.len() ==> #[trigger] self.data@[i] == 0u8,
                self.readpos == old(self).readpos,
                self.limit == old(self).limit,
                old_len == old(self).size(),
            decreases target - self.data.len(),
        {
            self.data.push(0u8);
            assert(self.data@.subrange(0, old_len as int) =~= old(self).storage());
        }
        assert(self.storage() =~= old(self).storage() + zeros((self.size() - old(self).size()) as nat));
    }

    /// Makes sure `size` more bytes fit after the write position. Storage is
    /// not grown: the bytes must already fit.
    pub fn ensure(&mut self, size: usize)
        requires
            old(self).wf(),
            old(self).write_pos() + size <= old(self).size(),
        ensures
            *final(self) == *old(self),
    {
        assert(self.data@.len() == self.data.len());
        if self.limit + size > self.data.len() {
            let increase = self.data.len() - self.limit - size;
            self.grow_by(increase);
        }
    }

    /// Moves the unread bytes to the front of the storage.
    fn compact(&mut self)
        requires
            old(self).wf(),
        ensures
            final(self).wf(),
            final(self).read_pos() == 0,
            final(self).readable() == old(self).readable(),
            final(self).size() == old(self).size(),
            final(self).storage().subrange(
                final(self).write_pos() as int,
                final(self).size() as int,
            ) == old(self).storage().subrange(
                final(self).write_pos() as int,
                old(self).size() as int,
            ),
    {
        let size = self.limit - self.readpos;
        let from = self.readpos;
        let mut i: usize = 0;
        while i < size
            invariant
                from + size == old(self).limit,
                old(self).wf(),
                i <= size,
                self.data@.len() == old(self).data@.len(),
                self.readpos == old(self).readpos,
                self.limit == old(self).limit,
                forall|j: int| 0 <= j < i ==> #[trigger] self.data@[j] == old(self).data@[from + j],
                forall|j: int| i <= j < self.data@.len() ==> #[trigger] self.data@[j] == old(
                    self,
                ).data@[j],
            decreases size - i,
        {
            let b = self.data[from + i];
            self.data.set(i, b);
            i = i + 1;
        }
        self.limit = size;
        self.readpos = 0;
        assert(self.readable() =~= old(self).readable());
        assert(self.storage().subrange(self.write_pos() as int, self.size() as int)
            =~= old(self).storage().subrange(self.write_pos() as int, old(self).size() as int));
    }

    /// Gets the buffer ready for writing and hands out the free room after
    /// the write position. Unread bytes are kept, moved to the front of the
    /// storage; when everything was read, both positions go back to the
    /// start; when the storage is full of unread bytes, it grows (by at least
    /// its own size).
    pub fn as_mut_slice(&mut self) -> (room: &mut [u8])
        requires
            old(self).wf(),
            Self::needs_growth(*old(self)) ==> 2 * old(self).size() <= isize::MAX,
        ensures
            final(self).wf(),
            final(self).read_pos() == 0,
            final(self).write_pos() == old(self).readable().len(),
            final(self).readable() == old(self).readable(),
            Self::needs_growth(*old(self)) ==> {
                &&& room@.len() >= old(self).size()
                &&& room@ == zeros(room@.len())
            },
            !Self::needs_growth(*old(self)) ==> room@ == old(self).storage().subrange(
                old(self).readable().len() as int,
                old(self).size() as int,
            ),
            final(self).storage() == old(self).readable() + final(room)@,
    {
        if self.readpos == self.limit {
            self.readpos = 0;
            self.limit = 0;
            assert(self.storage().subrange(0, self.size() as int) =~= self.storage());
        } else if self.readpos != 0 {
            self.compact();
        } else if self.limit == self.data.len() {
            let increase = self.limit;
            self.grow_by(increase);
            assert(self.storage().subrange(self.write_pos() as int, self.size() as int)
                =~= zeros((self.size() - old(self).size()) as nat));
        }
        let ghost mid = self.data@;
        assert(mid.subrange(0, self.limit as int) =~= old(self).readable());
        let limit = self.limit;
        let all = self.data.as_mut_slice();
        let (_, room) = all.split_at_mut(limit);
        room
    }

    /// Whether the storage is full of unread bytes, which makes
    /// `as_mut_slice` grow it.
    pub open spec fn needs_growth(b: Buff) -> bool {
        &&& b.read_pos() == 0
        &&& b.write_pos() == b.size()
        &&& b.read_pos() != b.write_pos()
    }

    /// The bytes written and not yet read.
    pub fn as_slice(&self) -> (bytes: &[u8])
        requires
            self.wf(),
        ensures
            bytes@ == self.readable(),
    {
        let all = self.data.as_slice();
        let (head, _) = all.split_at(self.limit);
        let (_, unread) = head.split_at(self.readpos);
        unread
    }

    /// Appends `data` after the unread bytes; it must fit in the storage.
    pub fn write(&mut self, data: &[u8])
        requires
            old(self).wf(),
            old(self).write_pos() + data@.len() <= old(self).size(),
        ensures
            final(self).wf(),
            final(self).read_pos() == old(self).read_pos(),
            final(self).write_pos() == (old(self).write_pos() + data@.len()) as int,
            final(self).readable() == old(self).readable() + data@,
            final(self).size() == old(self).size(),
    {
        self.ensure(data.len());
        self.unchecked_write(data);
    }

    /// Copies `data` to the write position and moves the write position past
    /// it. The room must already be there.
    pub fn unchecked_write(&mut self, data: &[u8])
        requires
            old(self).wf(),
            old(self).write_pos() + data@.len() <= old(self).size(),
        ensures
            final(self).wf(),
            final(self).read_pos() == old(self).read_pos(),
            final(self).write_pos() == (old(self).write_pos() + data@.len()) as int,
            final(self).storage() == old(self).storage().subrange(0, old(self).write_pos() as int)
                + data@ + old(self).storage().subrange(
                (old(self).write_pos() + data@.len()) as int,
                old(self).size() as int,
            ),
            final(self).readable() == old(self).readable() + data@,
    {
        let start = self.limit;
        let n = data.len();
        let mut i: usize = 0;
        while i < n
            invariant
                n == data@.len(),
                start == old(self).limit,
                start + n <= self.data.len(),
                i <= n,
                self.data@.len() == old(self).data@.len(),
                self.readpos == old(self).readpos,
                self.limit == old(self).limit,
                forall|j: int| 0 <= j < start ==> #[trigger] self.data@[j] == old(self).data@[j],
                forall|j: int| 0 <= j < i ==> #[trigger] self.data@[start + j] == data@[j],
                forall|j: int|
                    start + i <= j < self.data@.len() ==> #[trigger] self.data@[j] == old(
                        self,
                    ).data@[j],
            decreases n - i,
        {
            self.data.set(start + i, data[i]);
            i = i + 1;
        }
        let ghost expected = old(self).storage().subrange(0, old(self).write_pos() as int) + data@
            + old(self).storage().subrange(
            (old(self).write_pos() + data@.len()) as int,
            old(self).size() as int,
        );
        assert forall|k: int| 0 <= k < self.data@.len() implies #[trigger] self.data@[k]
            == expected[k] by {
            if start <= k < start + n {
                assert(self.data@[start + (k - start)] == data@[k - start]);
            }
        }
        self.advance_write(n);
        assert(self.storage() =~= old(self).storage().subrange(0, old(self).write_pos() as int)
            + data@ + old(self).storage().subrange(
            (old(self).write_pos() + data@.len()) as int,
            old(self).size() as int,
        ));
        assert(self.readable() =~= old(self).readable() + data@);
    }

    /// Moves the write position forward by `nbytes`, past bytes written
    /// into the storage by other means.
    pub fn advance_write(&mut self, nbytes: usize)
        requires
            old(self).wf(),
            old(self).write_pos() + nbytes <= old(self).size(),
        ensures
            final(self).wf(),
            final(self).storage() == old(self).storage(),
            final(self).read_pos() == old(self).read_pos(),
            final(self).write_pos() == old(self).write_pos() + nbytes,
    {
        assert(self.data@.len() == self.data.len());
        self.limit += nbytes;
    }

    /// Consumes `nbytes` of the unread bytes.
    pub fn advance_read(&mut self, nbytes: usize)
        requires
            old(self).wf(),
            old(self).read_pos() + nbytes <= old(self).write_pos(),
        ensures
            final(self).wf(),
            final(self).storage() == old(self).storage(),
            final(self).read_pos() == old(self).read_pos() + nbytes,
            final(self).write_pos() == old(self).write_pos(),
            final(self).readable() == old(self).readable().skip(nbytes as int),
    {
        self.readpos = self.readpos + nbytes;
        assert(self.readable() =~= old(self).readable().skip(nbytes as int));
    }

    /// Room in the storage beyond the unread bytes.
    pub fn remaining(&self) -> (r: usize)
        requires
            self.wf(),
        ensures
            r == self.size() - self.readable().len(),
    {
        self.data.len() - (self.limit - self.readpos)
    }
}

/// Bytes put into the room that `as_mut_slice` hands out, then committed
/// with `advance_write(n)`, follow the unread bytes: `before` is the unread
/// content when the room was handed out, `room` the room's bytes as they were
/// left, `filled` the buffer after the room was handed back, `committed` the
/// buffer after `advance_write(n)`.
pub proof fn law_fill_then_commit(before: Seq<u8>, room: Seq<u8>, filled: Buff, committed: Buff, n: nat)
    requires
        filled.wf(),
        filled.read_pos() == 0,
        filled.write_pos() == before.len(),
        filled.storage() == before + room,
        n <= room.len(),
        committed.storage() == filled.storage(),
        committed.read_pos() == filled.read_pos(),
        committed.write_pos() == filled.write_pos() + n,
    ensures
        committed.wf(),
        committed.readable() == before + room.take(n as int),
{
    assert(committed.readable() =~= before + room.take(n as int));
}

} // verus!
