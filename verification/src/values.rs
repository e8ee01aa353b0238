//! The value table: byte strings stored under synthetic ids, through which
//! the result of a nested call travels back to its caller.
//!
//! A slot is written once and never freed. The caller reads it through a
//! buffer of fixed size, chunk by chunk, and `retrieve` shows that this
//! returns the stored bytes exactly, whatever their length.

use vstd::prelude::*;
use crate::protocol::{Error, Primitive};
use crate::reader::{ReadStep, ValueReader};

verus! {

/// The stored values, in the order in which they were written.
pub struct ValueTable {
    slots: Vec<Vec<u8>>,
}

/// The part of `data` that a read at `offset` puts into a buffer of
/// `capacity` bytes: what lies from `offset` on, cut to the buffer.
pub open spec fn chunk_at(data: Seq<u8>, offset: nat, capacity: nat) -> Seq<u8> {
    if offset >= data.len() {
        Seq::empty()
    } else if offset + capacity >= data.len() {
        data.subrange(offset as int, data.len() as int)
    } else {
        data.subrange(offset as int, (offset + capacity) as int)
    }
}

impl View for ValueTable {
    type V = Seq<Seq<u8>>;

    closed spec fn view(&self) -> Seq<Seq<u8>> {
        Seq::new(self.slots@.len(), |i: int| self.slots@[i]@)
    }
}

impl ValueTable {
    /// An empty table.
    pub fn new() -> (table: ValueTable)
        ensures
            table@ == Seq::<Seq<u8>>::empty(),
    {
        ValueTable { slots: Vec::new() }
    }

    /// The number of values stored.
    pub fn len(&self) -> (n: usize)
        ensures
            n == self@.len(),
    {
        self.slots.len()
    }

    /// Stores `value` in a new slot and returns the slot's id. Ids count up
    /// from zero, and no earlier slot changes.
    pub fn write(&mut self, value: Vec<u8>) -> (id: usize)
        ensures
            final(self)@ == old(self)@.push(value@),
            id == old(self)@.len(),
    {
        self.slots.push(value);
        assert(self@ =~= old(self)@.push(value@));
        self.slots.len() - 1
    }

    /// Fills the front of `buf` with what slot `id` holds from `offset` on,
    /// as far as the buffer goes, and returns the number of bytes written.
    /// The rest of the buffer is left as it was. Where no slot has the id,
    /// nothing is written and `None` is returned.
    pub fn read(&self, id: usize, offset: usize, buf: &mut [u8]) -> (written: Option<usize>)
        ensures
            id >= self@.len() ==> written is None && final(buf)@ == old(buf)@,
            id < self@.len() ==> {
                let chunk = chunk_at(self@[id as int], offset as nat, old(buf)@.len());
                &&& written == Some(chunk.len() as usize)
                &&& final(buf)@ == chunk + old(buf)@.skip(chunk.len() as int)
            },
    {
        if id >= self.slots.len() {
            return None;
        }
        let slot: &[u8] = self.slots[id].as_slice();
        let len: usize = slot.len();
        let n: usize = if offset >= len {
            0
        } else if buf.len() >= len - offset {
            len - offset
        } else {
            buf.len()
        };
        let ghost chunk = chunk_at(self@[id as int], offset as nat, old(buf)@.len());
        assert(chunk.len() == n);
        let mut i: usize = 0;
        while i < n
            invariant
                i <= n,
                n <= buf@.len(),
                n > 0 ==> offset + n <= len,
                len == slot@.len(),
                buf@.len() == old(buf)@.len(),
                forall|j: int| 0 <= j < i ==> buf@[j] == slot@[offset + j],
                forall|j: int| i <= j < buf@.len() ==> buf@[j] == old(buf)@[j],
            decreases n - i,
        {
            buf[i] = slot[offset + i];
            i += 1;
        }
        assert(buf@ =~= chunk + old(buf)@.skip(n as int));
        Some(n)
    }

    /// What `retrieve` returns: the stored bytes, or `NotFound` where no slot
    /// has the id.
    pub open spec fn retrieve_spec(self, id: usize) -> Result<Seq<u8>, Error> {
        if id < self@.len() {
            Ok(self@[id as int])
        } else {
            Err(Error::NotFound { primitive: Primitive::ReadReturnValue })
        }
    }

    /// Reads slot `id` in full through a buffer of `chunk_size` bytes, as a
    /// caller on the far side of the buffer does: one `read` per chunk, each
    /// handed to a `ValueReader`.
    ///
    /// The bytes that come out are the bytes that were stored, for every
    /// length: empty, shorter than the buffer, exactly the buffer, or many
    /// buffers and a remainder.
    pub fn retrieve(&self, id: usize, chunk_size: usize) -> (result: Result<Vec<u8>, Error>)
        requires
            0 < chunk_size <= i32::MAX,
        ensures
            match result {
                Ok(data) => self.retrieve_spec(id) == Ok::<Seq<u8>, Error>(data@),
                Err(error) => self.retrieve_spec(id) == Err::<Seq<u8>, Error>(error),
            },
    {
        let mut buf: Vec<u8> = vec![0u8; chunk_size];
        let mut reader = ValueReader::new(Primitive::ReadReturnValue);
        loop
            invariant
                0 < chunk_size <= i32::MAX,
                buf@.len() == chunk_size,
                reader@.source == Primitive::ReadReturnValue,
                id < self@.len() ==> reader@.data.len() <= self@[id as int].len() && reader@.data
                    == self@[id as int].take(reader@.data.len() as int),
                id >= self@.len() ==> reader@.data.len() == 0,
            decreases
                    (if id < self@.len() {
                        self@[id as int].len() - reader@.data.len()
                    } else {
                        0
                    }),
        {
            let offset: usize = reader.offset();
            let ghost before = buf@;
            let code: i32 = match self.read(id, offset, buf.as_mut_slice()) {
                None => -1,
                Some(written) => written as i32,
            };
            proof {
                if id < self@.len() {
                    let data = self@[id as int];
                    let chunk = chunk_at(data, offset as nat, chunk_size as nat);
                    assert(buf@.take(chunk.len() as int) == chunk);
                    if offset < data.len() {
                        assert(data.take(offset as int) + chunk == data.take(
                            offset + chunk.len(),
                        ));
                    }
                }
            }
            match reader.accept(code, buf.as_slice()) {
                ReadStep::More(next) => {
                    reader = next;
                },
                ReadStep::Done(data) => {
                    proof {
                        let stored = self@[id as int];
                        assert(data@ == stored.take(stored.len() as int));
                        assert(stored.take(stored.len() as int) == stored);
                    }
                    return Ok(data);
                },
                ReadStep::Failed(error) => {
                    return Err(error);
                },
            }
        }
    }
}

} // verus!
