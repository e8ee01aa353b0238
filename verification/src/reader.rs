//! The buffered value reader: reassembles a byte string of any length from
//! the chunks that a fixed-size buffer can carry.
//!
//! The driver asks its source to fill the buffer from `offset()` on and hands
//! the reply, with the buffer, to `accept`. A chunk that leaves room in the
//! buffer, or an empty one, ends the value. A chunk that fills the buffer
//! asks for another read, so a value whose length is a multiple of the
//! buffer size ends with one empty read.

use vstd::prelude::*;
use crate::protocol::{Error, Primitive};

verus! {

/// The buffer size that return values and events are read with.
pub const BUF_SIZE: usize = 128;

/// A read in progress: the bytes gathered so far.
pub struct ValueReader {
    source: Primitive,
    data: Vec<u8>,
}

/// The mathematical content of a `ValueReader`.
pub struct ReaderView {
    /// The primitive that is being read from; errors are attributed to it.
    pub source: Primitive,
    /// The bytes gathered so far.
    pub data: Seq<u8>,
}

/// What one reply does to a read.
pub enum ReadStep {
    /// The buffer came back full: read again at the new offset.
    More(ValueReader),
    /// The value is complete.
    Done(Vec<u8>),
    /// The read failed.
    Failed(Error),
}

/// The mathematical content of a `ReadStep`.
pub enum ReadStepView {
    More(ReaderView),
    Done(Seq<u8>),
    Failed(Error),
}

impl View for ValueReader {
    type V = ReaderView;

    closed spec fn view(&self) -> ReaderView {
        ReaderView { source: self.source, data: self.data@ }
    }
}

impl View for ReadStep {
    type V = ReadStepView;

    open spec fn view(&self) -> ReadStepView {
        match self {
            ReadStep::More(reader) => ReadStepView::More(reader@),
            ReadStep::Done(data) => ReadStepView::Done(data@),
            ReadStep::Failed(error) => ReadStepView::Failed(*error),
        }
    }
}

/// The effect of the reply `code` on the read `r`, the buffer that the
/// source was given holding `buf` afterwards.
///
/// A negative code before any byte has arrived means that there is no value;
/// later it is a failure of the source. Zero ends the value. A positive code
/// is the number of bytes written to the front of the buffer: it cannot exceed
/// the buffer, it ends the value when it leaves room in the buffer, and it
/// asks for another read when the buffer is full.
pub open spec fn accept_spec(r: ReaderView, code: i32, buf: Seq<u8>) -> ReadStepView {
    if code < 0 {
        if r.data.len() == 0 {
            ReadStepView::Failed(Error::NotFound { primitive: r.source })
        } else {
            ReadStepView::Failed(Error::Engine { primitive: r.source, code })
        }
    } else if code == 0 {
        ReadStepView::Done(r.data)
    } else if code > buf.len() {
        ReadStepView::Failed(Error::Overrun { primitive: r.source, code })
    } else if code < buf.len() {
        ReadStepView::Done(r.data + buf.take(code as int))
    } else {
        ReadStepView::More(ReaderView { source: r.source, data: r.data + buf })
    }
}

/// Appends the first `n` bytes of `src` to `dst`.
fn append_prefix(dst: &mut Vec<u8>, src: &[u8], n: usize)
    requires
        n <= src@.len(),
    ensures
        final(dst)@ == old(dst)@ + src@.take(n as int),
{
    let mut i: usize = 0;
    while i < n
        invariant
            i <= n <= src@.len(),
            dst@ == old(dst)@ + src@.take(i as int),
        decreases n - i,
    {
        dst.push(src[i]);
        i += 1;
        assert(src@.take(i as int) == src@.take(i - 1).push(src@[i - 1]));
    }
}

impl ValueReader {
    /// Starts a read from `source`.
    pub fn new(source: Primitive) -> (reader: ValueReader)
        ensures
            reader@ == (ReaderView { source, data: Seq::empty() }),
    {
        ValueReader { source, data: Vec::new() }
    }

    /// The offset at which the next read starts: the number of bytes
    /// gathered so far.
    pub fn offset(&self) -> (offset: usize)
        ensures
            offset == self@.data.len(),
    {
        self.data.len()
    }

    /// Takes the reply to the read at `offset()`: the code that the source
    /// returned and the buffer that it was given to fill.
    pub fn accept(self, code: i32, buf: &[u8]) -> (step: ReadStep)
        ensures
            step@ == accept_spec(self@, code, buf@),
    {
        if code < 0 {
            if self.data.len() == 0 {
                ReadStep::Failed(Error::NotFound { primitive: self.source })
            } else {
                ReadStep::Failed(Error::Engine { primitive: self.source, code })
            }
        } else if code == 0 {
            ReadStep::Done(self.data)
        } else {
            let n: usize = code as usize;
            if n > buf.len() {
                ReadStep::Failed(Error::Overrun { primitive: self.source, code })
            } else {
                let mut data = self.data;
                append_prefix(&mut data, buf, n);
                if n < buf.len() {
                    ReadStep::Done(data)
                } else {
                    assert(buf@.take(n as int) == buf@);
                    ReadStep::More(ValueReader { source: self.source, data })
                }
            }
        }
    }
}

} // verus!
