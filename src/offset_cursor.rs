//! A cursor into another buffer that starts at an offset.
use vstd::prelude::*;

use crate::bytes::Bytes;
use crate::bytes_read::{ahead, has_ahead, read_effect, rest, ByteRegion, BytesRead, ReadError};
use crate::bytes_seek::{seek_effect, zero_extended, BytesSeek, SeekError};
use crate::bytes_write::{overwrite, write_effect, BytesWrite, WriteError};

verus! {

/// A cursor which holds an offset: its position `0` and the start of its slices
/// lie `offset` bytes into the inner value.
#[derive(Debug, Clone, Copy, PartialEq, Eq, Hash)]
pub struct OffsetCursor<T> {
    // the offset gets applied to the inner
    // position
    offset: usize,
    inner: T,
}

impl<T> OffsetCursor<T> {
    /// The offset.
    pub closed spec fn spec_offset(&self) -> usize {
        self.offset
    }

    /// The inner value.
    pub closed spec fn spec_inner(&self) -> T {
        self.inner
    }

    /// Wraps `inner`, whose first `offset` bytes the wrapper hides. The inner
    /// position moves forward by `offset`, so the wrapper starts at the position
    /// the inner value had; that new inner position must be within reach.
    pub fn new(inner: T, offset: usize) -> (r: Self) where T: BytesRead + BytesSeek
        requires
            inner.wf(),
            inner.pos() + offset <= inner.max_len(),
        ensures
            r.wf(),
            r.spec_offset() == offset,
            seek_effect(inner, r.spec_inner(), inner.pos() + offset, Ok(())),
            r.pos() == inner.pos(),
    {
        let mut inner = inner;
        proof {
            inner.lemma_wf();
        }
        let pos = inner.position();
        inner.seek(pos + offset);
        Self { inner, offset }
    }

    /// Replaces the offset, keeping the position of the wrapper; the new inner
    /// position must be within reach.
    pub fn set_offset(&mut self, offset: usize) where T: BytesSeek
        requires
            (*old(self)).wf(),
            (*old(self)).pos() + offset <= (*old(self)).spec_inner().max_len(),
        ensures
            (*final(self)).wf(),
            (*final(self)).spec_offset() == offset,
            (*final(self)).pos() == (*old(self)).pos(),
            seek_effect(
                (*old(self)).spec_inner(),
                (*final(self)).spec_inner(),
                (*old(self)).pos() + offset,
                Ok(()),
            ),
    {
        proof {
            self.inner.lemma_wf();
        }
        let prev_pos = self.inner.position() - self.offset;
        self.inner.seek(prev_pos + offset);
        self.offset = offset;
    }

    /// Returns the inner value as a reference.
    pub fn inner(&self) -> (r: &T)
        ensures
            *r == self.spec_inner(),
    {
        &self.inner
    }

    /// Returns the inner value as a mutable reference.
    /// Shrinking the inner length or moving its position before the offset
    /// leaves the wrapper inconsistent.
    pub fn inner_mut(&mut self) -> (r: &mut T)
        ensures
            *r == (*old(self)).spec_inner(),
            (*final(self)).spec_inner() == *final(r),
            (*final(self)).spec_offset() == (*old(self)).spec_offset(),
    {
        &mut self.inner
    }

    /// Returns the inner value, discarding the offset.
    pub fn into_inner(self) -> (r: T)
        ensures
            r == self.spec_inner(),
    {
        self.inner
    }
}

impl<T: ByteRegion> ByteRegion for OffsetCursor<T> {
    open spec fn data(&self) -> Seq<u8> {
        self.spec_inner().data().subrange(
            self.spec_offset() as int,
            self.spec_inner().data().len() as int,
        )
    }

    open spec fn pos(&self) -> int {
        self.spec_inner().pos() - self.spec_offset()
    }

    open spec fn max_len(&self) -> int {
        self.spec_inner().max_len() - self.spec_offset()
    }

    open spec fn wf(&self) -> bool {
        self.spec_inner().wf() && self.spec_offset() <= self.spec_inner().pos()
    }

    proof fn lemma_wf(&self) {
        self.inner.lemma_wf();
    }
}

impl<T: BytesRead> BytesRead for OffsetCursor<T> {
    fn as_slice(&self) -> (r: &[u8]) {
        proof {
            self.inner.lemma_wf();
        }
        let all = self.inner.as_slice();
        vstd::slice::slice_subrange(all, self.offset, all.len())
    }

    fn remaining(&self) -> (r: &[u8]) {
        proof {
            self.inner.lemma_wf();
            assert(rest(*self) =~= rest(self.inner));
        }
        self.inner.remaining()
    }

    fn try_read(&mut self, len: usize) -> (r: Result<&[u8], ReadError>)
        ensures
            read_effect((*old(self)).spec_inner(), (*final(self)).spec_inner(), len as int, r is Ok),
            (*final(self)).spec_offset() == (*old(self)).spec_offset(),
    {
        proof {
            self.inner.lemma_wf();
            if has_ahead(self.inner, len as int) {
                assert(ahead(*self, len as int) =~= ahead(self.inner, len as int));
            }
        }
        self.inner.try_read(len)
    }

    fn read(&mut self, len: usize) -> (r: &[u8])
        ensures
            read_effect((*old(self)).spec_inner(), (*final(self)).spec_inner(), len as int, true),
            (*final(self)).spec_offset() == (*old(self)).spec_offset(),
    {
        self.try_read(len).expect("failed to read")
    }

    fn peek(&self, len: usize) -> (r: Option<&[u8]>) {
        proof {
            self.inner.lemma_wf();
            if has_ahead(self.inner, len as int) {
                assert(ahead(*self, len as int) =~= ahead(self.inner, len as int));
            }
        }
        self.inner.peek(len)
    }
}

impl<T: BytesSeek> BytesSeek for OffsetCursor<T> {
    fn position(&self) -> (r: usize) {
        self.inner.position() - self.offset
    }

    fn max_position(&self) -> (r: usize) {
        proof {
            self.inner.lemma_wf();
        }
        self.inner.max_position() - self.offset
    }

    /// Sets the position, counted from the offset.
    ///
    /// ## Fails
    /// Where the inner value fails to seek.
    fn try_seek(&mut self, pos: usize) -> (r: Result<(), SeekError>)
        ensures
            (*final(self)).spec_offset() == (*old(self)).spec_offset(),
            r is Ok ==> seek_effect(
                (*old(self)).spec_inner(),
                (*final(self)).spec_inner(),
                (*old(self)).spec_offset() + pos,
                Ok(()),
            ),
            r is Err ==> {
                &&& (*final(self)).spec_inner().data() == (*old(self)).spec_inner().data()
                &&& (*final(self)).spec_inner().pos() == (*old(self)).spec_inner().pos()
            },
    {
        proof {
            self.inner.lemma_wf();
        }
        let ghost before = *self;
        if pos <= usize::MAX - self.offset {
            match self.inner.try_seek(self.offset + pos) {
                Ok(()) => {
                    proof {
                        let d = before.inner.data();
                        let off = before.offset as int;
                        assert(zero_extended(d, off + pos).subrange(
                            off,
                            zero_extended(d, off + pos).len() as int,
                        ) =~= zero_extended(d.subrange(off, d.len() as int), pos as int));
                    }
                    Ok(())
                },
                Err(e) => Err(SeekError(e.0 - self.offset)),
            }
        } else {
            Err(SeekError(self.inner.max_position() - self.offset))
        }
    }

    /// Sets the position, counted from the offset; it must be within reach.
    fn seek(&mut self, pos: usize)
        ensures
            (*final(self)).spec_offset() == (*old(self)).spec_offset(),
            seek_effect(
                (*old(self)).spec_inner(),
                (*final(self)).spec_inner(),
                (*old(self)).spec_offset() + pos,
                Ok(()),
            ),
    {
        self.try_seek(pos).expect("failed to seek")
    }
}

impl<T: BytesWrite> BytesWrite for OffsetCursor<T> {
    fn as_mut(&mut self) -> (r: &mut [u8]) {
        proof {
            self.inner.lemma_wf();
        }
        let offset = self.offset;
        let all = self.inner.as_mut();
        let (_, tail) = all.split_at_mut(offset);
        tail
    }

    fn as_bytes(&self) -> (r: Bytes<'_>) {
        proof {
            self.inner.lemma_wf();
        }
        let bytes = self.inner.as_bytes();
        let all = bytes.inner();
        Bytes::new(0, vstd::slice::slice_subrange(all, self.offset, all.len()))
    }

    fn remaining_mut(&mut self) -> (r: &mut [u8]) {
        proof {
            self.inner.lemma_wf();
        }
        self.inner.remaining_mut()
    }

    fn try_write(&mut self, slice: &[u8]) -> (r: Result<(), WriteError>)
        ensures
            write_effect((*old(self)).spec_inner(), (*final(self)).spec_inner(), slice@, r is Ok),
            (*final(self)).spec_offset() == (*old(self)).spec_offset(),
    {
        proof {
            self.inner.lemma_wf();
            let d = self.inner.data();
            let off = self.offset as int;
            let p = self.inner.pos();
            let w = overwrite(d, p, slice@);
            assert(w.subrange(off, w.len() as int) =~= overwrite(
                d.subrange(off, d.len() as int),
                p - off,
                slice@,
            ));
        }
        self.inner.try_write(slice)
    }

    fn write(&mut self, slice: &[u8])
        ensures
            write_effect((*old(self)).spec_inner(), (*final(self)).spec_inner(), slice@, true),
            (*final(self)).spec_offset() == (*old(self)).spec_offset(),
    {
        self.try_write(slice).expect("failed to write")
    }
}

} // verus!
