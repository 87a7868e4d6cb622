//! A read-only view of a borrowed slice.
use vstd::prelude::*;

use crate::bytes_read::{ByteRegion, BytesRead, BytesReadRef, ReadError};
use crate::bytes_seek::{BytesSeek, SeekError};
use crate::cursor::Cursor;

verus! {

/// A slice wrapper that implements `BytesRead`.
#[derive(Debug, Clone, Copy, PartialEq, Eq, Hash)]
pub struct Bytes<'a> {
    inner: Cursor<&'a [u8]>,
}

impl<'a> Bytes<'a> {
    /// The cursor inside.
    pub closed spec fn cursor(&self) -> Cursor<&'a [u8]> {
        self.inner
    }

    /// Creates a view of `inner` at `position`, which must not pass its end.
    pub fn new(position: usize, inner: &'a [u8]) -> (r: Self)
        requires
            position <= inner@.len(),
        ensures
            r.wf(),
            r.data() == inner@,
            r.pos() == position,
    {
        let mut cursor = Cursor::new(inner);
        cursor.seek(position);
        Self { inner: cursor }
    }

    /// Returns the inner slice with the original reference.
    pub fn inner(&self) -> (r: &'a [u8])
        requires
            self.wf(),
        ensures
            r@ == self.data(),
    {
        self.as_slice_ref()
    }
}

impl<'a> ByteRegion for Bytes<'a> {
    open spec fn data(&self) -> Seq<u8> {
        self.cursor().data()
    }

    open spec fn pos(&self) -> int {
        self.cursor().pos()
    }

    open spec fn max_len(&self) -> int {
        self.data().len() as int
    }

    open spec fn wf(&self) -> bool {
        self.cursor().wf()
    }

    proof fn lemma_wf(&self) {
        self.inner.lemma_wf();
    }
}

impl<'a> BytesRead for Bytes<'a> {
    fn as_slice(&self) -> (r: &[u8]) {
        self.inner.as_slice()
    }

    fn remaining(&self) -> (r: &[u8]) {
        self.inner.remaining()
    }

    fn try_read(&mut self, len: usize) -> (r: Result<&[u8], ReadError>) {
        self.inner.try_read(len)
    }

    fn peek(&self, len: usize) -> (r: Option<&[u8]>) {
        self.inner.peek(len)
    }
}

impl<'a> BytesReadRef<'a> for Bytes<'a> {
    fn as_slice_ref(&self) -> (r: &'a [u8]) {
        *self.inner.inner()
    }

    fn remaining_ref(&self) -> (r: &'a [u8]) {
        let all = self.as_slice_ref();
        vstd::slice::slice_subrange(all, self.position(), all.len())
    }

    fn try_read_ref(&mut self, len: usize) -> (r: Result<&'a [u8], ReadError>) {
        let all = self.as_slice_ref();
        let pos = self.position();
        if len <= all.len() - pos {
            // the bytes are there, so the position can move past them
            self.inner.seek(pos + len);
            Ok(vstd::slice::slice_subrange(all, pos, pos + len))
        } else {
            Err(ReadError)
        }
    }

    fn peek_ref(&self, len: usize) -> (r: Option<&'a [u8]>) {
        let all = self.as_slice_ref();
        let pos = self.position();
        if len <= all.len() - pos {
            Some(vstd::slice::slice_subrange(all, pos, pos + len))
        } else {
            None
        }
    }
}

impl<'a> BytesSeek for Bytes<'a> {
    fn position(&self) -> (r: usize) {
        self.inner.position()
    }

    fn max_position(&self) -> (r: usize) {
        self.inner.max_position()
    }

    /// Sets the position.
    ///
    /// ## Fails
    /// If the position exceeds the slice.
    fn try_seek(&mut self, pos: usize) -> (r: Result<(), SeekError>) {
        self.inner.try_seek(pos)
    }
}

impl<'a> From<&'a [u8]> for Bytes<'a> {
    fn from(s: &'a [u8]) -> (r: Self)
        ensures
            r.wf(),
            r.data() == s@,
            r.pos() == 0,
    {
        Self { inner: Cursor::new(s) }
    }
}

impl<'a> vstd::std_specs::convert::FromSpecImpl<&'a [u8]> for Bytes<'a> {
    open spec fn obeys_from_spec() -> bool {
        true
    }

    closed spec fn from_spec(s: &'a [u8]) -> Self {
        Bytes { inner: Cursor::spec_new(s) }
    }
}

} // verus!
