//! A writable view of a borrowed mutable slice.
//!
//! Reads and writes share the one position.
use vstd::prelude::*;

use crate::bytes::Bytes;
use crate::bytes_read::{ByteRegion, BytesRead, ReadError};
use crate::bytes_seek::{BytesSeek, SeekError};
use crate::bytes_write::{BytesWrite, WriteError};
use crate::cursor::Cursor;

verus! {

/// A mutable slice wrapper that implements `BytesRead`, `BytesWrite` and
/// `BytesSeek`.
#[derive(Debug, PartialEq, Eq, Hash)]
pub struct BytesMut<'a> {
    inner: Cursor<&'a mut [u8]>,
}

impl<'a> BytesMut<'a> {
    /// The cursor inside.
    pub closed spec fn cursor(&self) -> Cursor<&'a mut [u8]> {
        self.inner
    }

    /// Creates a view of `inner` at `position`, which must not pass its end.
    pub fn new(position: usize, inner: &'a mut [u8]) -> (r: Self)
        requires
            position <= old(inner)@.len(),
        ensures
            r.wf(),
            r.data() == old(inner)@,
            r.pos() == position,
    {
        let mut cursor = Cursor::new(inner);
        cursor.seek(position);
        Self { inner: cursor }
    }
}

impl<'a> ByteRegion for BytesMut<'a> {
    open spec fn data(&self) -> Seq<u8> {
        self.cursor().data()
    }

    open spec fn pos(&self) -> int {
        self.cursor().pos()
    }

    open spec fn max_len(&self) -> int {
        self.data().len() as int
    }

    open spec fn wf(&self) -> bool {
        self.cursor().wf()
    }

    proof fn lemma_wf(&self) {
        self.inner.lemma_wf();
    }
}

impl<'a> BytesRead for BytesMut<'a> {
    fn as_slice(&self) -> (r: &[u8]) {
        self.inner.as_slice()
    }

    fn remaining(&self) -> (r: &[u8]) {
        self.inner.remaining()
    }

    fn try_read(&mut self, len: usize) -> (r: Result<&[u8], ReadError>) {
        self.inner.try_read(len)
    }

    fn peek(&self, len: usize) -> (r: Option<&[u8]>) {
        self.inner.peek(len)
    }
}

impl<'a> BytesWrite for BytesMut<'a> {
    fn as_mut(&mut self) -> (r: &mut [u8]) {
        self.inner.as_mut()
    }

    fn as_bytes(&self) -> (r: Bytes<'_>) {
        self.inner.as_bytes()
    }

    fn remaining_mut(&mut self) -> (r: &mut [u8]) {
        self.inner.remaining_mut()
    }

    /// Writes a slice.
    ///
    /// ## Fails
    /// If the slice does not fit in the remaining bytes.
    fn try_write(&mut self, slice: &[u8]) -> (r: Result<(), WriteError>) {
        self.inner.try_write(slice)
    }
}

impl<'a> BytesSeek for BytesMut<'a> {
    fn position(&self) -> (r: usize) {
        self.inner.position()
    }

    fn max_position(&self) -> (r: usize) {
        self.inner.max_position()
    }

    /// Sets the position.
    ///
    /// ## Fails
    /// If the position exceeds the slice.
    fn try_seek(&mut self, pos: usize) -> (r: Result<(), SeekError>) {
        self.inner.try_seek(pos)
    }
}

impl<'a> From<&'a mut [u8]> for BytesMut<'a> {
    fn from(s: &'a mut [u8]) -> (r: Self)
        ensures
            r.wf(),
            r.data() == old(s)@,
            r.pos() == 0,
    {
        Self { inner: Cursor::new(s) }
    }
}

impl<'a> vstd::std_specs::convert::FromSpecImpl<&'a mut [u8]> for BytesMut<'a> {
    // What `from` returns is stated on the impl of `From` itself.
    open spec fn obeys_from_spec() -> bool {
        false
    }

    closed spec fn from_spec(s: &'a mut [u8]) -> Self {
        BytesMut { inner: Cursor::spec_new(s) }
    }
}

} // verus!
