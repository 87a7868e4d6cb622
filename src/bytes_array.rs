//! An owned array with a position.
//!
//! Reads and writes share the one position.
use vstd::prelude::*;

use crate::bytes::Bytes;
use crate::bytes_read::{ByteRegion, BytesRead, ReadError};
use crate::bytes_seek::{BytesSeek, SeekError};
use crate::bytes_write::{BytesWrite, WriteError};
use crate::cursor::Cursor;

verus! {

/// An array wrapper that implements `BytesRead`, `BytesWrite` and `BytesSeek`.
#[derive(Debug, Clone, PartialEq, Eq, Hash)]
pub struct BytesArray<const N: usize> {
    inner: Cursor<[u8; N]>,
}

impl<const N: usize> BytesArray<N> {
    /// The cursor inside.
    pub closed spec fn cursor(&self) -> Cursor<[u8; N]> {
        self.inner
    }

    /// Creates a buffer over `inner` at `position`, which must not pass its end.
    pub fn new(position: usize, inner: [u8; N]) -> (r: Self)
        requires
            position <= N,
        ensures
            r.wf(),
            r.data() == inner@,
            r.pos() == position,
    {
        let mut cursor = Cursor::new(inner);
        cursor.seek(position);
        Self { inner: cursor }
    }

    /// Returns the underlying array mutably.
    pub fn as_mut_array(&mut self) -> (r: &mut [u8; N])
        ensures
            r@ == (*old(self)).data(),
            (*final(self)).data() == final(r)@,
            (*final(self)).pos() == (*old(self)).pos(),
            (*final(self)).max_len() == (*old(self)).max_len(),
            (*old(self)).wf() ==> (*final(self)).wf(),
    {
        self.inner.inner_mut()
    }

    /// Returns the underlying array.
    pub fn into_array(self) -> (r: [u8; N])
        ensures
            r@ == self.data(),
    {
        self.inner.into_inner()
    }
}

impl<const N: usize> ByteRegion for BytesArray<N> {
    open spec fn data(&self) -> Seq<u8> {
        self.cursor().data()
    }

    open spec fn pos(&self) -> int {
        self.cursor().pos()
    }

    open spec fn max_len(&self) -> int {
        N as int
    }

    open spec fn wf(&self) -> bool {
        self.cursor().wf()
    }

    proof fn lemma_wf(&self) {
        self.inner.lemma_wf();
    }
}

impl<const N: usize> BytesRead for BytesArray<N> {
    fn as_slice(&self) -> (r: &[u8]) {
        self.inner.as_slice()
    }

    fn len(&self) -> (r: usize) {
        self.inner.len()
    }

    fn remaining(&self) -> (r: &[u8]) {
        self.inner.remaining()
    }

    fn try_read(&mut self, len: usize) -> (r: Result<&[u8], ReadError>) {
        self.inner.try_read(len)
    }

    fn peek(&self, len: usize) -> (r: Option<&[u8]>) {
        self.inner.peek(len)
    }
}

impl<const N: usize> BytesWrite for BytesArray<N> {
    fn as_mut(&mut self) -> (r: &mut [u8]) {
        self.inner.as_mut()
    }

    fn as_bytes(&self) -> (r: Bytes<'_>) {
        self.inner.as_bytes()
    }

    fn remaining_mut(&mut self) -> (r: &mut [u8]) {
        self.inner.remaining_mut()
    }

    /// Writes a slice.
    ///
    /// ## Fails
    /// If the slice does not fit in the remaining bytes.
    fn try_write(&mut self, slice: &[u8]) -> (r: Result<(), WriteError>) {
        self.inner.try_write(slice)
    }
}

impl<const N: usize> BytesSeek for BytesArray<N> {
    fn position(&self) -> (r: usize) {
        self.inner.position()
    }

    fn max_position(&self) -> (r: usize) {
        self.inner.max_position()
    }

    /// Sets the position.
    ///
    /// ## Fails
    /// If the position exceeds the slice.
    fn try_seek(&mut self, pos: usize) -> (r: Result<(), SeekError>) {
        self.inner.try_seek(pos)
    }
}

impl<const N: usize> From<[u8; N]> for BytesArray<N> {
    fn from(b: [u8; N]) -> (r: Self)
        ensures
            r.wf(),
            r.data() == b@,
            r.pos() == 0,
    {
        Self { inner: Cursor::new(b) }
    }
}

impl<const N: usize> vstd::std_specs::convert::FromSpecImpl<[u8; N]> for BytesArray<N> {
    open spec fn obeys_from_spec() -> bool {
        true
    }

    closed spec fn from_spec(b: [u8; N]) -> Self {
        BytesArray { inner: Cursor::spec_new(b) }
    }
}

impl<const N: usize> From<BytesArray<N>> for [u8; N] {
    fn from(b: BytesArray<N>) -> (r: Self)
        ensures
            r@ == b.data(),
    {
        b.inner.into_inner()
    }
}

impl<const N: usize> vstd::std_specs::convert::FromSpecImpl<BytesArray<N>> for [u8; N] {
    open spec fn obeys_from_spec() -> bool {
        true
    }

    closed spec fn from_spec(b: BytesArray<N>) -> Self {
        b.inner.spec_inner()
    }
}

} // verus!
