//! An owned, growable buffer with a position.
//!
//! Reads and writes share the one position.
use vstd::prelude::*;

use crate::bytes::Bytes;
use crate::bytes_read::{ByteRegion, BytesRead, ReadError};
use crate::bytes_seek::{zero_extended, BytesSeek, SeekError};
use crate::bytes_write::{BytesWrite, WriteError};
use crate::cursor::Cursor;

verus! {

/// A `Vec` wrapper that implements `BytesRead`, `BytesWrite` and `BytesSeek`.
/// Writes and seeks past the end grow it.
#[derive(Debug, Clone, PartialEq, Eq, Hash)]
pub struct BytesOwned {
    inner: Cursor<Vec<u8>>,
}

impl BytesOwned {
    /// The cursor inside.
    pub closed spec fn cursor(&self) -> Cursor<Vec<u8>> {
        self.inner
    }

    /// Creates an empty buffer.
    pub fn new() -> (r: Self)
        ensures
            r.wf(),
            r.data() == Seq::<u8>::empty(),
            r.pos() == 0,
    {
        Self { inner: Cursor::new(Vec::new()) }
    }

    /// Creates an empty buffer with room for `cap` bytes.
    pub fn with_capacity(cap: usize) -> (r: Self)
        ensures
            r.wf(),
            r.data() == Seq::<u8>::empty(),
            r.pos() == 0,
    {
        Self { inner: Cursor::new(Vec::with_capacity(cap)) }
    }

    /// Creates a buffer over `inner` at `position`; where `position` is past the
    /// end, `inner` is first extended with zeros up to it.
    pub fn new_raw(position: usize, inner: Vec<u8>) -> (r: Self)
        ensures
            r.wf(),
            r.data() == zero_extended(inner@, position as int),
            r.pos() == position,
    {
        let mut cursor = Cursor::new(inner);
        cursor.seek(position);
        Self { inner: cursor }
    }

    /// Returns the underlying `Vec` mutably.
    ///
    /// Removing bytes can leave the position past the end.
    pub fn as_mut_vec(&mut self) -> (r: &mut Vec<u8>)
        ensures
            r@ == (*old(self)).data(),
            (*final(self)).data() == final(r)@,
            (*final(self)).pos() == (*old(self)).pos(),
            (*final(self)).max_len() == (*old(self)).max_len(),
    {
        self.inner.inner_mut()
    }

    /// Returns the underlying `Vec`.
    pub fn into_vec(self) -> (r: Vec<u8>)
        ensures
            r@ == self.data(),
    {
        self.inner.into_inner()
    }
}

impl ByteRegion for BytesOwned {
    open spec fn data(&self) -> Seq<u8> {
        self.cursor().data()
    }

    open spec fn pos(&self) -> int {
        self.cursor().pos()
    }

    open spec fn max_len(&self) -> int {
        usize::MAX as int
    }

    open spec fn wf(&self) -> bool {
        self.cursor().wf()
    }

    proof fn lemma_wf(&self) {
        self.inner.lemma_wf();
    }
}

impl BytesRead for BytesOwned {
    fn as_slice(&self) -> (r: &[u8]) {
        self.inner.as_slice()
    }

    fn len(&self) -> (r: usize) {
        self.inner.len()
    }

    fn remaining(&self) -> (r: &[u8]) {
        self.inner.remaining()
    }

    fn try_read(&mut self, len: usize) -> (r: Result<&[u8], ReadError>) {
        self.inner.try_read(len)
    }

    fn peek(&self, len: usize) -> (r: Option<&[u8]>) {
        self.inner.peek(len)
    }
}

impl BytesWrite for BytesOwned {
    fn as_mut(&mut self) -> (r: &mut [u8]) {
        self.inner.as_mut()
    }

    fn as_bytes(&self) -> (r: Bytes<'_>) {
        self.inner.as_bytes()
    }

    /// Returns the remaining mutable slice.
    ///
    /// An empty slice does not mean that nothing more can be written.
    fn remaining_mut(&mut self) -> (r: &mut [u8]) {
        self.inner.remaining_mut()
    }

    /// Writes a slice, growing the `Vec` where the slice goes past its end.
    fn try_write(&mut self, slice: &[u8]) -> (r: Result<(), WriteError>) {
        self.inner.try_write(slice)
    }
}

impl BytesSeek for BytesOwned {
    fn position(&self) -> (r: usize) {
        self.inner.position()
    }

    fn max_position(&self) -> (r: usize) {
        self.inner.max_position()
    }

    /// Sets the position, growing the `Vec` with zeros
    /// if the position is past its end.
    fn try_seek(&mut self, pos: usize) -> (r: Result<(), SeekError>) {
        self.inner.try_seek(pos)
    }
}

impl From<Vec<u8>> for BytesOwned {
    fn from(b: Vec<u8>) -> (r: Self)
        ensures
            r.wf(),
            r.data() == b@,
            r.pos() == 0,
    {
        Self { inner: Cursor::new(b) }
    }
}

impl vstd::std_specs::convert::FromSpecImpl<Vec<u8>> for BytesOwned {
    open spec fn obeys_from_spec() -> bool {
        true
    }

    closed spec fn from_spec(b: Vec<u8>) -> Self {
        BytesOwned { inner: Cursor::spec_new(b) }
    }
}

impl From<BytesOwned> for Vec<u8> {
    fn from(b: BytesOwned) -> (r: Self)
        ensures
            r@ == b.data(),
    {
        b.inner.into_inner()
    }
}

impl vstd::std_specs::convert::FromSpecImpl<BytesOwned> for Vec<u8> {
    open spec fn obeys_from_spec() -> bool {
        true
    }

    closed spec fn from_spec(b: BytesOwned) -> Self {
        b.inner.spec_inner()
    }
}

} // verus!
