//! The cursor: a storage value paired with a position.
use vstd::prelude::*;

use crate::bytes::Bytes;
use crate::bytes_read::{ByteRegion, BytesRead, ReadError};
use crate::bytes_seek::{zero_extended, BytesSeek, SeekError};
use crate::bytes_write::{overwrite, BytesWrite, WriteError};
use crate::util::{copy_into, write_or_alloc};

verus! {

/// A region of bytes that a cursor can hold: a borrowed slice, a borrowed mutable
/// slice, an array, or a growable `Vec`.
pub trait Storage {
    /// The stored bytes.
    spec fn stored(&self) -> Seq<u8>;

    /// The largest length the storage can reach: its length where it cannot grow.
    spec fn reach(&self) -> int;

    /// The stored bytes are within reach, and the reach fits a `usize`.
    proof fn lemma_reach(&self)
        ensures
            self.stored().len() <= self.reach() <= usize::MAX,
    ;

    /// Returns the stored bytes.
    fn bytes(&self) -> (r: &[u8])
        ensures
            r@ == self.stored(),
    ;

    /// Returns the largest length the storage can reach.
    fn reach_len(&self) -> (r: usize)
        ensures
            r == self.reach(),
    ;

    /// Extends the storage with zeros to `len` bytes where it is shorter.
    fn grow_to(&mut self, len: usize)
        requires
            len <= (*old(self)).reach(),
        ensures
            (*final(self)).stored() == zero_extended((*old(self)).stored(), len as int),
            (*final(self)).reach() == (*old(self)).reach(),
    ;
}

/// A storage whose bytes can be changed.
pub trait StorageMut: Storage {
    /// Returns the stored bytes mutably.
    fn bytes_mut(&mut self) -> (r: &mut [u8])
        ensures
            r@ == (*old(self)).stored(),
            (*final(self)).stored() == final(r)@,
            final(r)@.len() == r@.len() ==> (*final(self)).reach() == (*old(self)).reach(),
    ;

    /// Writes `src` at index `at`, growing the storage where needed.
    fn put(&mut self, at: usize, src: &[u8])
        requires
            at <= (*old(self)).stored().len(),
            at + src@.len() <= (*old(self)).reach(),
        ensures
            (*final(self)).stored() == overwrite((*old(self)).stored(), at as int, src@),
            (*final(self)).reach() == (*old(self)).reach(),
    ;
}

impl<'a> Storage for &'a [u8] {
    open spec fn stored(&self) -> Seq<u8> {
        (**self)@
    }

    open spec fn reach(&self) -> int {
        (**self)@.len() as int
    }

    proof fn lemma_reach(&self) {
        assert((**self).len() == (**self)@.len());
    }

    fn bytes(&self) -> (r: &[u8]) {
        *self
    }

    fn reach_len(&self) -> (r: usize) {
        (**self).len()
    }

    fn grow_to(&mut self, len: usize) {
    }
}

impl<'a> Storage for &'a mut [u8] {
    open spec fn stored(&self) -> Seq<u8> {
        (**self)@
    }

    open spec fn reach(&self) -> int {
        (**self)@.len() as int
    }

    proof fn lemma_reach(&self) {
        assert((**self).len() == (**self)@.len());
    }

    fn bytes(&self) -> (r: &[u8]) {
        &**self
    }

    fn reach_len(&self) -> (r: usize) {
        (**self).len()
    }

    fn grow_to(&mut self, len: usize) {
    }
}

impl<'a> StorageMut for &'a mut [u8] {
    fn bytes_mut(&mut self) -> (r: &mut [u8]) {
        &mut **self
    }

    fn put(&mut self, at: usize, src: &[u8]) {
        copy_into(&mut **self, at, src);
    }
}

impl<const N: usize> Storage for [u8; N] {
    open spec fn stored(&self) -> Seq<u8> {
        self@
    }

    open spec fn reach(&self) -> int {
        N as int
    }

    proof fn lemma_reach(&self) {
    }

    fn bytes(&self) -> (r: &[u8]) {
        self.as_slice()
    }

    fn reach_len(&self) -> (r: usize) {
        N
    }

    fn grow_to(&mut self, len: usize) {
    }
}

impl<const N: usize> StorageMut for [u8; N] {
    fn bytes_mut(&mut self) -> (r: &mut [u8]) {
        self
    }

    fn put(&mut self, at: usize, src: &[u8]) {
        copy_into(self, at, src);
    }
}

impl Storage for Vec<u8> {
    open spec fn stored(&self) -> Seq<u8> {
        self@
    }

    open spec fn reach(&self) -> int {
        usize::MAX as int
    }

    proof fn lemma_reach(&self) {
        assert(self.len() == self@.len());
    }

    fn bytes(&self) -> (r: &[u8]) {
        self.as_slice()
    }

    fn reach_len(&self) -> (r: usize) {
        usize::MAX
    }

    fn grow_to(&mut self, len: usize) {
        if self.len() < len {
            self.resize(len, 0u8);
        }
        assert(self@ =~= zero_extended(old(self)@, len as int));
    }
}

impl StorageMut for Vec<u8> {
    fn bytes_mut(&mut self) -> (r: &mut [u8]) {
        self.as_mut_slice()
    }

    fn put(&mut self, at: usize, src: &[u8]) {
        write_or_alloc(self, at, src);
    }
}

impl<'a> Storage for &'a mut Vec<u8> {
    open spec fn stored(&self) -> Seq<u8> {
        (**self)@
    }

    open spec fn reach(&self) -> int {
        usize::MAX as int
    }

    proof fn lemma_reach(&self) {
        assert((**self).len() == (**self)@.len());
    }

    fn bytes(&self) -> (r: &[u8]) {
        (**self).as_slice()
    }

    fn reach_len(&self) -> (r: usize) {
        usize::MAX
    }

    fn grow_to(&mut self, len: usize) {
        (**self).grow_to(len);
    }
}

impl<'a> StorageMut for &'a mut Vec<u8> {
    fn bytes_mut(&mut self) -> (r: &mut [u8]) {
        (**self).as_mut_slice()
    }

    fn put(&mut self, at: usize, src: &[u8]) {
        write_or_alloc(&mut **self, at, src);
    }
}

/// Pairs a storage value with a position and reads, writes and seeks in it.
///
/// Reads and writes share the one position.
#[derive(Debug, Clone, Copy, PartialEq, Eq, Hash)]
pub struct Cursor<T> {
    /// always points to the next position
    position: usize,
    inner: T,
}

impl<T> Cursor<T> {
    /// The position.
    pub closed spec fn spec_position(&self) -> usize {
        self.position
    }

    /// The storage value.
    pub closed spec fn spec_inner(&self) -> T {
        self.inner
    }

    /// A cursor at position `0`.
    pub closed spec fn spec_new(inner: T) -> Self {
        Cursor { position: 0, inner }
    }

    /// Creates a cursor at position `0`.
    pub fn new(inner: T) -> (r: Self)
        ensures
            r == Self::spec_new(inner),
            r.spec_position() == 0,
            r.spec_inner() == inner,
    {
        Self { position: 0, inner }
    }

    /// Returns the inner value as a reference.
    pub fn inner(&self) -> (r: &T)
        ensures
            *r == self.spec_inner(),
    {
        &self.inner
    }

    /// Returns the inner value as a mutable reference.
    /// Shrinking the inner length may leave the position past the end.
    pub fn inner_mut(&mut self) -> (r: &mut T)
        ensures
            *r == (*old(self)).spec_inner(),
            (*final(self)).spec_inner() == *final(r),
            (*final(self)).spec_position() == (*old(self)).spec_position(),
    {
        &mut self.inner
    }

    /// Returns the inner value, discarding the position.
    pub fn into_inner(self) -> (r: T)
        ensures
            r == self.spec_inner(),
    {
        self.inner
    }
}

impl<T: Storage> ByteRegion for Cursor<T> {
    open spec fn data(&self) -> Seq<u8> {
        self.spec_inner().stored()
    }

    open spec fn pos(&self) -> int {
        self.spec_position() as int
    }

    open spec fn max_len(&self) -> int {
        self.spec_inner().reach()
    }

    open spec fn wf(&self) -> bool {
        self.spec_position() <= self.spec_inner().stored().len()
    }

    proof fn lemma_wf(&self) {
        self.inner.lemma_reach();
    }
}

impl<T: Storage> BytesRead for Cursor<T> {
    fn as_slice(&self) -> (r: &[u8]) {
        self.inner.bytes()
    }

    fn remaining(&self) -> (r: &[u8]) {
        let s = self.inner.bytes();
        vstd::slice::slice_subrange(s, self.position, s.len())
    }

    fn try_read(&mut self, len: usize) -> (r: Result<&[u8], ReadError>) {
        let s = self.inner.bytes();
        if len <= s.len() - self.position {
            let p = self.position;
            self.position = p + len;
            Ok(vstd::slice::slice_subrange(s, p, p + len))
        } else {
            Err(ReadError)
        }
    }

    fn peek(&self, len: usize) -> (r: Option<&[u8]>) {
        let s = self.inner.bytes();
        if len <= s.len() - self.position {
            Some(vstd::slice::slice_subrange(s, self.position, self.position + len))
        } else {
            None
        }
    }
}

impl<T: Storage> BytesSeek for Cursor<T> {
    fn position(&self) -> (r: usize) {
        self.position
    }

    fn max_position(&self) -> (r: usize) {
        self.inner.reach_len()
    }

    /// Sets the position. A growable storage is extended with zeros up to it;
    /// on any other storage the seek fails past the end.
    fn try_seek(&mut self, pos: usize) -> (r: Result<(), SeekError>) {
        let max = self.inner.reach_len();
        if pos <= max {
            self.inner.grow_to(pos);
            self.position = pos;
            Ok(())
        } else {
            Err(SeekError(max))
        }
    }
}

impl<T: StorageMut> BytesWrite for Cursor<T> {
    fn as_mut(&mut self) -> (r: &mut [u8]) {
        self.inner.bytes_mut()
    }

    fn as_bytes(&self) -> (r: Bytes<'_>) {
        Bytes::new(0, self.inner.bytes())
    }

    /// Returns the remaining mutable slice.
    ///
    /// On a growable storage an empty slice does not mean that nothing more
    /// can be written.
    fn remaining_mut(&mut self) -> (r: &mut [u8]) {
        let pos = self.position;
        let (_, rest) = self.inner.bytes_mut().split_at_mut(pos);
        rest
    }

    /// Writes a slice. A growable storage is extended where the slice goes past
    /// its end; on any other storage the write fails there.
    fn try_write(&mut self, slice: &[u8]) -> (r: Result<(), WriteError>) {
        proof {
            self.inner.lemma_reach();
        }
        let pos = self.position;
        if slice.len() <= self.inner.reach_len() - pos {
            self.inner.put(pos, slice);
            self.position = pos + slice.len();
            Ok(())
        } else {
            Err(WriteError)
        }
    }
}

} // verus!
