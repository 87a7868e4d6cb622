//! Writing bytes at a position.
use vstd::prelude::*;

use crate::endian::{
    be_bytes, be_encode, i128_pattern, i16_pattern, i32_pattern, i64_pattern, i8_pattern, le_bytes,
    le_encode, twos_pattern,
};

use crate::bytes::Bytes;
use crate::bytes_read::ByteRegion;

verus! {

/// Returned when there is not enough room to write everything.
/// When it is returned nothing was written.
#[derive(Debug, Clone, Copy, PartialEq, Eq, Structural)]
pub struct WriteError;

/// `d` with `s` copied in at index `p`, after `d` has been extended with zeros as
/// far as the copy reaches.
pub open spec fn overwrite(d: Seq<u8>, p: int, s: Seq<u8>) -> Seq<u8> {
    let n = if d.len() < p + s.len() {
        p + s.len()
    } else {
        d.len() as int
    };
    Seq::new(
        n as nat,
        |i: int|
            if p <= i < p + s.len() {
                s[i - p]
            } else if i < d.len() {
                d[i]
            } else {
                0u8
            },
    )
}

/// What a write of `s` does to a buffer: it succeeds (`ok`) exactly where the
/// bytes fit within reach; `s` then stands at the position, the buffer grows as
/// far as needed, and the position moves past `s`. A failed write changes nothing.
pub open spec fn write_effect<B: ByteRegion>(before: B, after: B, s: Seq<u8>, ok: bool) -> bool {
    &&& after.wf()
    &&& after.max_len() == before.max_len()
    &&& ok <==> before.pos() + s.len() <= before.max_len()
    &&& if ok {
        &&& after.data() == overwrite(before.data(), before.pos(), s)
        &&& after.pos() == before.pos() + s.len()
    } else {
        &&& after.data() == before.data()
        &&& after.pos() == before.pos()
    }
}

/// Write bytes or numbers.
pub trait BytesWrite: ByteRegion {
    /// Returns the entire slice mutably.
    fn as_mut(&mut self) -> (r: &mut [u8])
        requires
            (*old(self)).wf(),
        ensures
            r@ == (*old(self)).data(),
            (*final(self)).data() == final(r)@,
            (*final(self)).pos() == (*old(self)).pos(),
            final(r)@.len() == r@.len() ==> {
                &&& (*final(self)).wf()
                &&& (*final(self)).max_len() == (*old(self)).max_len()
            },
    ;

    /// Returns the entire slice as a `Bytes` at position `0`.
    fn as_bytes(&self) -> (r: Bytes<'_>)
        requires
            self.wf(),
        ensures
            r.wf(),
            r.data() == self.data(),
            r.pos() == 0,
    ;

    /// Returns the remaining bytes mutably.
    fn remaining_mut(&mut self) -> (r: &mut [u8])
        requires
            (*old(self)).wf(),
        ensures
            r@ == (*old(self)).data().subrange((*old(self)).pos(), (*old(self)).data().len() as int),
            (*final(self)).data() == (*old(self)).data().subrange(0, (*old(self)).pos()) + final(r)@,
            (*final(self)).pos() == (*old(self)).pos(),
            final(r)@.len() == r@.len() ==> {
                &&& (*final(self)).wf()
                &&& (*final(self)).max_len() == (*old(self)).max_len()
            },
    ;

    /// Tries to write `slice` at the position.
    fn try_write(&mut self, slice: &[u8]) -> (r: Result<(), WriteError>)
        requires
            (*old(self)).wf(),
        ensures
            write_effect(*old(self), *final(self), slice@, r is Ok),
    ;

    /// Writes `slice` at the position; it must fit within reach.
    fn write(&mut self, slice: &[u8])
        requires
            (*old(self)).wf(),
            (*old(self)).pos() + slice@.len() <= (*old(self)).max_len(),
        ensures
            write_effect(*old(self), *final(self), slice@, true),
    {
        self.try_write(slice).expect("failed to write")
    }

    /// Tries to write an `u8` in big-endian.
    fn try_write_u8(&mut self, num: u8) -> (r: Result<(), WriteError>)
        requires
            (*old(self)).wf(),
        ensures
            write_effect(*old(self), *final(self), be_bytes(num as nat, 1), r is Ok),
    {
        let bytes = be_encode(num as u128, 1);
        self.try_write(bytes.as_slice())
    }

    /// Writes an `u8` in big-endian; it must fit within reach.
    fn write_u8(&mut self, num: u8)
        requires
            (*old(self)).wf(),
            (*old(self)).pos() + 1 <= (*old(self)).max_len(),
        ensures
            write_effect(*old(self), *final(self), be_bytes(num as nat, 1), true),
    {
        self.try_write_u8(num).expect("failed to write")
    }

    /// Tries to write an `u16` in big-endian.
    fn try_write_u16(&mut self, num: u16) -> (r: Result<(), WriteError>)
        requires
            (*old(self)).wf(),
        ensures
            write_effect(*old(self), *final(self), be_bytes(num as nat, 2), r is Ok),
    {
        let bytes = be_encode(num as u128, 2);
        self.try_write(bytes.as_slice())
    }

    /// Writes an `u16` in big-endian; it must fit within reach.
    fn write_u16(&mut self, num: u16)
        requires
            (*old(self)).wf(),
            (*old(self)).pos() + 2 <= (*old(self)).max_len(),
        ensures
            write_effect(*old(self), *final(self), be_bytes(num as nat, 2), true),
    {
        self.try_write_u16(num).expect("failed to write")
    }

    /// Tries to write an `u32` in big-endian.
    fn try_write_u32(&mut self, num: u32) -> (r: Result<(), WriteError>)
        requires
            (*old(self)).wf(),
        ensures
            write_effect(*old(self), *final(self), be_bytes(num as nat, 4), r is Ok),
    {
        let bytes = be_encode(num as u128, 4);
        self.try_write(bytes.as_slice())
    }

    /// Writes an `u32` in big-endian; it must fit within reach.
    fn write_u32(&mut self, num: u32)
        requires
            (*old(self)).wf(),
            (*old(self)).pos() + 4 <= (*old(self)).max_len(),
        ensures
            write_effect(*old(self), *final(self), be_bytes(num as nat, 4), true),
    {
        self.try_write_u32(num).expect("failed to write")
    }

    /// Tries to write an `u64` in big-endian.
    fn try_write_u64(&mut self, num: u64) -> (r: Result<(), WriteError>)
        requires
            (*old(self)).wf(),
        ensures
            write_effect(*old(self), *final(self), be_bytes(num as nat, 8), r is Ok),
    {
        let bytes = be_encode(num as u128, 8);
        self.try_write(bytes.as_slice())
    }

    /// Writes an `u64` in big-endian; it must fit within reach.
    fn write_u64(&mut self, num: u64)
        requires
            (*old(self)).wf(),
            (*old(self)).pos() + 8 <= (*old(self)).max_len(),
        ensures
            write_effect(*old(self), *final(self), be_bytes(num as nat, 8), true),
    {
        self.try_write_u64(num).expect("failed to write")
    }

    /// Tries to write an `u128` in big-endian.
    fn try_write_u128(&mut self, num: u128) -> (r: Result<(), WriteError>)
        requires
            (*old(self)).wf(),
        ensures
            write_effect(*old(self), *final(self), be_bytes(num as nat, 16), r is Ok),
    {
        let bytes = be_encode(num as u128, 16);
        self.try_write(bytes.as_slice())
    }

    /// Writes an `u128` in big-endian; it must fit within reach.
    fn write_u128(&mut self, num: u128)
        requires
            (*old(self)).wf(),
            (*old(self)).pos() + 16 <= (*old(self)).max_len(),
        ensures
            write_effect(*old(self), *final(self), be_bytes(num as nat, 16), true),
    {
        self.try_write_u128(num).expect("failed to write")
    }

    /// Tries to write an `i8` in big-endian.
    fn try_write_i8(&mut self, num: i8) -> (r: Result<(), WriteError>)
        requires
            (*old(self)).wf(),
        ensures
            write_effect(*old(self), *final(self), be_bytes(twos_pattern(num as int, 1), 1), r is Ok),
    {
        let bytes = be_encode(i8_pattern(num), 1);
        self.try_write(bytes.as_slice())
    }

    /// Writes an `i8` in big-endian; it must fit within reach.
    fn write_i8(&mut self, num: i8)
        requires
            (*old(self)).wf(),
            (*old(self)).pos() + 1 <= (*old(self)).max_len(),
        ensures
            write_effect(*old(self), *final(self), be_bytes(twos_pattern(num as int, 1), 1), true),
    {
        self.try_write_i8(num).expect("failed to write")
    }

    /// Tries to write an `i16` in big-endian.
    fn try_write_i16(&mut self, num: i16) -> (r: Result<(), WriteError>)
        requires
            (*old(self)).wf(),
        ensures
            write_effect(*old(self), *final(self), be_bytes(twos_pattern(num as int, 2), 2), r is Ok),
    {
        let bytes = be_encode(i16_pattern(num), 2);
        self.try_write(bytes.as_slice())
    }

    /// Writes an `i16` in big-endian; it must fit within reach.
    fn write_i16(&mut self, num: i16)
        requires
            (*old(self)).wf(),
            (*old(self)).pos() + 2 <= (*old(self)).max_len(),
        ensures
            write_effect(*old(self), *final(self), be_bytes(twos_pattern(num as int, 2), 2), true),
    {
        self.try_write_i16(num).expect("failed to write")
    }

    /// Tries to write an `i32` in big-endian.
    fn try_write_i32(&mut self, num: i32) -> (r: Result<(), WriteError>)
        requires
            (*old(self)).wf(),
        ensures
            write_effect(*old(self), *final(self), be_bytes(twos_pattern(num as int, 4), 4), r is Ok),
    {
        let bytes = be_encode(i32_pattern(num), 4);
        self.try_write(bytes.as_slice())
    }

    /// Writes an `i32` in big-endian; it must fit within reach.
    fn write_i32(&mut self, num: i32)
        requires
            (*old(self)).wf(),
            (*old(self)).pos() + 4 <= (*old(self)).max_len(),
        ensures
            write_effect(*old(self), *final(self), be_bytes(twos_pattern(num as int, 4), 4), true),
    {
        self.try_write_i32(num).expect("failed to write")
    }

    /// Tries to write an `i64` in big-endian.
    fn try_write_i64(&mut self, num: i64) -> (r: Result<(), WriteError>)
        requires
            (*old(self)).wf(),
        ensures
            write_effect(*old(self), *final(self), be_bytes(twos_pattern(num as int, 8), 8), r is Ok),
    {
        let bytes = be_encode(i64_pattern(num), 8);
        self.try_write(bytes.as_slice())
    }

    /// Writes an `i64` in big-endian; it must fit within reach.
    fn write_i64(&mut self, num: i64)
        requires
            (*old(self)).wf(),
            (*old(self)).pos() + 8 <= (*old(self)).max_len(),
        ensures
            write_effect(*old(self), *final(self), be_bytes(twos_pattern(num as int, 8), 8), true),
    {
        self.try_write_i64(num).expect("failed to write")
    }

    /// Tries to write an `i128` in big-endian.
    fn try_write_i128(&mut self, num: i128) -> (r: Result<(), WriteError>)
        requires
            (*old(self)).wf(),
        ensures
            write_effect(*old(self), *final(self), be_bytes(twos_pattern(num as int, 16), 16), r is Ok),
    {
        let bytes = be_encode(i128_pattern(num), 16);
        self.try_write(bytes.as_slice())
    }

    /// Writes an `i128` in big-endian; it must fit within reach.
    fn write_i128(&mut self, num: i128)
        requires
            (*old(self)).wf(),
            (*old(self)).pos() + 16 <= (*old(self)).max_len(),
        ensures
            write_effect(*old(self), *final(self), be_bytes(twos_pattern(num as int, 16), 16), true),
    {
        self.try_write_i128(num).expect("failed to write")
    }

    /// Tries to write an `u8` in little-endian.
    fn try_write_le_u8(&mut self, num: u8) -> (r: Result<(), WriteError>)
        requires
            (*old(self)).wf(),
        ensures
            write_effect(*old(self), *final(self), le_bytes(num as nat, 1), r is Ok),
    {
        let bytes = le_encode(num as u128, 1);
        self.try_write(bytes.as_slice())
    }

    /// Writes an `u8` in little-endian; it must fit within reach.
    fn write_le_u8(&mut self, num: u8)
        requires
            (*old(self)).wf(),
            (*old(self)).pos() + 1 <= (*old(self)).max_len(),
        ensures
            write_effect(*old(self), *final(self), le_bytes(num as nat, 1), true),
    {
        self.try_write_le_u8(num).expect("failed to write")
    }

    /// Tries to write an `u16` in little-endian.
    fn try_write_le_u16(&mut self, num: u16) -> (r: Result<(), WriteError>)
        requires
            (*old(self)).wf(),
        ensures
            write_effect(*old(self), *final(self), le_bytes(num as nat, 2), r is Ok),
    {
        let bytes = le_encode(num as u128, 2);
        self.try_write(bytes.as_slice())
    }

    /// Writes an `u16` in little-endian; it must fit within reach.
    fn write_le_u16(&mut self, num: u16)
        requires
            (*old(self)).wf(),
            (*old(self)).pos() + 2 <= (*old(self)).max_len(),
        ensures
            write_effect(*old(self), *final(self), le_bytes(num as nat, 2), true),
    {
        self.try_write_le_u16(num).expect("failed to write")
    }

    /// Tries to write an `u32` in little-endian.
    fn try_write_le_u32(&mut self, num: u32) -> (r: Result<(), WriteError>)
        requires
            (*old(self)).wf(),
        ensures
            write_effect(*old(self), *final(self), le_bytes(num as nat, 4), r is Ok),
    {
        let bytes = le_encode(num as u128, 4);
        self.try_write(bytes.as_slice())
    }

    /// Writes an `u32` in little-endian; it must fit within reach.
    fn write_le_u32(&mut self, num: u32)
        requires
            (*old(self)).wf(),
            (*old(self)).pos() + 4 <= (*old(self)).max_len(),
        ensures
            write_effect(*old(self), *final(self), le_bytes(num as nat, 4), true),
    {
        self.try_write_le_u32(num).expect("failed to write")
    }

    /// Tries to write an `u64` in little-endian.
    fn try_write_le_u64(&mut self, num: u64) -> (r: Result<(), WriteError>)
        requires
            (*old(self)).wf(),
        ensures
            write_effect(*old(self), *final(self), le_bytes(num as nat, 8), r is Ok),
    {
        let bytes = le_encode(num as u128, 8);
        self.try_write(bytes.as_slice())
    }

    /// Writes an `u64` in little-endian; it must fit within reach.
    fn write_le_u64(&mut self, num: u64)
        requires
            (*old(self)).wf(),
            (*old(self)).pos() + 8 <= (*old(self)).max_len(),
        ensures
            write_effect(*old(self), *final(self), le_bytes(num as nat, 8), true),
    {
        self.try_write_le_u64(num).expect("failed to write")
    }

    /// Tries to write an `u128` in little-endian.
    fn try_write_le_u128(&mut self, num: u128) -> (r: Result<(), WriteError>)
        requires
            (*old(self)).wf(),
        ensures
            write_effect(*old(self), *final(self), le_bytes(num as nat, 16), r is Ok),
    {
        let bytes = le_encode(num as u128, 16);
        self.try_write(bytes.as_slice())
    }

    /// Writes an `u128` in little-endian; it must fit within reach.
    fn write_le_u128(&mut self, num: u128)
        requires
            (*old(self)).wf(),
            (*old(self)).pos() + 16 <= (*old(self)).max_len(),
        ensures
            write_effect(*old(self), *final(self), le_bytes(num as nat, 16), true),
    {
        self.try_write_le_u128(num).expect("failed to write")
    }

    /// Tries to write an `i8` in little-endian.
    fn try_write_le_i8(&mut self, num: i8) -> (r: Result<(), WriteError>)
        requires
            (*old(self)).wf(),
        ensures
            write_effect(*old(self), *final(self), le_bytes(twos_pattern(num as int, 1), 1), r is Ok),
    {
        let bytes = le_encode(i8_pattern(num), 1);
        self.try_write(bytes.as_slice())
    }

    /// Writes an `i8` in little-endian; it must fit within reach.
    fn write_le_i8(&mut self, num: i8)
        requires
            (*old(self)).wf(),
            (*old(self)).pos() + 1 <= (*old(self)).max_len(),
        ensures
            write_effect(*old(self), *final(self), le_bytes(twos_pattern(num as int, 1), 1), true),
    {
        self.try_write_le_i8(num).expect("failed to write")
    }

    /// Tries to write an `i16` in little-endian.
    fn try_write_le_i16(&mut self, num: i16) -> (r: Result<(), WriteError>)
        requires
            (*old(self)).wf(),
        ensures
            write_effect(*old(self), *final(self), le_bytes(twos_pattern(num as int, 2), 2), r is Ok),
    {
        let bytes = le_encode(i16_pattern(num), 2);
        self.try_write(bytes.as_slice())
    }

    /// Writes an `i16` in little-endian; it must fit within reach.
    fn write_le_i16(&mut self, num: i16)
        requires
            (*old(self)).wf(),
            (*old(self)).pos() + 2 <= (*old(self)).max_len(),
        ensures
            write_effect(*old(self), *final(self), le_bytes(twos_pattern(num as int, 2), 2), true),
    {
        self.try_write_le_i16(num).expect("failed to write")
    }

    /// Tries to write an `i32` in little-endian.
    fn try_write_le_i32(&mut self, num: i32) -> (r: Result<(), WriteError>)
        requires
            (*old(self)).wf(),
        ensures
            write_effect(*old(self), *final(self), le_bytes(twos_pattern(num as int, 4), 4), r is Ok),
    {
        let bytes = le_encode(i32_pattern(num), 4);
        self.try_write(bytes.as_slice())
    }

    /// Writes an `i32` in little-endian; it must fit within reach.
    fn write_le_i32(&mut self, num: i32)
        requires
            (*old(self)).wf(),
            (*old(self)).pos() + 4 <= (*old(self)).max_len(),
        ensures
            write_effect(*old(self), *final(self), le_bytes(twos_pattern(num as int, 4), 4), true),
    {
        self.try_write_le_i32(num).expect("failed to write")
    }

    /// Tries to write an `i64` in little-endian.
    fn try_write_le_i64(&mut self, num: i64) -> (r: Result<(), WriteError>)
        requires
            (*old(self)).wf(),
        ensures
            write_effect(*old(self), *final(self), le_bytes(twos_pattern(num as int, 8), 8), r is Ok),
    {
        let bytes = le_encode(i64_pattern(num), 8);
        self.try_write(bytes.as_slice())
    }

    /// Writes an `i64` in little-endian; it must fit within reach.
    fn write_le_i64(&mut self, num: i64)
        requires
            (*old(self)).wf(),
            (*old(self)).pos() + 8 <= (*old(self)).max_len(),
        ensures
            write_effect(*old(self), *final(self), le_bytes(twos_pattern(num as int, 8), 8), true),
    {
        self.try_write_le_i64(num).expect("failed to write")
    }

    /// Tries to write an `i128` in little-endian.
    fn try_write_le_i128(&mut self, num: i128) -> (r: Result<(), WriteError>)
        requires
            (*old(self)).wf(),
        ensures
            write_effect(*old(self), *final(self), le_bytes(twos_pattern(num as int, 16), 16), r is Ok),
    {
        let bytes = le_encode(i128_pattern(num), 16);
        self.try_write(bytes.as_slice())
    }

    /// Writes an `i128` in little-endian; it must fit within reach.
    fn write_le_i128(&mut self, num: i128)
        requires
            (*old(self)).wf(),
            (*old(self)).pos() + 16 <= (*old(self)).max_len(),
        ensures
            write_effect(*old(self), *final(self), le_bytes(twos_pattern(num as int, 16), 16), true),
    {
        self.try_write_le_i128(num).expect("failed to write")
    }
}

impl<'b, W: ByteRegion> ByteRegion for &'b mut W {
    open spec fn data(&self) -> Seq<u8> {
        W::data(&**self)
    }

    open spec fn pos(&self) -> int {
        W::pos(&**self)
    }

    open spec fn max_len(&self) -> int {
        W::max_len(&**self)
    }

    open spec fn wf(&self) -> bool {
        W::wf(&**self)
    }

    proof fn lemma_wf(&self) {
        assert(self.wf());
        W::lemma_wf(&**self);
        assert(self.pos() == W::pos(&**self));
        assert(self.data() == W::data(&**self));
        assert(self.max_len() == W::max_len(&**self));
    }
}

impl<'b, W: BytesWrite> BytesWrite for &'b mut W {
    fn as_mut(&mut self) -> (r: &mut [u8]) {
        (**self).as_mut()
    }

    fn as_bytes(&self) -> (r: Bytes<'_>) {
        (**self).as_bytes()
    }

    fn remaining_mut(&mut self) -> (r: &mut [u8]) {
        (**self).remaining_mut()
    }

    fn try_write(&mut self, slice: &[u8]) -> (r: Result<(), WriteError>) {
        (**self).try_write(slice)
    }
}

} // verus!
