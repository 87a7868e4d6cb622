//! Reading bytes at a position.
use vstd::prelude::*;

use crate::endian::{
    be_decode, be_value, i128_from_pattern, i16_from_pattern, i32_from_pattern, i64_from_pattern,
    i8_from_pattern, le_decode, le_value, lemma_be_value_bound, lemma_le_value_bound,
    lemma_pow256_widths, signed_value,
};

verus! {

/// Returned when fewer bytes remain than a read asks for.
/// When it is returned nothing was read.
#[derive(Debug, Clone, Copy, PartialEq, Eq, Structural)]
pub struct ReadError;

/// A region of bytes with a position, the index of the next byte to be read or
/// written. Reads and writes share that one position.
pub trait ByteRegion: Sized {
    /// The entire region.
    spec fn data(&self) -> Seq<u8>;

    /// The index of the next byte to be read or written.
    spec fn pos(&self) -> int;

    /// The largest length the region can reach: its length where it cannot grow.
    spec fn max_len(&self) -> int;

    /// Whether the value is consistent.
    spec fn wf(&self) -> bool;

    /// A consistent value has its position within the region and the region
    /// within reach.
    proof fn lemma_wf(&self)
        requires
            self.wf(),
        ensures
            0 <= self.pos() <= self.data().len() <= self.max_len() <= usize::MAX,
    ;
}

/// The bytes from the position to the end of the region.
pub open spec fn rest<B: ByteRegion>(b: B) -> Seq<u8> {
    b.data().subrange(b.pos(), b.data().len() as int)
}

/// Whether at least `n` bytes remain after the position.
pub open spec fn has_ahead<B: ByteRegion>(b: B, n: int) -> bool {
    b.pos() + n <= b.data().len()
}

/// The `n` bytes that start at the position.
pub open spec fn ahead<B: ByteRegion>(b: B, n: int) -> Seq<u8> {
    b.data().subrange(b.pos(), b.pos() + n)
}

/// What a read of `n` bytes does to a buffer: where it succeeds (`ok`, exactly when
/// `n` bytes remain) the position moves past them; the bytes stay as they were.
pub open spec fn read_effect<B: ByteRegion>(before: B, after: B, n: int, ok: bool) -> bool {
    &&& after.wf()
    &&& after.data() == before.data()
    &&& after.max_len() == before.max_len()
    &&& ok <==> has_ahead(before, n)
    &&& after.pos() == if ok {
        before.pos() + n
    } else {
        before.pos()
    }
}

/// Read bytes or numbers.
pub trait BytesRead: ByteRegion {
    /// Returns the entire slice.
    fn as_slice(&self) -> (r: &[u8])
        requires
            self.wf(),
        ensures
            r@ == self.data(),
    ;

    /// Returns the length of the entire slice.
    fn len(&self) -> (r: usize)
        requires
            self.wf(),
        ensures
            r == self.data().len(),
    {
        self.as_slice().len()
    }

    /// Returns all remaining bytes.
    fn remaining(&self) -> (r: &[u8])
        requires
            self.wf(),
        ensures
            r@ == rest(*self),
    ;

    /// Tries to read `len` bytes; fails, reading nothing, where fewer remain.
    fn try_read(&mut self, len: usize) -> (r: Result<&[u8], ReadError>)
        requires
            (*old(self)).wf(),
        ensures
            read_effect(*old(self), *final(self), len as int, r is Ok),
            r matches Ok(s) ==> s@ == ahead(*old(self), len as int),
    ;

    /// Reads `len` bytes, which must remain.
    fn read(&mut self, len: usize) -> (r: &[u8])
        requires
            (*old(self)).wf(),
            has_ahead(*old(self), len as int),
        ensures
            read_effect(*old(self), *final(self), len as int, true),
            r@ == ahead(*old(self), len as int),
    {
        self.try_read(len).expect("failed to read")
    }

    /// Tries to read 1 byte in big-endian converting them into an `u8`.
    fn try_read_u8(&mut self) -> (r: Result<u8, ReadError>)
        requires
            (*old(self)).wf(),
        ensures
            read_effect(*old(self), *final(self), 1, r is Ok),
            r matches Ok(v) ==> v == be_value(ahead(*old(self), 1)),
    {
        proof {
            self.lemma_wf();
        }
        match self.try_read(1) {
            Ok(s) => {
                proof {
                    lemma_be_value_bound(s@);
                    lemma_pow256_widths();
                }
                Ok(be_decode(s) as u8)
            },
            Err(e) => Err(e),
        }
    }

    /// Reads 1 byte in big-endian converting them into an `u8`;
    /// they must remain.
    fn read_u8(&mut self) -> (r: u8)
        requires
            (*old(self)).wf(),
            has_ahead(*old(self), 1),
        ensures
            read_effect(*old(self), *final(self), 1, true),
            r == be_value(ahead(*old(self), 1)),
    {
        self.try_read_u8().expect("failed to read u8")
    }

    /// Tries to read 2 bytes in big-endian converting them into an `u16`.
    fn try_read_u16(&mut self) -> (r: Result<u16, ReadError>)
        requires
            (*old(self)).wf(),
        ensures
            read_effect(*old(self), *final(self), 2, r is Ok),
            r matches Ok(v) ==> v == be_value(ahead(*old(self), 2)),
    {
        proof {
            self.lemma_wf();
        }
        match self.try_read(2) {
            Ok(s) => {
                proof {
                    lemma_be_value_bound(s@);
                    lemma_pow256_widths();
                }
                Ok(be_decode(s) as u16)
            },
            Err(e) => Err(e),
        }
    }

    /// Reads 2 bytes in big-endian converting them into an `u16`;
    /// they must remain.
    fn read_u16(&mut self) -> (r: u16)
        requires
            (*old(self)).wf(),
            has_ahead(*old(self), 2),
        ensures
            read_effect(*old(self), *final(self), 2, true),
            r == be_value(ahead(*old(self), 2)),
    {
        self.try_read_u16().expect("failed to read u16")
    }

    /// Tries to read 4 bytes in big-endian converting them into an `u32`.
    fn try_read_u32(&mut self) -> (r: Result<u32, ReadError>)
        requires
            (*old(self)).wf(),
        ensures
            read_effect(*old(self), *final(self), 4, r is Ok),
            r matches Ok(v) ==> v == be_value(ahead(*old(self), 4)),
    {
        proof {
            self.lemma_wf();
        }
        match self.try_read(4) {
            Ok(s) => {
                proof {
                    lemma_be_value_bound(s@);
                    lemma_pow256_widths();
                }
                Ok(be_decode(s) as u32)
            },
            Err(e) => Err(e),
        }
    }

    /// Reads 4 bytes in big-endian converting them into an `u32`;
    /// they must remain.
    fn read_u32(&mut self) -> (r: u32)
        requires
            (*old(self)).wf(),
            has_ahead(*old(self), 4),
        ensures
            read_effect(*old(self), *final(self), 4, true),
            r == be_value(ahead(*old(self), 4)),
    {
        self.try_read_u32().expect("failed to read u32")
    }

    /// Tries to read 8 bytes in big-endian converting them into an `u64`.
    fn try_read_u64(&mut self) -> (r: Result<u64, ReadError>)
        requires
            (*old(self)).wf(),
        ensures
            read_effect(*old(self), *final(self), 8, r is Ok),
            r matches Ok(v) ==> v == be_value(ahead(*old(self), 8)),
    {
        proof {
            self.lemma_wf();
        }
        match self.try_read(8) {
            Ok(s) => {
                proof {
                    lemma_be_value_bound(s@);
                    lemma_pow256_widths();
                }
                Ok(be_decode(s) as u64)
            },
            Err(e) => Err(e),
        }
    }

    /// Reads 8 bytes in big-endian converting them into an `u64`;
    /// they must remain.
    fn read_u64(&mut self) -> (r: u64)
        requires
            (*old(self)).wf(),
            has_ahead(*old(self), 8),
        ensures
            read_effect(*old(self), *final(self), 8, true),
            r == be_value(ahead(*old(self), 8)),
    {
        self.try_read_u64().expect("failed to read u64")
    }

    /// Tries to read 16 bytes in big-endian converting them into an `u128`.
    fn try_read_u128(&mut self) -> (r: Result<u128, ReadError>)
        requires
            (*old(self)).wf(),
        ensures
            read_effect(*old(self), *final(self), 16, r is Ok),
            r matches Ok(v) ==> v == be_value(ahead(*old(self), 16)),
    {
        proof {
            self.lemma_wf();
        }
        match self.try_read(16) {
            Ok(s) => {
                proof {
                    lemma_be_value_bound(s@);
                    lemma_pow256_widths();
                }
                Ok(be_decode(s) as u128)
            },
            Err(e) => Err(e),
        }
    }

    /// Reads 16 bytes in big-endian converting them into an `u128`;
    /// they must remain.
    fn read_u128(&mut self) -> (r: u128)
        requires
            (*old(self)).wf(),
            has_ahead(*old(self), 16),
        ensures
            read_effect(*old(self), *final(self), 16, true),
            r == be_value(ahead(*old(self), 16)),
    {
        self.try_read_u128().expect("failed to read u128")
    }

    /// Tries to read 1 byte in big-endian converting them into an `i8`.
    fn try_read_i8(&mut self) -> (r: Result<i8, ReadError>)
        requires
            (*old(self)).wf(),
        ensures
            read_effect(*old(self), *final(self), 1, r is Ok),
            r matches Ok(v) ==> v == signed_value(be_value(ahead(*old(self), 1)), 1),
    {
        proof {
            self.lemma_wf();
        }
        match self.try_read(1) {
            Ok(s) => {
                proof {
                    lemma_be_value_bound(s@);
                    lemma_pow256_widths();
                }
                Ok(i8_from_pattern(be_decode(s)))
            },
            Err(e) => Err(e),
        }
    }

    /// Reads 1 byte in big-endian converting them into an `i8`;
    /// they must remain.
    fn read_i8(&mut self) -> (r: i8)
        requires
            (*old(self)).wf(),
            has_ahead(*old(self), 1),
        ensures
            read_effect(*old(self), *final(self), 1, true),
            r == signed_value(be_value(ahead(*old(self), 1)), 1),
    {
        self.try_read_i8().expect("failed to read i8")
    }

    /// Tries to read 2 bytes in big-endian converting them into an `i16`.
    fn try_read_i16(&mut self) -> (r: Result<i16, ReadError>)
        requires
            (*old(self)).wf(),
        ensures
            read_effect(*old(self), *final(self), 2, r is Ok),
            r matches Ok(v) ==> v == signed_value(be_value(ahead(*old(self), 2)), 2),
    {
        proof {
            self.lemma_wf();
        }
        match self.try_read(2) {
            Ok(s) => {
                proof {
                    lemma_be_value_bound(s@);
                    lemma_pow256_widths();
                }
                Ok(i16_from_pattern(be_decode(s)))
            },
            Err(e) => Err(e),
        }
    }

    /// Reads 2 bytes in big-endian converting them into an `i16`;
    /// they must remain.
    fn read_i16(&mut self) -> (r: i16)
        requires
            (*old(self)).wf(),
            has_ahead(*old(self), 2),
        ensures
            read_effect(*old(self), *final(self), 2, true),
            r == signed_value(be_value(ahead(*old(self), 2)), 2),
    {
        self.try_read_i16().expect("failed to read i16")
    }

    /// Tries to read 4 bytes in big-endian converting them into an `i32`.
    fn try_read_i32(&mut self) -> (r: Result<i32, ReadError>)
        requires
            (*old(self)).wf(),
        ensures
            read_effect(*old(self), *final(self), 4, r is Ok),
            r matches Ok(v) ==> v == signed_value(be_value(ahead(*old(self), 4)), 4),
    {
        proof {
            self.lemma_wf();
        }
        match self.try_read(4) {
            Ok(s) => {
                proof {
                    lemma_be_value_bound(s@);
                    lemma_pow256_widths();
                }
                Ok(i32_from_pattern(be_decode(s)))
            },
            Err(e) => Err(e),
        }
    }

    /// Reads 4 bytes in big-endian converting them into an `i32`;
    /// they must remain.
    fn read_i32(&mut self) -> (r: i32)
        requires
            (*old(self)).wf(),
            has_ahead(*old(self), 4),
        ensures
            read_effect(*old(self), *final(self), 4, true),
            r == signed_value(be_value(ahead(*old(self), 4)), 4),
    {
        self.try_read_i32().expect("failed to read i32")
    }

    /// Tries to read 8 bytes in big-endian converting them into an `i64`.
    fn try_read_i64(&mut self) -> (r: Result<i64, ReadError>)
        requires
            (*old(self)).wf(),
        ensures
            read_effect(*old(self), *final(self), 8, r is Ok),
            r matches Ok(v) ==> v == signed_value(be_value(ahead(*old(self), 8)), 8),
    {
        proof {
            self.lemma_wf();
        }
        match self.try_read(8) {
            Ok(s) => {
                proof {
                    lemma_be_value_bound(s@);
                    lemma_pow256_widths();
                }
                Ok(i64_from_pattern(be_decode(s)))
            },
            Err(e) => Err(e),
        }
    }

    /// Reads 8 bytes in big-endian converting them into an `i64`;
    /// they must remain.
    fn read_i64(&mut self) -> (r: i64)
        requires
            (*old(self)).wf(),
            has_ahead(*old(self), 8),
        ensures
            read_effect(*old(self), *final(self), 8, true),
            r == signed_value(be_value(ahead(*old(self), 8)), 8),
    {
        self.try_read_i64().expect("failed to read i64")
    }

    /// Tries to read 16 bytes in big-endian converting them into an `i128`.
    fn try_read_i128(&mut self) -> (r: Result<i128, ReadError>)
        requires
            (*old(self)).wf(),
        ensures
            read_effect(*old(self), *final(self), 16, r is Ok),
            r matches Ok(v) ==> v == signed_value(be_value(ahead(*old(self), 16)), 16),
    {
        proof {
            self.lemma_wf();
        }
        match self.try_read(16) {
            Ok(s) => {
                proof {
                    lemma_be_value_bound(s@);
                    lemma_pow256_widths();
                }
                Ok(i128_from_pattern(be_decode(s)))
            },
            Err(e) => Err(e),
        }
    }

    /// Reads 16 bytes in big-endian converting them into an `i128`;
    /// they must remain.
    fn read_i128(&mut self) -> (r: i128)
        requires
            (*old(self)).wf(),
            has_ahead(*old(self), 16),
        ensures
            read_effect(*old(self), *final(self), 16, true),
            r == signed_value(be_value(ahead(*old(self), 16)), 16),
    {
        self.try_read_i128().expect("failed to read i128")
    }

    /// Tries to read 1 byte in little-endian converting them into an `u8`.
    fn try_read_le_u8(&mut self) -> (r: Result<u8, ReadError>)
        requires
            (*old(self)).wf(),
        ensures
            read_effect(*old(self), *final(self), 1, r is Ok),
            r matches Ok(v) ==> v == le_value(ahead(*old(self), 1)),
    {
        proof {
            self.lemma_wf();
        }
        match self.try_read(1) {
            Ok(s) => {
                proof {
                    lemma_le_value_bound(s@);
                    lemma_pow256_widths();
                }
                Ok(le_decode(s) as u8)
            },
            Err(e) => Err(e),
        }
    }

    /// Reads 1 byte in little-endian converting them into an `u8`;
    /// they must remain.
    fn read_le_u8(&mut self) -> (r: u8)
        requires
            (*old(self)).wf(),
            has_ahead(*old(self), 1),
        ensures
            read_effect(*old(self), *final(self), 1, true),
            r == le_value(ahead(*old(self), 1)),
    {
        self.try_read_le_u8().expect("failed to read u8")
    }

    /// Tries to read 2 bytes in little-endian converting them into an `u16`.
    fn try_read_le_u16(&mut self) -> (r: Result<u16, ReadError>)
        requires
            (*old(self)).wf(),
        ensures
            read_effect(*old(self), *final(self), 2, r is Ok),
            r matches Ok(v) ==> v == le_value(ahead(*old(self), 2)),
    {
        proof {
            self.lemma_wf();
        }
        match self.try_read(2) {
            Ok(s) => {
                proof {
                    lemma_le_value_bound(s@);
                    lemma_pow256_widths();
                }
                Ok(le_decode(s) as u16)
            },
            Err(e) => Err(e),
        }
    }

    /// Reads 2 bytes in little-endian converting them into an `u16`;
    /// they must remain.
    fn read_le_u16(&mut self) -> (r: u16)
        requires
            (*old(self)).wf(),
            has_ahead(*old(self), 2),
        ensures
            read_effect(*old(self), *final(self), 2, true),
            r == le_value(ahead(*old(self), 2)),
    {
        self.try_read_le_u16().expect("failed to read u16")
    }

    /// Tries to read 4 bytes in little-endian converting them into an `u32`.
    fn try_read_le_u32(&mut self) -> (r: Result<u32, ReadError>)
        requires
            (*old(self)).wf(),
        ensures
            read_effect(*old(self), *final(self), 4, r is Ok),
            r matches Ok(v) ==> v == le_value(ahead(*old(self), 4)),
    {
        proof {
            self.lemma_wf();
        }
        match self.try_read(4) {
            Ok(s) => {
                proof {
                    lemma_le_value_bound(s@);
                    lemma_pow256_widths();
                }
                Ok(le_decode(s) as u32)
            },
            Err(e) => Err(e),
        }
    }

    /// Reads 4 bytes in little-endian converting them into an `u32`;
    /// they must remain.
    fn read_le_u32(&mut self) -> (r: u32)
        requires
            (*old(self)).wf(),
            has_ahead(*old(self), 4),
        ensures
            read_effect(*old(self), *final(self), 4, true),
            r == le_value(ahead(*old(self), 4)),
    {
        self.try_read_le_u32().expect("failed to read u32")
    }

    /// Tries to read 8 bytes in little-endian converting them into an `u64`.
    fn try_read_le_u64(&mut self) -> (r: Result<u64, ReadError>)
        requires
            (*old(self)).wf(),
        ensures
            read_effect(*old(self), *final(self), 8, r is Ok),
            r matches Ok(v) ==> v == le_value(ahead(*old(self), 8)),
    {
        proof {
            self.lemma_wf();
        }
        match self.try_read(8) {
            Ok(s) => {
                proof {
                    lemma_le_value_bound(s@);
                    lemma_pow256_widths();
                }
                Ok(le_decode(s) as u64)
            },
            Err(e) => Err(e),
        }
    }

    /// Reads 8 bytes in little-endian converting them into an `u64`;
    /// they must remain.
    fn read_le_u64(&mut self) -> (r: u64)
        requires
            (*old(self)).wf(),
            has_ahead(*old(self), 8),
        ensures
            read_effect(*old(self), *final(self), 8, true),
            r == le_value(ahead(*old(self), 8)),
    {
        self.try_read_le_u64().expect("failed to read u64")
    }

    /// Tries to read 16 bytes in little-endian converting them into an `u128`.
    fn try_read_le_u128(&mut self) -> (r: Result<u128, ReadError>)
        requires
            (*old(self)).wf(),
        ensures
            read_effect(*old(self), *final(self), 16, r is Ok),
            r matches Ok(v) ==> v == le_value(ahead(*old(self), 16)),
    {
        proof {
            self.lemma_wf();
        }
        match self.try_read(16) {
            Ok(s) => {
                proof {
                    lemma_le_value_bound(s@);
                    lemma_pow256_widths();
                }
                Ok(le_decode(s) as u128)
            },
            Err(e) => Err(e),
        }
    }

    /// Reads 16 bytes in little-endian converting them into an `u128`;
    /// they must remain.
    fn read_le_u128(&mut self) -> (r: u128)
        requires
            (*old(self)).wf(),
            has_ahead(*old(self), 16),
        ensures
            read_effect(*old(self), *final(self), 16, true),
            r == le_value(ahead(*old(self), 16)),
    {
        self.try_read_le_u128().expect("failed to read u128")
    }

    /// Tries to read 1 byte in little-endian converting them into an `i8`.
    fn try_read_le_i8(&mut self) -> (r: Result<i8, ReadError>)
        requires
            (*old(self)).wf(),
        ensures
            read_effect(*old(self), *final(self), 1, r is Ok),
            r matches Ok(v) ==> v == signed_value(le_value(ahead(*old(self), 1)), 1),
    {
        proof {
            self.lemma_wf();
        }
        match self.try_read(1) {
            Ok(s) => {
                proof {
                    lemma_le_value_bound(s@);
                    lemma_pow256_widths();
                }
                Ok(i8_from_pattern(le_decode(s)))
            },
            Err(e) => Err(e),
        }
    }

    /// Reads 1 byte in little-endian converting them into an `i8`;
    /// they must remain.
    fn read_le_i8(&mut self) -> (r: i8)
        requires
            (*old(self)).wf(),
            has_ahead(*old(self), 1),
        ensures
            read_effect(*old(self), *final(self), 1, true),
            r == signed_value(le_value(ahead(*old(self), 1)), 1),
    {
        self.try_read_le_i8().expect("failed to read i8")
    }

    /// Tries to read 2 bytes in little-endian converting them into an `i16`.
    fn try_read_le_i16(&mut self) -> (r: Result<i16, ReadError>)
        requires
            (*old(self)).wf(),
        ensures
            read_effect(*old(self), *final(self), 2, r is Ok),
            r matches Ok(v) ==> v == signed_value(le_value(ahead(*old(self), 2)), 2),
    {
        proof {
            self.lemma_wf();
        }
        match self.try_read(2) {
            Ok(s) => {
                proof {
                    lemma_le_value_bound(s@);
                    lemma_pow256_widths();
                }
                Ok(i16_from_pattern(le_decode(s)))
            },
            Err(e) => Err(e),
        }
    }

    /// Reads 2 bytes in little-endian converting them into an `i16`;
    /// they must remain.
    fn read_le_i16(&mut self) -> (r: i16)
        requires
            (*old(self)).wf(),
            has_ahead(*old(self), 2),
        ensures
            read_effect(*old(self), *final(self), 2, true),
            r == signed_value(le_value(ahead(*old(self), 2)), 2),
    {
        self.try_read_le_i16().expect("failed to read i16")
    }

    /// Tries to read 4 bytes in little-endian converting them into an `i32`.
    fn try_read_le_i32(&mut self) -> (r: Result<i32, ReadError>)
        requires
            (*old(self)).wf(),
        ensures
            read_effect(*old(self), *final(self), 4, r is Ok),
            r matches Ok(v) ==> v == signed_value(le_value(ahead(*old(self), 4)), 4),
    {
        proof {
            self.lemma_wf();
        }
        match self.try_read(4) {
            Ok(s) => {
                proof {
                    lemma_le_value_bound(s@);
                    lemma_pow256_widths();
                }
                Ok(i32_from_pattern(le_decode(s)))
            },
            Err(e) => Err(e),
        }
    }

    /// Reads 4 bytes in little-endian converting them into an `i32`;
    /// they must remain.
    fn read_le_i32(&mut self) -> (r: i32)
        requires
            (*old(self)).wf(),
            has_ahead(*old(self), 4),
        ensures
            read_effect(*old(self), *final(self), 4, true),
            r == signed_value(le_value(ahead(*old(self), 4)), 4),
    {
        self.try_read_le_i32().expect("failed to read i32")
    }

    /// Tries to read 8 bytes in little-endian converting them into an `i64`.
    fn try_read_le_i64(&mut self) -> (r: Result<i64, ReadError>)
        requires
            (*old(self)).wf(),
        ensures
            read_effect(*old(self), *final(self), 8, r is Ok),
            r matches Ok(v) ==> v == signed_value(le_value(ahead(*old(self), 8)), 8),
    {
        proof {
            self.lemma_wf();
        }
        match self.try_read(8) {
            Ok(s) => {
                proof {
                    lemma_le_value_bound(s@);
                    lemma_pow256_widths();
                }
                Ok(i64_from_pattern(le_decode(s)))
            },
            Err(e) => Err(e),
        }
    }

    /// Reads 8 bytes in little-endian converting them into an `i64`;
    /// they must remain.
    fn read_le_i64(&mut self) -> (r: i64)
        requires
            (*old(self)).wf(),
            has_ahead(*old(self), 8),
        ensures
            read_effect(*old(self), *final(self), 8, true),
            r == signed_value(le_value(ahead(*old(self), 8)), 8),
    {
        self.try_read_le_i64().expect("failed to read i64")
    }

    /// Tries to read 16 bytes in little-endian converting them into an `i128`.
    fn try_read_le_i128(&mut self) -> (r: Result<i128, ReadError>)
        requires
            (*old(self)).wf(),
        ensures
            read_effect(*old(self), *final(self), 16, r is Ok),
            r matches Ok(v) ==> v == signed_value(le_value(ahead(*old(self), 16)), 16),
    {
        proof {
            self.lemma_wf();
        }
        match self.try_read(16) {
            Ok(s) => {
                proof {
                    lemma_le_value_bound(s@);
                    lemma_pow256_widths();
                }
                Ok(i128_from_pattern(le_decode(s)))
            },
            Err(e) => Err(e),
        }
    }

    /// Reads 16 bytes in little-endian converting them into an `i128`;
    /// they must remain.
    fn read_le_i128(&mut self) -> (r: i128)
        requires
            (*old(self)).wf(),
            has_ahead(*old(self), 16),
        ensures
            read_effect(*old(self), *final(self), 16, true),
            r == signed_value(le_value(ahead(*old(self), 16)), 16),
    {
        self.try_read_le_i128().expect("failed to read i128")
    }

    /// Returns the next `len` bytes without moving the position,
    /// or `None` where fewer remain.
    fn peek(&self, len: usize) -> (r: Option<&[u8]>)
        requires
            self.wf(),
        ensures
            r is Some <==> has_ahead(*self, len as int),
            r matches Some(s) ==> s@ == ahead(*self, len as int),
    ;
}

/// Read bytes while keeping the original reference.
pub trait BytesReadRef<'a>: BytesRead {
    /// Returns the entire slice.
    fn as_slice_ref(&self) -> (r: &'a [u8])
        requires
            self.wf(),
        ensures
            r@ == self.data(),
    ;

    /// Returns all remaining bytes.
    fn remaining_ref(&self) -> (r: &'a [u8])
        requires
            self.wf(),
        ensures
            r@ == rest(*self),
    ;

    /// Tries to read `len` bytes; fails, reading nothing, where fewer remain.
    fn try_read_ref(&mut self, len: usize) -> (r: Result<&'a [u8], ReadError>)
        requires
            (*old(self)).wf(),
        ensures
            read_effect(*old(self), *final(self), len as int, r is Ok),
            r matches Ok(s) ==> s@ == ahead(*old(self), len as int),
    ;

    /// Reads `len` bytes, which must remain.
    fn read_ref(&mut self, len: usize) -> (r: &'a [u8])
        requires
            (*old(self)).wf(),
            has_ahead(*old(self), len as int),
        ensures
            read_effect(*old(self), *final(self), len as int, true),
            r@ == ahead(*old(self), len as int),
    {
        self.try_read_ref(len).expect("failed to read")
    }

    /// Returns the next `len` bytes without moving the position,
    /// or `None` where fewer remain.
    fn peek_ref(&self, len: usize) -> (r: Option<&'a [u8]>)
        requires
            self.wf(),
        ensures
            r is Some <==> has_ahead(*self, len as int),
            r matches Some(s) ==> s@ == ahead(*self, len as int),
    ;
}

} // verus!
