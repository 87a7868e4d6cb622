//! Copying bytes into slices and vectors.
use vstd::prelude::*;

use crate::bytes_write::overwrite;

verus! {

/// Copies `src` into `dst` starting at index `at`.
pub fn copy_into(dst: &mut [u8], at: usize, src: &[u8])
    requires
        at + src@.len() <= old(dst)@.len(),
    ensures
        final(dst)@ == overwrite(old(dst)@, at as int, src@),
{
    let ghost d0 = dst@;
    assert(d0.len() == dst.len());
    let mut i: usize = 0;
    while i < src.len()
        invariant
            at + src@.len() <= d0.len() <= usize::MAX,
            i <= src@.len(),
            dst@.len() == d0.len(),
            forall|k: int|
                0 <= k < d0.len() ==> #[trigger] dst@[k] == if at <= k < at + i {
                    src@[k - at]
                } else {
                    d0[k]
                },
        decreases src@.len() - i,
    {
        dst[at + i] = src[i];
        i = i + 1;
    }
    assert(dst@ =~= overwrite(d0, at as int, src@));
}

/// Writes `slice` into `vec` at `pos`, overwriting what is there and appending
/// what goes past the end; returns the position after the written bytes.
pub fn write_or_alloc(vec: &mut Vec<u8>, pos: usize, slice: &[u8]) -> (r: usize)
    requires
        pos <= old(vec)@.len(),
        pos + slice@.len() <= usize::MAX,
    ensures
        final(vec)@ == overwrite(old(vec)@, pos as int, slice@),
        r == pos + slice@.len(),
{
    let ghost v0 = vec@;
    let rem_len = vec.len() - pos;
    // enough space
    if slice.len() <= rem_len {
        copy_into(vec.as_mut_slice(), pos, slice);
        return pos + slice.len();
    }
    // not enough space
    let head = vstd::slice::slice_subrange(slice, 0, rem_len);
    copy_into(vec.as_mut_slice(), pos, head);
    let mut i: usize = rem_len;
    while i < slice.len()
        invariant
            rem_len <= i <= slice@.len(),
            rem_len == v0.len() - pos,
            vec@ == overwrite(v0, pos as int, slice@.subrange(0, i as int)),
        decreases slice@.len() - i,
    {
        vec.push(slice[i]);
        i = i + 1;
        assert(vec@ =~= overwrite(v0, pos as int, slice@.subrange(0, i as int)));
    }
    assert(slice@.subrange(0, i as int) =~= slice@);
    pos + slice.len()
}

/// Where a stream-style seek counts from, with its offset.
#[derive(Debug, Clone, Copy, PartialEq, Eq, Structural)]
pub enum SeekFrom {
    /// An absolute position.
    Start(u64),
    /// A distance from the end of the region: the length plus the offset.
    End(i64),
    /// A distance from the position.
    Current(i64),
}

/// Why a stream-style seek has no target position.
#[derive(Debug, Clone, Copy, PartialEq, Eq, Structural)]
pub enum SeekFromError {
    /// The length or the position it counts from does not fit an `i64`.
    TooLarge,
    /// The target is negative, does not fit an `i64`, or does not fit a `usize`.
    OutOfRange,
}

/// A target that must not be negative and must fit both an `i64` and a `usize`.
pub open spec fn checked_target(t: int) -> Result<int, SeekFromError> {
    if 0 <= t <= i64::MAX && t <= usize::MAX {
        Ok(t)
    } else {
        Err(SeekFromError::OutOfRange)
    }
}

/// The position a stream-style seek aims at in a region of `len` bytes whose
/// position is `pos`, or why there is none.
pub open spec fn seek_from_target(len: int, pos: int, from: SeekFrom) -> Result<
    int,
    SeekFromError,
> {
    match from {
        SeekFrom::Start(start) => if start <= usize::MAX {
            Ok(start as int)
        } else {
            Err(SeekFromError::OutOfRange)
        },
        SeekFrom::End(end) => if len > i64::MAX {
            Err(SeekFromError::TooLarge)
        } else {
            checked_target(len + end)
        },
        SeekFrom::Current(curr) => if pos > i64::MAX {
            Err(SeekFromError::TooLarge)
        } else {
            checked_target(pos + curr)
        },
    }
}

fn checked_position(t: i128) -> (r: Result<usize, SeekFromError>)
    ensures
        match r {
            Ok(n) => checked_target(t as int) == Ok::<int, SeekFromError>(n as int),
            Err(e) => checked_target(t as int) == Err::<int, SeekFromError>(e),
        },
{
    if 0 <= t && t <= i64::MAX as i128 && t <= usize::MAX as i128 {
        Ok(t as usize)
    } else {
        Err(SeekFromError::OutOfRange)
    }
}

/// Turns a stream-style seek into the absolute position it aims at.
pub fn seek_from_to_n_pos(inner_len: usize, pos: usize, seek_from: SeekFrom) -> (r: Result<
    usize,
    SeekFromError,
>)
    ensures
        match r {
            Ok(n) => seek_from_target(inner_len as int, pos as int, seek_from) == Ok::<
                int,
                SeekFromError,
            >(n as int),
            Err(e) => seek_from_target(inner_len as int, pos as int, seek_from) == Err::<
                int,
                SeekFromError,
            >(e),
        },
{
    match seek_from {
        SeekFrom::Start(start) => {
            if start <= usize::MAX as u64 {
                Ok(start as usize)
            } else {
                Err(SeekFromError::OutOfRange)
            }
        },
        SeekFrom::End(end) => {
            if inner_len as u64 > i64::MAX as u64 {
                Err(SeekFromError::TooLarge)
            } else {
                checked_position(inner_len as i128 + end as i128)
            }
        },
        SeekFrom::Current(curr) => {
            if pos as u64 > i64::MAX as u64 {
                Err(SeekFromError::TooLarge)
            } else {
                checked_position(pos as i128 + curr as i128)
            }
        },
    }
}

} // verus!
