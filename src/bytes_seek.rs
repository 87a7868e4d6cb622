//! Moving the position.
use vstd::prelude::*;

use crate::bytes_read::ByteRegion;

verus! {

/// Returned when a seek goes past the furthest position that the buffer can
/// reach; that position is carried.
#[derive(Debug, Clone, Copy, PartialEq, Eq, Structural)]
pub struct SeekError(pub usize);

/// `d` extended with zeros to length `n` where it is shorter.
pub open spec fn zero_extended(d: Seq<u8>, n: int) -> Seq<u8> {
    if n <= d.len() {
        d
    } else {
        d + Seq::new((n - d.len()) as nat, |i: int| 0u8)
    }
}

/// What a seek to `p` does to a buffer: it succeeds exactly where `p` is within
/// reach; the buffer then grows with zeros up to `p` where it is shorter, and the
/// position becomes `p`. A failed seek carries the furthest reachable position
/// and changes nothing.
pub open spec fn seek_effect<B: ByteRegion>(
    before: B,
    after: B,
    p: int,
    r: Result<(), SeekError>,
) -> bool {
    &&& after.wf()
    &&& after.max_len() == before.max_len()
    &&& r is Ok <==> p <= before.max_len()
    &&& match r {
        Ok(_) => after.pos() == p && after.data() == zero_extended(before.data(), p),
        Err(e) => {
            &&& e.0 == before.max_len()
            &&& after.pos() == before.pos()
            &&& after.data() == before.data()
        },
    }
}

/// Sets the position for writing or reading.
pub trait BytesSeek: ByteRegion {
    /// Returns the position.
    fn position(&self) -> (r: usize)
        requires
            self.wf(),
        ensures
            r == self.pos(),
    ;

    /// Returns the furthest position that a seek can reach.
    fn max_position(&self) -> (r: usize)
        requires
            self.wf(),
        ensures
            r == self.max_len(),
    ;

    /// Sets the position if it is within reach.
    fn try_seek(&mut self, pos: usize) -> (r: Result<(), SeekError>)
        requires
            (*old(self)).wf(),
        ensures
            seek_effect(*old(self), *final(self), pos as int, r),
    ;

    /// Sets the position, which must be within reach.
    fn seek(&mut self, pos: usize)
        requires
            (*old(self)).wf(),
            pos <= (*old(self)).max_len(),
        ensures
            seek_effect(*old(self), *final(self), pos as int, Ok(())),
    {
        self.try_seek(pos).expect("failed to seek")
    }

    /// Moves the position forward by `adv` if the new position is within reach.
    fn try_advance(&mut self, adv: usize) -> (r: Result<(), SeekError>)
        requires
            (*old(self)).wf(),
        ensures
            seek_effect(*old(self), *final(self), (*old(self)).pos() + adv, r),
    {
        proof {
            self.lemma_wf();
        }
        let pos = self.position();
        if adv <= usize::MAX - pos {
            self.try_seek(pos + adv)
        } else {
            Err(SeekError(self.max_position()))
        }
    }

    /// Moves the position forward by `adv`; the new position must be within reach.
    fn advance(&mut self, adv: usize)
        requires
            (*old(self)).wf(),
            (*old(self)).pos() + adv <= (*old(self)).max_len(),
        ensures
            seek_effect(*old(self), *final(self), (*old(self)).pos() + adv, Ok(())),
    {
        self.try_advance(adv).expect("failed to advance")
    }
}

} // verus!
