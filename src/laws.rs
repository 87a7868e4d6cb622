//! Properties that relate several operations.
use vstd::prelude::*;

use crate::bytes_array::BytesArray;
use crate::bytes_owned::BytesOwned;
use crate::cursor::Cursor;
use crate::offset::Offset;
use crate::bytes_read::{ahead, has_ahead, read_effect, ByteRegion};
use crate::bytes_seek::{seek_effect, zero_extended};
use crate::bytes_write::write_effect;
use crate::endian::{
    be_bytes, be_value, fits_signed, le_bytes, le_value, lemma_be_round_trip,
    lemma_le_round_trip, lemma_signed_round_trip, pow256, signed_value, twos_pattern,
};

verus! {

/// After a write of `s` at the position of `b0` and a seek back to that
/// position, the next `s.len()` bytes are `s`.
proof fn lemma_written_bytes_ahead<B: ByteRegion>(b0: B, b1: B, b2: B, s: Seq<u8>)
    requires
        b0.wf(),
        write_effect(b0, b1, s, true),
        seek_effect(b1, b2, b0.pos(), Ok(())),
    ensures
        has_ahead(b2, s.len() as int),
        ahead(b2, s.len() as int) == s,
{
    b0.lemma_wf();
    b1.lemma_wf();
    assert(zero_extended(b1.data(), b0.pos()) == b1.data());
    assert(ahead(b2, s.len() as int) =~= s);
}

/// Writing an unsigned integer as `n` bytes in big-endian, seeking back and
/// reading `n` bytes in big-endian gives the integer again.
pub proof fn round_trip_be<B: ByteRegion>(b0: B, b1: B, b2: B, x: nat, n: nat)
    requires
        b0.wf(),
        x < pow256(n),
        write_effect(b0, b1, be_bytes(x, n), true),
        seek_effect(b1, b2, b0.pos(), Ok(())),
    ensures
        has_ahead(b2, n as int),
        be_value(ahead(b2, n as int)) == x,
{
    lemma_written_bytes_ahead(b0, b1, b2, be_bytes(x, n));
    lemma_be_round_trip(x, n);
}

/// Writing an unsigned integer as `n` bytes in little-endian, seeking back and
/// reading `n` bytes in little-endian gives the integer again.
pub proof fn round_trip_le<B: ByteRegion>(b0: B, b1: B, b2: B, x: nat, n: nat)
    requires
        b0.wf(),
        x < pow256(n),
        write_effect(b0, b1, le_bytes(x, n), true),
        seek_effect(b1, b2, b0.pos(), Ok(())),
    ensures
        has_ahead(b2, n as int),
        le_value(ahead(b2, n as int)) == x,
{
    lemma_written_bytes_ahead(b0, b1, b2, le_bytes(x, n));
    lemma_le_round_trip(x, n);
}

/// Writing a signed integer as `n` bytes of two's complement in big-endian,
/// seeking back and reading them as a signed big-endian integer gives the
/// integer again.
pub proof fn round_trip_signed_be<B: ByteRegion>(b0: B, b1: B, b2: B, x: int, n: nat)
    requires
        b0.wf(),
        fits_signed(x, n),
        write_effect(b0, b1, be_bytes(twos_pattern(x, n), n), true),
        seek_effect(b1, b2, b0.pos(), Ok(())),
    ensures
        has_ahead(b2, n as int),
        signed_value(be_value(ahead(b2, n as int)), n) == x,
{
    lemma_signed_round_trip(x, n);
    round_trip_be(b0, b1, b2, twos_pattern(x, n), n);
}

/// Writing a signed integer as `n` bytes of two's complement in little-endian,
/// seeking back and reading them as a signed little-endian integer gives the
/// integer again.
pub proof fn round_trip_signed_le<B: ByteRegion>(b0: B, b1: B, b2: B, x: int, n: nat)
    requires
        b0.wf(),
        fits_signed(x, n),
        write_effect(b0, b1, le_bytes(twos_pattern(x, n), n), true),
        seek_effect(b1, b2, b0.pos(), Ok(())),
    ensures
        has_ahead(b2, n as int),
        signed_value(le_value(ahead(b2, n as int)), n) == x,
{
    lemma_signed_round_trip(x, n);
    round_trip_le(b0, b1, b2, twos_pattern(x, n), n);
}

/// A read of more bytes than remain fails and leaves the position where it
/// was; a read of exactly the remaining bytes then succeeds and reaches the end.
pub proof fn failed_read_consumes_nothing<B: ByteRegion>(
    b0: B,
    b1: B,
    b2: B,
    n: int,
    ok: bool,
)
    requires
        b0.wf(),
        n > b0.data().len() - b0.pos(),
        read_effect(b0, b1, n, false),
        read_effect(b1, b2, b1.data().len() - b1.pos(), ok),
    ensures
        b1.pos() == b0.pos(),
        b1.data() == b0.data(),
        ok,
        b2.pos() == b2.data().len(),
{
}

/// On a growable buffer (one whose reach is `usize::MAX`: a cursor over a
/// `Vec`, or `BytesOwned`) a write succeeds wherever the new end fits a `usize`,
/// and leaves the buffer `max(old length, position + written bytes)` long.
pub proof fn growable_write_never_fails<B: ByteRegion>(b0: B, b1: B, s: Seq<u8>, ok: bool)
    requires
        b0.wf(),
        b0.max_len() == usize::MAX,
        b0.pos() + s.len() <= usize::MAX,
        write_effect(b0, b1, s, ok),
    ensures
        ok,
        b1.data().len() == if b0.data().len() < b0.pos() + s.len() {
            b0.pos() + s.len()
        } else {
            b0.data().len() as int
        },
{
}

/// Growable buffers reach up to `usize::MAX`.
pub proof fn growable_reach(b: BytesOwned, c: Cursor<Vec<u8>>)
    ensures
        b.max_len() == usize::MAX,
        c.max_len() == usize::MAX,
{
}

/// On a fixed-size buffer a write succeeds exactly where the bytes fit before
/// the end, and the length stays the same.
pub proof fn fixed_write_fits<const N: usize>(
    b0: BytesArray<N>,
    b1: BytesArray<N>,
    s: Seq<u8>,
    ok: bool,
)
    requires
        b0.wf(),
        write_effect(b0, b1, s, ok),
    ensures
        ok <==> b0.pos() + s.len() <= N,
        b1.data().len() == b0.data().len(),
{
    b0.lemma_wf();
}

/// A peek and a read of the same length at the same position agree: both
/// succeed or both fail, and they see the same bytes.
pub proof fn peek_matches_read<B: ByteRegion>(
    b: B,
    after: B,
    n: int,
    peeked: Option<Seq<u8>>,
    ok: bool,
    read: Seq<u8>,
)
    requires
        b.wf(),
        peeked is Some <==> has_ahead(b, n),
        peeked matches Some(p) ==> p == ahead(b, n),
        read_effect(b, after, n, ok),
        ok ==> read == ahead(b, n),
    ensures
        peeked is Some <==> ok,
        peeked matches Some(p) ==> p == read,
{
}

/// A write into a buffer whose position is at or past index `k` leaves the
/// bytes before `k` as they were: a window that starts at offset `k` cannot
/// change what lies before it.
pub proof fn write_keeps_bytes_before<B: ByteRegion>(b0: B, b1: B, s: Seq<u8>, ok: bool, k: int)
    requires
        b0.wf(),
        0 <= k <= b0.pos(),
        write_effect(b0, b1, s, ok),
    ensures
        b1.data().subrange(0, k) == b0.data().subrange(0, k),
{
    b0.lemma_wf();
    if ok {
        assert(b1.data().subrange(0, k) =~= b0.data().subrange(0, k));
    }
}

/// Seeking past the end and writing there leaves zeros between the old end and
/// the seek target, with the written bytes right after them.
pub proof fn gap_is_zero_filled<B: ByteRegion>(b0: B, b1: B, b2: B, p: int, s: Seq<u8>)
    requires
        b0.wf(),
        b0.data().len() <= p,
        seek_effect(b0, b1, p, Ok(())),
        write_effect(b1, b2, s, true),
    ensures
        b2.data().len() == p + s.len(),
        b2.data().subrange(0, b0.data().len() as int) == b0.data(),
        forall|i: int| b0.data().len() <= i < p ==> #[trigger] b2.data()[i] == 0,
        b2.data().subrange(p, p + s.len()) == s,
{
    assert(b2.data().subrange(0, b0.data().len() as int) =~= b0.data());
    assert(b2.data().subrange(p, p + s.len()) =~= s);
}

/// A write through an `Offset` never changes the inner bytes before the offset.
pub proof fn offset_write_keeps_hidden_bytes<T: ByteRegion>(
    o0: Offset<T>,
    o1: Offset<T>,
    s: Seq<u8>,
    ok: bool,
)
    requires
        o0.wf(),
        write_effect(o0.spec_inner(), o1.spec_inner(), s, ok),
    ensures
        o1.spec_inner().data().subrange(0, o0.spec_offset() as int) == o0.spec_inner().data().subrange(
            0,
            o0.spec_offset() as int,
        ),
{
    write_keeps_bytes_before(o0.spec_inner(), o1.spec_inner(), s, ok, o0.spec_offset() as int);
}

} // verus!
