//! Fixed-width integers as byte patterns, most significant byte first
//! (big-endian) or least significant byte first (little-endian).
use vstd::prelude::*;

verus! {

/// `256` to the power `n`: the number of distinct `n`-byte patterns.
pub open spec fn pow256(n: nat) -> nat
    decreases n,
{
    if n == 0 {
        1
    } else {
        256 * pow256((n - 1) as nat)
    }
}

/// The unsigned value of a byte pattern read most significant byte first.
pub open spec fn be_value(s: Seq<u8>) -> nat
    decreases s.len(),
{
    if s.len() == 0 {
        0
    } else {
        (be_value(s.drop_last()) * 256 + s.last()) as nat
    }
}

/// The unsigned value of a byte pattern read least significant byte first.
pub open spec fn le_value(s: Seq<u8>) -> nat
    decreases s.len(),
{
    if s.len() == 0 {
        0
    } else {
        (s[0] + 256 * le_value(s.drop_first())) as nat
    }
}

/// The `n` base-256 digits of `u`, most significant first.
pub open spec fn be_bytes(u: nat, n: nat) -> Seq<u8> {
    Seq::new(n, |i: int| ((u / pow256((n - 1 - i) as nat)) % 256) as u8)
}

/// The `n` base-256 digits of `u`, least significant first.
pub open spec fn le_bytes(u: nat, n: nat) -> Seq<u8> {
    Seq::new(n, |i: int| ((u / pow256(i as nat)) % 256) as u8)
}

/// The `n`-byte two's complement pattern of `x`, as an unsigned number.
pub open spec fn twos_pattern(x: int, n: nat) -> nat {
    if x >= 0 {
        x as nat
    } else {
        (x + pow256(n)) as nat
    }
}

/// The signed value of the `n`-byte two's complement pattern `u`.
pub open spec fn signed_value(u: nat, n: nat) -> int {
    if 2 * u < pow256(n) {
        u as int
    } else {
        u - pow256(n)
    }
}

/// Whether `x` fits an `n`-byte two's complement pattern.
pub open spec fn fits_signed(x: int, n: nat) -> bool {
    -pow256(n) <= 2 * x < pow256(n)
}

/// Every power of `256` is positive.
pub proof fn lemma_pow256_positive(n: nat)
    ensures
        pow256(n) >= 1,
    decreases n,
{
    if n > 0 {
        lemma_pow256_positive((n - 1) as nat);
    }
}

/// Powers of `256` grow with the exponent.
pub proof fn lemma_pow256_monotonic(m: nat, n: nat)
    requires
        m <= n,
    ensures
        pow256(m) <= pow256(n),
    decreases n,
{
    if m < n {
        lemma_pow256_monotonic(m, (n - 1) as nat);
        lemma_pow256_positive((n - 1) as nat);
    }
}

/// The pattern sizes of the integer types, as powers of two.
pub proof fn lemma_pow256_widths()
    ensures
        pow256(1) == 0x100,
        pow256(2) == 0x1_0000,
        pow256(4) == 0x1_0000_0000,
        pow256(8) == 0x1_0000_0000_0000_0000,
        pow256(16) == 0x1_0000_0000_0000_0000_0000_0000_0000_0000,
{
    reveal_with_fuel(pow256, 17);
}

/// An `n`-byte pattern read in big-endian is below `256` to the power `n`.
pub proof fn lemma_be_value_bound(s: Seq<u8>)
    ensures
        be_value(s) < pow256(s.len()),
    decreases s.len(),
{
    if s.len() > 0 {
        lemma_be_value_bound(s.drop_last());
        let p = pow256((s.len() - 1) as nat);
        assert(be_value(s.drop_last()) * 256 + s.last() < 256 * p) by (nonlinear_arith)
            requires
                be_value(s.drop_last()) < p,
                s.last() < 256,
        ;
    }
}

/// An `n`-byte pattern read in little-endian is below `256` to the power `n`.
pub proof fn lemma_le_value_bound(s: Seq<u8>)
    ensures
        le_value(s) < pow256(s.len()),
    decreases s.len(),
{
    if s.len() > 0 {
        lemma_le_value_bound(s.drop_first());
        let p = pow256((s.len() - 1) as nat);
        assert(s[0] + 256 * le_value(s.drop_first()) < 256 * p) by (nonlinear_arith)
            requires
                le_value(s.drop_first()) < p,
                s[0] < 256,
        ;
    }
}

/// Dividing by `256` and then by `256^n` divides by `256^(n + 1)`.
proof fn lemma_div_step(u: nat, n: nat)
    ensures
        (u / 256) / pow256(n) == u / pow256(n + 1),
{
    lemma_pow256_positive(n);
    vstd::arithmetic::div_mod::lemma_div_denominator(u as int, 256, pow256(n) as int);
}

/// The big-endian digits of a number below `256^n` read back as that number.
pub proof fn lemma_be_round_trip(u: nat, n: nat)
    requires
        u < pow256(n),
    ensures
        be_value(be_bytes(u, n)) == u,
    decreases n,
{
    if n > 0 {
        let m = (n - 1) as nat;
        let s = be_bytes(u, n);
        let t = be_bytes(u / 256, m);
        assert forall|i: int| 0 <= i < m implies #[trigger] s.drop_last()[i] == t[i] by {
            lemma_div_step(u, (m - 1 - i) as nat);
        }
        assert(s.drop_last() =~= t);
        assert(u / 256 < pow256(m)) by (nonlinear_arith)
            requires
                u < 256 * pow256(m),
        ;
        lemma_be_round_trip(u / 256, m);
        assert(pow256(0) == 1);
        assert(u / 1 == u);
        assert(s.last() == u % 256);
        assert((u / 256) * 256 + u % 256 == u) by (nonlinear_arith);
    }
}

/// The little-endian digits of a number below `256^n` read back as that number.
pub proof fn lemma_le_round_trip(u: nat, n: nat)
    requires
        u < pow256(n),
    ensures
        le_value(le_bytes(u, n)) == u,
    decreases n,
{
    if n > 0 {
        let m = (n - 1) as nat;
        let s = le_bytes(u, n);
        let t = le_bytes(u / 256, m);
        assert forall|i: int| 0 <= i < m implies #[trigger] s.drop_first()[i] == t[i] by {
            lemma_div_step(u, i as nat);
        }
        assert(s.drop_first() =~= t);
        assert(u / 256 < pow256(m)) by (nonlinear_arith)
            requires
                u < 256 * pow256(m),
        ;
        lemma_le_round_trip(u / 256, m);
        assert(pow256(0) == 1);
        assert(u / 1 == u);
        assert(s[0] == u % 256);
        assert(u % 256 + 256 * (u / 256) == u) by (nonlinear_arith);
    }
}

/// The two's complement pattern of a number that fits reads back as that number.
pub proof fn lemma_signed_round_trip(x: int, n: nat)
    requires
        fits_signed(x, n),
    ensures
        twos_pattern(x, n) < pow256(n),
        signed_value(twos_pattern(x, n), n) == x,
{
}

/// Reads a pattern of at most sixteen bytes, most significant byte first.
pub fn be_decode(s: &[u8]) -> (r: u128)
    requires
        s@.len() <= 16,
    ensures
        r == be_value(s@),
{
    let mut acc: u128 = 0;
    let mut i: usize = 0;
    while i < s.len()
        invariant
            i <= s@.len() <= 16,
            acc == be_value(s@.subrange(0, i as int)),
        decreases s@.len() - i,
    {
        proof {
            let t = s@.subrange(0, i as int);
            lemma_be_value_bound(t);
            lemma_pow256_monotonic((i + 1) as nat, 16);
            lemma_pow256_widths();
            assert(s@.subrange(0, i + 1).drop_last() =~= t);
            assert(acc * 256 + s@[i as int] < 256 * pow256(i as nat)) by (nonlinear_arith)
                requires
                    acc < pow256(i as nat),
                    s@[i as int] < 256,
            ;
        }
        acc = acc * 256 + s[i] as u128;
        i = i + 1;
    }
    assert(s@.subrange(0, s@.len() as int) =~= s@);
    acc
}

/// Reads a pattern of at most sixteen bytes, least significant byte first.
pub fn le_decode(s: &[u8]) -> (r: u128)
    requires
        s@.len() <= 16,
    ensures
        r == le_value(s@),
{
    let mut acc: u128 = 0;
    let mut i: usize = s.len();
    while i > 0
        invariant
            i <= s@.len() <= 16,
            acc == le_value(s@.subrange(i as int, s@.len() as int)),
        decreases i,
    {
        let j = i - 1;
        proof {
            let t = s@.subrange(i as int, s@.len() as int);
            lemma_le_value_bound(t);
            lemma_pow256_monotonic((t.len() + 1) as nat, 16);
            lemma_pow256_widths();
            assert(s@.subrange(j as int, s@.len() as int).drop_first() =~= t);
            assert(s@[j as int] + 256 * acc < 256 * pow256(t.len())) by (nonlinear_arith)
                requires
                    acc < pow256(t.len()),
                    s@[j as int] < 256,
            ;
        }
        acc = s[j] as u128 + 256 * acc;
        i = j;
    }
    assert(s@.subrange(0, s@.len() as int) =~= s@);
    acc
}

/// The `n` lowest bytes of `u`, least significant first.
pub fn le_encode(u: u128, n: usize) -> (r: Vec<u8>)
    ensures
        r@ == le_bytes(u as nat, n as nat),
{
    let mut out: Vec<u8> = Vec::new();
    let mut cur: u128 = u;
    let mut i: usize = 0;
    assert(pow256(0) == 1);
    assert(out@ =~= le_bytes(u as nat, 0));
    while i < n
        invariant
            i <= n,
            cur == u as nat / pow256(i as nat),
            out@ == le_bytes(u as nat, i as nat),
        decreases n - i,
    {
        proof {
            lemma_pow256_positive(i as nat);
            vstd::arithmetic::div_mod::lemma_div_denominator(u as int, pow256(i as nat) as int, 256);
            assert(le_bytes(u as nat, (i + 1) as nat) =~= out@.push((cur % 256) as u8));
        }
        out.push((cur % 256) as u8);
        cur = cur / 256;
        i = i + 1;
    }
    out
}

/// The `n` lowest bytes of `u`, most significant first.
pub fn be_encode(u: u128, n: usize) -> (r: Vec<u8>)
    ensures
        r@ == be_bytes(u as nat, n as nat),
{
    let le = le_encode(u, n);
    let mut out: Vec<u8> = Vec::new();
    let mut j: usize = 0;
    while j < n
        invariant
            j <= n,
            le@ == le_bytes(u as nat, n as nat),
            out@ == be_bytes(u as nat, n as nat).subrange(0, j as int),
        decreases n - j,
    {
        out.push(le[n - 1 - j]);
        j = j + 1;
        assert(out@ =~= be_bytes(u as nat, n as nat).subrange(0, j as int));
    }
    assert(out@ =~= be_bytes(u as nat, n as nat));
    out
}

/// The `i8` whose 1-byte two's complement pattern is `u`.
pub fn i8_from_pattern(u: u128) -> (r: i8)
    requires
        u < pow256(1),
    ensures
        r == signed_value(u as nat, 1),
{
    proof {
        lemma_pow256_widths();
    }
    if u < 0x80 {
        u as i8
    } else {
        (u as i16 - 0x100) as i8
    }
}

/// The 1-byte two's complement pattern of `x`.
pub fn i8_pattern(x: i8) -> (r: u128)
    ensures
        r == twos_pattern(x as int, 1),
        r < pow256(1),
{
    proof {
        lemma_pow256_widths();
    }
    if x >= 0 {
        x as u128
    } else {
        (x as i16 + 0x100) as u128
    }
}

/// The `i16` whose 2-byte two's complement pattern is `u`.
pub fn i16_from_pattern(u: u128) -> (r: i16)
    requires
        u < pow256(2),
    ensures
        r == signed_value(u as nat, 2),
{
    proof {
        lemma_pow256_widths();
    }
    if u < 0x8000 {
        u as i16
    } else {
        (u as i32 - 0x1_0000) as i16
    }
}

/// The 2-byte two's complement pattern of `x`.
pub fn i16_pattern(x: i16) -> (r: u128)
    ensures
        r == twos_pattern(x as int, 2),
        r < pow256(2),
{
    proof {
        lemma_pow256_widths();
    }
    if x >= 0 {
        x as u128
    } else {
        (x as i32 + 0x1_0000) as u128
    }
}

/// The `i32` whose 4-byte two's complement pattern is `u`.
pub fn i32_from_pattern(u: u128) -> (r: i32)
    requires
        u < pow256(4),
    ensures
        r == signed_value(u as nat, 4),
{
    proof {
        lemma_pow256_widths();
    }
    if u < 0x8000_0000 {
        u as i32
    } else {
        (u as i64 - 0x1_0000_0000) as i32
    }
}

/// The 4-byte two's complement pattern of `x`.
pub fn i32_pattern(x: i32) -> (r: u128)
    ensures
        r == twos_pattern(x as int, 4),
        r < pow256(4),
{
    proof {
        lemma_pow256_widths();
    }
    if x >= 0 {
        x as u128
    } else {
        (x as i64 + 0x1_0000_0000) as u128
    }
}

/// The `i64` whose 8-byte two's complement pattern is `u`.
pub fn i64_from_pattern(u: u128) -> (r: i64)
    requires
        u < pow256(8),
    ensures
        r == signed_value(u as nat, 8),
{
    proof {
        lemma_pow256_widths();
    }
    if u < 0x8000_0000_0000_0000 {
        u as i64
    } else {
        (u as i128 - 0x1_0000_0000_0000_0000) as i64
    }
}

/// The 8-byte two's complement pattern of `x`.
pub fn i64_pattern(x: i64) -> (r: u128)
    ensures
        r == twos_pattern(x as int, 8),
        r < pow256(8),
{
    proof {
        lemma_pow256_widths();
    }
    if x >= 0 {
        x as u128
    } else {
        (x as i128 + 0x1_0000_0000_0000_0000) as u128
    }
}

/// The `i128` whose sixteen-byte two's complement pattern is `u`.
pub fn i128_from_pattern(u: u128) -> (r: i128)
    ensures
        r == signed_value(u as nat, 16),
{
    proof {
        lemma_pow256_widths();
    }
    if u < 0x8000_0000_0000_0000_0000_0000_0000_0000 {
        u as i128
    } else {
        i128::MIN + (u - 0x8000_0000_0000_0000_0000_0000_0000_0000) as i128
    }
}

/// The sixteen-byte two's complement pattern of `x`.
pub fn i128_pattern(x: i128) -> (r: u128)
    ensures
        r == twos_pattern(x as int, 16),
        r < pow256(16),
{
    proof {
        lemma_pow256_widths();
    }
    if x >= 0 {
        x as u128
    } else {
        (x - i128::MIN) as u128 + 0x8000_0000_0000_0000_0000_0000_0000_0000
    }
}

} // verus!
