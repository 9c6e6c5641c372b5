//! Interpolation factors, as the bits of a single-precision number.
//!
//! A factor is given by its IEEE 754 bits. Its value, where it lies in
//! `0.0..=1.0`, is the fraction `significand / 2^exponent`; what the blend
//! does with it is computed on that fraction.

use vstd::arithmetic::power2;
use vstd::prelude::*;

verus! {

/// Bits of 1.0.
pub const ONE_BITS: u32 = 0x3f80_0000;

/// Bits of -0.0, which compares equal to 0.0.
pub const NEGATIVE_ZERO_BITS: u32 = 0x8000_0000;

/// Whether the number lies in `0.0..=1.0`. The bits of non-negative numbers
/// are ordered as the numbers are; NaN and negative numbers are outside.
pub open spec fn in_unit_range(bits: u32) -> bool {
    bits <= ONE_BITS || bits == NEGATIVE_ZERO_BITS
}

/// Where a factor of the unit range stands among the others: -0.0 where 0.0 does.
pub open spec fn rank(bits: u32) -> u32 {
    if bits == NEGATIVE_ZERO_BITS {
        0
    } else {
        bits
    }
}

/// Numerator of a factor in the unit range.
pub open spec fn significand(bits: u32) -> nat {
    if bits == NEGATIVE_ZERO_BITS {
        0
    } else if bits < 0x80_0000 {
        bits as nat
    } else {
        (bits % 0x80_0000 + 0x80_0000) as nat
    }
}

/// Power of two in the denominator of a factor in the unit range.
pub open spec fn exponent(bits: u32) -> nat {
    if bits == NEGATIVE_ZERO_BITS || bits < 0x80_0000 {
        149
    } else {
        (150 - bits / 0x80_0000) as nat
    }
}

/// The factor in 1/256 units, rounded down.
pub open spec fn in_256ths(bits: u32) -> nat {
    (significand(bits) * 256) / power2::pow2(exponent(bits))
}

/// How many bits `n` has beyond the 53 that a double-precision number holds.
pub open spec fn excess_bits(n: nat) -> nat
    decreases n,
{
    if n < 0x20_0000_0000_0000 {
        0
    } else {
        1 + excess_bits(n / 2)
    }
}

/// `n` rounded to 53 significant bits, to nearest, ties to even: the value of
/// `n` as a double-precision number.
pub open spec fn round53(n: nat) -> nat {
    let ulp = power2::pow2(excess_bits(n));
    let q = n / ulp;
    let r = n % ulp;
    if 2 * r < ulp || (2 * r == ulp && q % 2 == 0) {
        q * ulp
    } else {
        (q + 1) * ulp
    }
}

/// `delta` times the factor in double precision, rounded down to an integer.
pub open spec fn scaled(delta: u64, bits: u32) -> nat {
    let product = round53(round53(delta as nat) * significand(bits)) / power2::pow2(exponent(bits));
    if product <= u64::MAX {
        product
    } else {
        u64::MAX as nat
    }
}

/// Timestamp at a factor between two others: a frame that is older than the
/// first keeps the first one's time.
pub open spec fn timestamp_between(a: u64, b: u64, bits: u32) -> int {
    if b >= a {
        a + scaled((b - a) as u64, bits)
    } else {
        a as int
    }
}

/// Whether the number lies in `0.0..=1.0`.
pub fn is_in_unit_range(bits: u32) -> (r: bool)
    ensures
        r == in_unit_range(bits),
{
    bits <= ONE_BITS || bits == NEGATIVE_ZERO_BITS
}

fn parts(bits: u32) -> (r: (u32, u32))
    requires
        in_unit_range(bits),
    ensures
        r.0 == significand(bits),
        r.1 == exponent(bits),
        r.0 <= 0x100_0000,
        23 <= r.1 <= 149,
{
    if bits == NEGATIVE_ZERO_BITS {
        (0, 149)
    } else if bits < 0x80_0000 {
        (bits, 149)
    } else {
        (bits % 0x80_0000 + 0x80_0000, 150 - bits / 0x80_0000)
    }
}

/// Halves `n` `k` times, rounding down.
fn shift_down(n: u128, k: u32) -> (r: u128)
    ensures
        r == n as nat / power2::pow2(k as nat),
{
    let mut r: u128 = n;
    let mut i: u32 = 0;
    proof {
        power2::lemma2_to64();
    }
    while i < k
        invariant
            i <= k,
            r == n as nat / power2::pow2(i as nat),
        decreases k - i,
    {
        proof {
            power2::lemma_pow2_pos(i as nat);
            power2::lemma_pow2_unfold((i + 1) as nat);
            vstd::arithmetic::div_mod::lemma_div_denominator(n as int, power2::pow2(i as nat) as int, 2);
        }
        r = r / 2;
        i = i + 1;
    }
    r
}

/// The factor in 1/256 units, rounded down.
pub fn to_256ths(bits: u32) -> (r: u16)
    requires
        in_unit_range(bits),
    ensures
        r == in_256ths(bits),
        r <= 256,
{
    let (sig, exp): (u32, u32) = parts(bits);
    let n: u128 = shift_down(sig as u128 * 256, exp);
    proof {
        lemma_unit_bound(bits);
    }
    n as u16
}

/// A factor in the unit range is at most one.
proof fn lemma_unit_bound(bits: u32)
    requires
        in_unit_range(bits),
    ensures
        significand(bits) <= power2::pow2(exponent(bits)),
        in_256ths(bits) <= 256,
{
    power2::lemma2_to64();
    let e = exponent(bits);
    if e >= 24 {
        if e > 24 {
            power2::lemma_pow2_strictly_increases(24, e);
        }
        assert(significand(bits) <= 0x100_0000);
    } else {
        assert(e == 23);
        assert(bits / 0x80_0000 == 127);
        assert(bits == ONE_BITS);
    }
    power2::lemma_pow2_pos(e);
    let d = power2::pow2(e) as int;
    vstd::arithmetic::div_mod::lemma_div_is_ordered((significand(bits) * 256) as int, d * 256, d);
    vstd::arithmetic::div_mod::lemma_div_multiples_vanish(256, d);
}

/// `n` rounded to 53 significant bits, to nearest, ties to even.
fn round_to_53(n: u128) -> (r: u128)
    requires
        n <= 0x100_0000_0000_0000_0000_0000,
    ensures
        r == round53(n as nat),
        n <= 0x1_0000_0000_0000_0000 ==> r <= 0x1_0000_0000_0000_0000,
{
    let mut q: u128 = n;
    let mut ulp: u128 = 1;
    let ghost mut k: nat = 0;
    proof {
        power2::lemma2_to64();
    }
    while q >= 0x20_0000_0000_0000
        invariant
            n <= 0x100_0000_0000_0000_0000_0000,
            ulp == power2::pow2(k),
            ulp >= 1,
            q == n as nat / power2::pow2(k),
            excess_bits(n as nat) == k + excess_bits(q as nat),
            q * ulp <= n,
        decreases q,
    {
        proof {
            power2::lemma_pow2_unfold(k + 1);
            power2::lemma_pow2_pos(k);
            vstd::arithmetic::div_mod::lemma_div_denominator(n as int, power2::pow2(k) as int, 2);
            assert(ulp * 0x20_0000_0000_0000 <= n) by (nonlinear_arith)
                requires
                    q * ulp <= n,
                    q >= 0x20_0000_0000_0000,
                    ulp >= 1,
            ;
            assert((q / 2) * (ulp * 2) <= q * ulp) by (nonlinear_arith)
                requires
                    ulp >= 1,
            ;
            k = k + 1;
        }
        q = q / 2;
        ulp = ulp * 2;
    }
    let r: u128 = n % ulp;
    proof {
        power2::lemma_pow2_pos(k);
        vstd::arithmetic::div_mod::lemma_fundamental_div_mod(n as int, ulp as int);
        vstd::arithmetic::mul::lemma_mul_is_commutative(ulp as int, q as int);
        assert((q + 1) * ulp == q * ulp + ulp) by (nonlinear_arith);
        lemma_ulp_bound(n as nat);
        if n <= 0x1_0000_0000_0000_0000 {
            power2::lemma2_to64();
            power2::lemma2_to64_rest();
            lemma_round_at_most(n as nat, 1, 64);
        }
    }
    if 2 * r < ulp || (2 * r == ulp && q % 2 == 0) {
        q * ulp
    } else {
        (q + 1) * ulp
    }
}

/// The unit of the last place is one, or at most the number itself.
proof fn lemma_ulp_bound(n: nat)
    ensures
        power2::pow2(excess_bits(n)) <= n + 1,
        n < 0x20_0000_0000_0000 * power2::pow2(excess_bits(n)),
        n >= 0x20_0000_0000_0000 ==> 0x10_0000_0000_0000 * power2::pow2(excess_bits(n)) <= n,
    decreases n,
{
    power2::lemma2_to64();
    if n >= 0x20_0000_0000_0000 {
        lemma_ulp_bound(n / 2);
        power2::lemma_pow2_unfold(excess_bits(n));
        assert(power2::pow2(excess_bits(n)) == 2 * power2::pow2(excess_bits(n / 2)));
        if n / 2 < 0x20_0000_0000_0000 {
            assert(excess_bits(n / 2) == 0);
        }
    }
}

/// Rounding does not take a number over one that needs no rounding.
proof fn lemma_round_at_most(x: nat, m: nat, j: nat)
    requires
        x <= m * power2::pow2(j),
        m < 0x20_0000_0000_0000,
    ensures
        round53(x) <= m * power2::pow2(j),
{
    let k = excess_bits(x);
    let ulp = power2::pow2(k);
    let y = m * power2::pow2(j);
    let q = x / ulp;
    power2::lemma2_to64();
    power2::lemma_pow2_pos(k);
    power2::lemma_pow2_pos(j);
    lemma_ulp_bound(x);
    vstd::arithmetic::div_mod::lemma_fundamental_div_mod(x as int, ulp as int);
    vstd::arithmetic::mul::lemma_mul_is_commutative(ulp as int, q as int);
    assert((q + 1) * ulp == q * ulp + ulp) by (nonlinear_arith);
    if k <= j {
        // `y` is a multiple of `ulp`, so what lies below it rounds to at most `y`.
        power2::lemma_pow2_adds(k, (j - k) as nat);
        let c = m * power2::pow2((j - k) as nat);
        assert(y == c * ulp) by (nonlinear_arith)
            requires
                y == m * power2::pow2(j),
                power2::pow2(j) == ulp * power2::pow2((j - k) as nat),
                c == m * power2::pow2((j - k) as nat),
        ;
        if x < y {
            assert(q + 1 <= c) by (nonlinear_arith)
                requires
                    q * ulp <= x,
                    x < c * ulp,
                    ulp > 0,
            ;
            assert((q + 1) * ulp <= c * ulp) by (nonlinear_arith)
                requires
                    q + 1 <= c,
                    ulp > 0,
            ;
        } else {
            vstd::arithmetic::div_mod::lemma_mod_multiples_basic(c as int, ulp as int);
        }
    } else {
        // A number with more excess than `j` is larger than `y`.
        power2::lemma_pow2_adds((j + 1) as nat, (k - j - 1) as nat);
        power2::lemma_pow2_unfold((j + 1) as nat);
        power2::lemma_pow2_pos((k - j - 1) as nat);
        assert(2 * power2::pow2(j) <= ulp) by (nonlinear_arith)
            requires
                ulp == (2 * power2::pow2(j)) * power2::pow2((k - j - 1) as nat),
                power2::pow2((k - j - 1) as nat) >= 1,
        ;
        assert(m * power2::pow2(j) < 0x20_0000_0000_0000 * power2::pow2(j)) by (nonlinear_arith)
            requires
                m < 0x20_0000_0000_0000,
                power2::pow2(j) > 0,
        ;
        assert(x >= 0x20_0000_0000_0000);
        assert(false);
    }
}

/// A number of at most 53 bits needs no rounding.
proof fn lemma_round_exact(n: nat)
    requires
        n < 0x20_0000_0000_0000,
    ensures
        round53(n) == n,
{
    power2::lemma2_to64();
    assert(excess_bits(n) == 0);
    assert(power2::pow2(0) == 1);
    assert(n / 1 == n && n % 1 == 0);
    assert(n * 1 == n);
}

/// `delta` times the factor in double precision, rounded down to an integer
/// that fits.
pub fn scale(delta: u64, bits: u32) -> (r: u64)
    requires
        in_unit_range(bits),
    ensures
        r == scaled(delta, bits),
{
    let (sig, exp): (u32, u32) = parts(bits);
    let d: u128 = round_to_53(delta as u128);
    assert(d * sig <= 0x100_0000_0000_0000_0000_0000) by (nonlinear_arith)
        requires
            d <= 0x1_0000_0000_0000_0000,
            sig <= 0x100_0000,
    ;
    let p: u128 = round_to_53(d * sig as u128);
    let product: u128 = shift_down(p, exp);
    if product <= u64::MAX as u128 {
        product as u64
    } else {
        u64::MAX
    }
}

/// Timestamp at a factor between two others.
pub fn timestamp_at(a: u64, b: u64, bits: u32) -> (r: u64)
    requires
        in_unit_range(bits),
        timestamp_between(a, b, bits) <= u64::MAX,
    ensures
        r == timestamp_between(a, b, bits),
{
    if b >= a {
        a + scale(b - a, bits)
    } else {
        a
    }
}

/// The quantized factor grows with the factor.
pub proof fn law_quantized_factor_is_monotone(s: u32, t: u32)
    requires
        in_unit_range(s),
        in_unit_range(t),
        rank(s) <= rank(t),
    ensures
        in_256ths(s) <= in_256ths(t) <= 256,
        in_256ths(0) == 0,
        in_256ths(NEGATIVE_ZERO_BITS) == 0,
        in_256ths(ONE_BITS) == 256,
{
    lemma_quantized_monotone(rank(s), rank(t));
    assert(in_256ths(s) == in_256ths(rank(s)));
    assert(in_256ths(t) == in_256ths(rank(t)));
}

proof fn lemma_quantized_monotone(s: u32, t: u32)
    requires
        s <= t <= ONE_BITS,
    ensures
        in_256ths(s) <= in_256ths(t) <= 256,
        in_256ths(0) == 0,
        in_256ths(ONE_BITS) == 256,
{
    let (p, d) = (significand(s), exponent(s));
    let (q, e) = (significand(t), exponent(t));
    power2::lemma2_to64();
    power2::lemma_pow2_pos(d);
    power2::lemma_pow2_pos(e);
    power2::lemma_pow2_pos(149);
    vstd::arithmetic::div_mod::lemma_basic_div(0, power2::pow2(149) as int);
    lemma_unit_bound(t);
    assert(exponent(ONE_BITS) == 23);
    assert(significand(ONE_BITS) == 0x80_0000);
    if d == e {
        vstd::arithmetic::div_mod::lemma_div_is_ordered(
            (p * 256) as int,
            (q * 256) as int,
            power2::pow2(e) as int,
        );
    } else {
        assert(s / 0x80_0000 < t / 0x80_0000);
        assert(d > e);
        assert(q >= 0x80_0000);
        assert(p <= 0x100_0000);
        power2::lemma_pow2_adds(e, (d - e) as nat);
        power2::lemma_pow2_pos((d - e) as nat);
        power2::lemma_pow2_unfold((d - e) as nat);
        power2::lemma_pow2_pos((d - e - 1) as nat);
        let big = power2::pow2(d) as int;
        let small = power2::pow2(e) as int;
        assert(big >= 2 * small) by (nonlinear_arith)
            requires
                big == small * power2::pow2((d - e) as nat),
                power2::pow2((d - e) as nat) >= 2,
                small > 0,
        ;
        vstd::arithmetic::div_mod::lemma_div_is_ordered((p * 256) as int, 0x1_0000_0000, big);
        vstd::arithmetic::div_mod::lemma_div_is_ordered_by_denominator(
            0x1_0000_0000,
            2 * small,
            big,
        );
        vstd::arithmetic::div_mod::lemma_div_denominator(0x1_0000_0000, 2, small);
        vstd::arithmetic::div_mod::lemma_div_is_ordered(0x8000_0000, (q * 256) as int, small);
    }
}

/// A timestamp between two others is not before the first, and not after the
/// second wherever the time between them is not rounded up to double precision;
/// up to 2^53 nanoseconds (104 days) it is not rounded at all. At factor 0 it is
/// the first, and at factor 1 the second wherever nothing is rounded.
pub proof fn law_timestamp_stays_between(a: u64, b: u64, bits: u32)
    requires
        a <= b,
        in_unit_range(bits),
    ensures
        a <= timestamp_between(a, b, bits),
        round53((b - a) as nat) <= b - a ==> timestamp_between(a, b, bits) <= b,
        b - a <= 0x20_0000_0000_0000 ==> round53((b - a) as nat) == b - a,
        significand(bits) == 0 ==> timestamp_between(a, b, bits) == a,
        bits == ONE_BITS && round53((b - a) as nat) == b - a ==> timestamp_between(a, b, bits) == b,
{
    let delta = (b - a) as nat;
    let m = round53(delta);
    let sig = significand(bits);
    let e = exponent(bits);
    power2::lemma2_to64();
    power2::lemma_pow2_pos(e);
    lemma_unit_bound(bits);
    let k = excess_bits(delta);
    let q = lemma_round_shape(delta);
    power2::lemma_pow2_adds(k, e);
    assert(q * power2::pow2(k + e) == m * power2::pow2(e)) by (nonlinear_arith)
        requires
            m == q * power2::pow2(k),
            power2::pow2(k + e) == power2::pow2(k) * power2::pow2(e),
    ;
    assert(m * sig <= m * power2::pow2(e)) by (nonlinear_arith)
        requires
            sig <= power2::pow2(e),
    ;
    lemma_round_at_most_wide(m * sig, q, k + e);
    let d = power2::pow2(e) as int;
    let p = round53(m * sig) as int;
    vstd::arithmetic::div_mod::lemma_div_is_ordered(p, m * d, d);
    vstd::arithmetic::div_mod::lemma_div_multiples_vanish(m as int, d);
    vstd::arithmetic::mul::lemma_mul_is_commutative(m as int, d);
    vstd::arithmetic::div_mod::lemma_div_pos_is_pos(p, d);
    if delta < 0x20_0000_0000_0000 {
        lemma_round_exact(delta);
    } else if delta == 0x20_0000_0000_0000 {
        lemma_carry(0);
        lemma_round_of_multiple(1, 53);
    }
    if sig == 0 {
        assert(m * sig == 0) by (nonlinear_arith)
            requires
                sig == 0,
        ;
        lemma_round_exact(0);
        vstd::arithmetic::div_mod::lemma_basic_div(0, d);
    }
    if bits == ONE_BITS {
        assert(e == 23 && sig == 0x80_0000);
        assert(m * sig == q * power2::pow2(k + e));
        lemma_round_of_multiple_wide(q, k + e);
    }
}

/// What is rounded is at most 2^53 units in its last place.
proof fn lemma_round_shape(n: nat) -> (q: nat)
    ensures
        q <= 0x20_0000_0000_0000,
        round53(n) == q * power2::pow2(excess_bits(n)),
{
    let ulp = power2::pow2(excess_bits(n));
    power2::lemma_pow2_pos(excess_bits(n));
    lemma_ulp_bound(n);
    let c = n / ulp;
    assert(c < 0x20_0000_0000_0000) by (nonlinear_arith)
        requires
            c == n / ulp,
            n < 0x20_0000_0000_0000 * ulp,
            ulp > 0,
    ;
    if round53(n) == c * ulp {
        c
    } else {
        c + 1
    }
}

/// 2^53 shifted up is 1 shifted further.
proof fn lemma_carry(j: nat)
    ensures
        0x20_0000_0000_0000 * power2::pow2(j) == 1 * power2::pow2(53 + j),
{
    power2::lemma2_to64();
    power2::lemma2_to64_rest();
    power2::lemma_pow2_adds(53, j);
}

proof fn lemma_round_at_most_wide(x: nat, m: nat, j: nat)
    requires
        x <= m * power2::pow2(j),
        m <= 0x20_0000_0000_0000,
    ensures
        round53(x) <= m * power2::pow2(j),
{
    if m == 0x20_0000_0000_0000 {
        lemma_carry(j);
        lemma_round_at_most(x, 1, 53 + j);
    } else {
        lemma_round_at_most(x, m, j);
    }
}

proof fn lemma_round_of_multiple_wide(m: nat, j: nat)
    requires
        m <= 0x20_0000_0000_0000,
    ensures
        round53(m * power2::pow2(j)) == m * power2::pow2(j),
{
    if m == 0x20_0000_0000_0000 {
        lemma_carry(j);
        lemma_round_of_multiple(1, 53 + j);
    } else {
        lemma_round_of_multiple(m, j);
    }
}

/// A number of at most 53 bits, shifted up, needs no rounding.
proof fn lemma_round_of_multiple(m: nat, j: nat)
    requires
        m < 0x20_0000_0000_0000,
    ensures
        round53(m * power2::pow2(j)) == m * power2::pow2(j),
{
    let x = m * power2::pow2(j);
    let k = excess_bits(x);
    let ulp = power2::pow2(k);
    power2::lemma2_to64();
    power2::lemma_pow2_pos(j);
    power2::lemma_pow2_pos(k);
    lemma_excess_at_most_shift(m, j);
    power2::lemma_pow2_adds(k, (j - k) as nat);
    let c = m * power2::pow2((j - k) as nat);
    assert(x == c * ulp) by (nonlinear_arith)
        requires
            x == m * power2::pow2(j),
            power2::pow2(j) == ulp * power2::pow2((j - k) as nat),
            c == m * power2::pow2((j - k) as nat),
    ;
    vstd::arithmetic::div_mod::lemma_mod_multiples_basic(c as int, ulp as int);
    vstd::arithmetic::div_mod::lemma_fundamental_div_mod(x as int, ulp as int);
    vstd::arithmetic::mul::lemma_mul_is_commutative(ulp as int, (x / ulp) as int);
}

proof fn lemma_excess_at_most_shift(m: nat, j: nat)
    requires
        m < 0x20_0000_0000_0000,
    ensures
        excess_bits(m * power2::pow2(j)) <= j,
    decreases j,
{
    power2::lemma2_to64();
    power2::lemma_pow2_pos(j);
    if j > 0 && m * power2::pow2(j) >= 0x20_0000_0000_0000 {
        power2::lemma_pow2_unfold(j);
        let h = power2::pow2((j - 1) as nat);
        assert(m * power2::pow2(j) == 2 * (m * h)) by (nonlinear_arith)
            requires
                power2::pow2(j) == 2 * h,
        ;
        lemma_excess_at_most_shift(m, (j - 1) as nat);
    } else if j == 0 {
        assert(m * power2::pow2(0) == m) by (nonlinear_arith)
            requires
                power2::pow2(0) == 1,
        ;
    }
}

/// The fraction of a factor is the number that its bits stand for. It is 0 for zeros
/// of both signs and 1 for 1.0; the next number up is larger by one in the numerator
/// as long as the exponent bits are the same; and one more in the exponent bits
/// doubles a number that is not subnormal. The smallest of those comes right after
/// the largest subnormal one.
pub proof fn law_fraction_is_the_number(bits: u32)
    ensures
        significand(0) == 0,
        significand(NEGATIVE_ZERO_BITS) == 0,
        significand(ONE_BITS) == 0x80_0000,
        exponent(ONE_BITS) == 23,
        exponent(0) == 149,
        significand(0x80_0000) == significand(0x7f_ffff) + 1,
        exponent(0x80_0000) == exponent(0x7f_ffff),
        bits < ONE_BITS && bits % 0x80_0000 < 0x7f_ffff ==> significand((bits + 1) as u32)
            == significand(bits) + 1 && exponent((bits + 1) as u32) == exponent(bits),
        0x80_0000 <= bits && bits + 0x80_0000 <= ONE_BITS ==> significand(
            (bits + 0x80_0000) as u32,
        ) == significand(bits) && exponent((bits + 0x80_0000) as u32) + 1 == exponent(bits),
{
}

/// The quantized factor is the factor in 1/256 units, rounded down.
pub proof fn law_quantized_factor_is_rounded_down(bits: u32)
    requires
        in_unit_range(bits),
    ensures
        ({
            let d = power2::pow2(exponent(bits));
            let q = in_256ths(bits);
            q * d <= 256 * significand(bits) < (q + 1) * d
        }),
{
    let d = power2::pow2(exponent(bits)) as int;
    let n = (significand(bits) * 256) as int;
    power2::lemma_pow2_pos(exponent(bits));
    vstd::arithmetic::div_mod::lemma_fundamental_div_mod(n, d);
    let q = n / d;
    assert(q * d <= n < (q + 1) * d) by (nonlinear_arith)
        requires
            n == d * q + n % d,
            0 <= n % d < d,
    ;
}

/// Between frames that are at most 2^29 nanoseconds apart, about half a second, the
/// timestamp is linear in the factor, rounded down. Frames that are not in order
/// give the time of the first, whatever the factor.
pub proof fn law_timestamp_is_linear(a: u64, b: u64, bits: u32)
    requires
        in_unit_range(bits),
    ensures
        ({
            let d = power2::pow2(exponent(bits));
            let past = timestamp_between(a, b, bits) - a;
            &&& a <= b && b - a <= 0x2000_0000 ==> past * d <= (b - a) * significand(bits) < (past
                + 1) * d
            &&& b < a ==> past == 0
        }),
{
    if a <= b && b - a <= 0x2000_0000 {
        let delta = (b - a) as nat;
        let sig = significand(bits);
        let d = power2::pow2(exponent(bits)) as int;
        power2::lemma_pow2_pos(exponent(bits));
        lemma_round_exact(delta);
        lemma_unit_bound(bits);
        assert(sig <= 0x100_0000 - 1);
        let p = delta * sig;
        assert(0 <= p < 0x20_0000_0000_0000) by (nonlinear_arith)
            requires
                p == delta * sig,
                0 <= delta <= 0x2000_0000,
                0 <= sig <= 0x100_0000 - 1,
        ;
        lemma_round_exact(p);
        vstd::arithmetic::div_mod::lemma_fundamental_div_mod(p as int, d);
        let q = p as int / d;
        assert(q * d <= p < (q + 1) * d && q <= p) by (nonlinear_arith)
            requires
                p == d * q + p as int % d,
                0 <= p as int % d < d,
                p >= 0,
        ;
        assert(scaled((b - a) as u64, bits) == q);
    }
}

/// Rounding gives a number of at most 53 significant bits, and none such is nearer. Half
/// way between two of them it gives the even one.
pub proof fn law_rounding_is_to_nearest(n: nat, m: nat, j: nat) -> (q: nat)
    requires
        m <= 0x20_0000_0000_0000,
    ensures
        q <= 0x20_0000_0000_0000,
        round53(n) == q * power2::pow2(excess_bits(n)),
        ({
            let y = m * power2::pow2(j);
            let r = round53(n);
            let error = if r >= n {
                r - n
            } else {
                n - r
            };
            &&& y >= n ==> error <= y - n
            &&& y <= n ==> error <= n - y
        }),
        2 * (n % power2::pow2(excess_bits(n))) == power2::pow2(excess_bits(n)) ==> q % 2 == 0,
{
    let k = excess_bits(n);
    let ulp = power2::pow2(k);
    let c = n / ulp;
    let rem = n % ulp;
    let y = m * power2::pow2(j);
    power2::lemma2_to64();
    power2::lemma_pow2_pos(k);
    power2::lemma_pow2_pos(j);
    lemma_ulp_bound(n);
    vstd::arithmetic::div_mod::lemma_fundamental_div_mod(n as int, ulp as int);
    vstd::arithmetic::mul::lemma_mul_is_commutative(ulp as int, c as int);
    assert((c + 1) * ulp == c * ulp + ulp) by (nonlinear_arith);
    assert(c < 0x20_0000_0000_0000) by (nonlinear_arith)
        requires
            c == n / ulp,
            n < 0x20_0000_0000_0000 * ulp,
            ulp > 0,
    ;
    if k == 0 {
        assert(n / 1 == n && n % 1 == 0);
        assert(n * 1 == n);
        n
    } else {
        assert(n >= 0x20_0000_0000_0000);
        assert(c >= 0x10_0000_0000_0000) by (nonlinear_arith)
            requires
                0x10_0000_0000_0000 * ulp <= n,
                n == c * ulp + rem,
                rem < ulp,
                ulp > 0,
        ;
        if c * ulp < y < (c + 1) * ulp {
            if j >= k {
                power2::lemma_pow2_adds(k, (j - k) as nat);
                let d = m * power2::pow2((j - k) as nat);
                assert(y == d * ulp) by (nonlinear_arith)
                    requires
                        y == m * power2::pow2(j),
                        power2::pow2(j) == ulp * power2::pow2((j - k) as nat),
                        d == m * power2::pow2((j - k) as nat),
                ;
                assert(false) by (nonlinear_arith)
                    requires
                        c * ulp < d * ulp < (c + 1) * ulp,
                        ulp > 0,
                ;
            } else {
                power2::lemma_pow2_adds(j, (k - j) as nat);
                power2::lemma_pow2_unfold((k - j) as nat);
                power2::lemma_pow2_pos((k - j - 1) as nat);
                let h = power2::pow2((k - j - 1) as nat);
                let p = power2::pow2(j);
                assert(y <= 0x10_0000_0000_0000 * ulp) by (nonlinear_arith)
                    requires
                        y == m * p,
                        m <= 0x20_0000_0000_0000,
                        ulp == p * (2 * h),
                        h >= 1,
                        p >= 1,
                ;
                assert(false) by (nonlinear_arith)
                    requires
                        c * ulp < y,
                        y <= 0x10_0000_0000_0000 * ulp,
                        c >= 0x10_0000_0000_0000,
                        ulp > 0,
                ;
            }
        }
        if 2 * rem < ulp || (2 * rem == ulp && c % 2 == 0) {
            c
        } else {
            c + 1
        }
    }
}

/// The factors that are accepted are those from 0.0 to 1.0 and -0.0: no number above 1.0,
/// no negative one, no infinity and nothing that is not a number.
pub proof fn law_accepted_factors(bits: u32)
    ensures
        in_unit_range(bits) <==> bits <= 0x3f80_0000 || bits == 0x8000_0000,
        in_unit_range(bits) && bits != 0x8000_0000 ==> significand(bits) <= power2::pow2(
            exponent(bits),
        ),
{
    if in_unit_range(bits) {
        lemma_unit_bound(bits);
    }
}

} // verus!
