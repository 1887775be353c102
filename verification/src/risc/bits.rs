//! The mathematical model of a register: a bit pattern of a fixed width,
//! written as the natural number below `2^width` that it spells.

use vstd::prelude::*;
use vstd::arithmetic::div_mod::{
    lemma_fundamental_div_mod,
    lemma_fundamental_div_mod_converse,
    lemma_mod_bound,
};
use vstd::arithmetic::power2::{
    lemma2_to64,
    lemma_pow2_adds,
    lemma_pow2_pos,
    lemma_pow2_strictly_increases,
    pow2,
};
use vstd::bits::lemma_u128_shr_is_div;

verus! {

/// The register widths that the core supports, in bits.
pub open spec fn supported_width(w: nat) -> bool {
    w == 16 || w == 32 || w == 64 || w == 128
}

/// The pattern of width `w` with every bit set.
pub open spec fn all_ones(w: nat) -> u128 {
    (pow2(w) - 1) as u128
}

/// The pattern of width `w` with only the highest bit set.
pub open spec fn sign_bit(w: nat) -> u128 {
    pow2((w - 1) as nat) as u128
}

/// The pattern of width `w` that spells the integer `x` in two's complement:
/// `x` reduced modulo `2^w`.
pub open spec fn wrap(x: int, w: nat) -> u128 {
    (x % (pow2(w) as int)) as u128
}

/// The integer that the pattern `p` of width `w` spells in two's complement.
pub open spec fn signed_value(p: u128, w: nat) -> int {
    if p >= sign_bit(w) {
        p - pow2(w)
    } else {
        p as int
    }
}

/// The integer that the pattern `p` of width `w` spells, read as signed or
/// as unsigned.
pub open spec fn value_of(p: u128, w: nat, signed: bool) -> int {
    if signed {
        signed_value(p, w)
    } else {
        p as int
    }
}

/// The largest number that a type of width `w` holds, signed or unsigned.
pub open spec fn largest(w: nat, signed: bool) -> int {
    if signed {
        pow2((w - 1) as nat) - 1
    } else {
        pow2(w) - 1
    }
}

/// The number of places by which a shift moves, given the pattern `n` of the
/// shift operand: only `n` modulo the width counts.
pub open spec fn shift_amount(n: u128, w: nat) -> u128 {
    (n as nat % w) as u128
}

/// The pattern `p` of width `w` moved `n` places to the left, zeros coming in
/// from below and the bits that leave the width dropped.
pub open spec fn shift_left(p: u128, n: u128, w: nat) -> u128 {
    (p << n) & all_ones(w)
}

/// The pattern `p` of width `w` moved `n` places to the right as a signed
/// number: the two's complement value of `p` divided by `2^n`, rounded down,
/// and spelled again in the width.
pub open spec fn shift_right_arithmetic(p: u128, n: u128, w: nat) -> u128 {
    wrap(signed_value(p, w) / (pow2(n as nat) as int), w)
}

/// The pattern of width `w` whose `n` highest bits are set and no other.
pub open spec fn top_bits(n: u128, w: nat) -> u128 {
    all_ones(w) ^ (all_ones(w) >> n)
}

/// The powers of two at the supported widths and at their sign bits.
pub proof fn lemma_width_powers()
    ensures
        pow2(15) == 0x8000,
        pow2(16) == 0x1_0000,
        pow2(31) == 0x8000_0000,
        pow2(32) == 0x1_0000_0000,
        pow2(63) == 0x8000_0000_0000_0000,
        pow2(64) == 0x1_0000_0000_0000_0000,
        pow2(127) == 0x8000_0000_0000_0000_0000_0000_0000_0000,
        pow2(128) == 0x1_0000_0000_0000_0000_0000_0000_0000_0000,
{
    lemma2_to64();
    lemma_pow2_adds(31, 32);
    lemma_pow2_adds(63, 64);
    lemma_pow2_adds(64, 64);
}

/// A pattern that differs from `x` by a multiple of `2^w` is `x` reduced to
/// the width.
pub proof fn lemma_wrap_is(x: int, w: nat, q: int, r: u128)
    requires
        x == q * pow2(w) + r,
        r < pow2(w),
    ensures
        wrap(x, w) == r,
{
    lemma_pow2_pos(w);
    lemma_fundamental_div_mod_converse(x, pow2(w) as int, q, r as int);
}

/// The all-ones pattern and the sign bit of a supported width, written with
/// shifts.
pub proof fn lemma_width_masks(w: nat)
    requires
        supported_width(w),
    ensures
        all_ones(w) == u128::MAX >> ((128 - w) as u128),
        sign_bit(w) == 1u128 << ((w - 1) as u128),
        sign_bit(w) <= all_ones(w),
{
    lemma_width_powers();
    assert(u128::MAX >> 112u128 == 0xFFFFu128 && u128::MAX >> 96u128 == 0xFFFF_FFFFu128
        && u128::MAX >> 64u128 == 0xFFFF_FFFF_FFFF_FFFFu128 && u128::MAX >> 0u128 == u128::MAX
        && 1u128 << 15u128 == 0x8000u128 && 1u128 << 31u128 == 0x8000_0000u128 && 1u128
        << 63u128 == 0x8000_0000_0000_0000u128 && 1u128 << 127u128
        == 0x8000_0000_0000_0000_0000_0000_0000_0000u128) by (bit_vector);
}

/// A pattern has its sign bit set exactly when it is at or above the sign bit.
pub proof fn lemma_sign_test(p: u128, w: nat)
    requires
        supported_width(w),
        p <= all_ones(w),
    ensures
        (p & sign_bit(w) == sign_bit(w)) <==> p >= sign_bit(w),
{
    lemma_width_masks(w);
    let k = (128 - w) as u128;
    let m = all_ones(w);
    let sb = sign_bit(w);
    let s = (w - 1) as u128;
    assert((p & sb == sb) <==> p >= sb) by (bit_vector)
        requires
            k <= 112,
            s + k == 127,
            m == u128::MAX >> k,
            sb == 1u128 << s,
            p <= m,
    ;
}

/// All that lies below `2^w` and is moved `n` places to the right lies
/// below `2^(w - n)`; the all-ones pattern lands on the all-ones pattern of
/// the narrower width.
pub proof fn lemma_shift_right_bound(p: u128, n: u128, w: nat)
    requires
        w <= 128,
        n <= w,
        n < 128,
        p < pow2(w),
    ensures
        p >> n == p as int / (pow2(n as nat) as int),
        (p >> n) < pow2((w - n) as nat),
        p == pow2(w) - 1 ==> (p >> n) == pow2((w - n) as nat) - 1,
{
    let d = pow2(n as nat) as int;
    let h = pow2((w - n) as nat) as int;
    lemma_pow2_pos(n as nat);
    lemma_pow2_pos((w - n) as nat);
    lemma_pow2_adds((w - n) as nat, n as nat);
    lemma_u128_shr_is_div(p, n);
    lemma_fundamental_div_mod(p as int, d);
    lemma_mod_bound(p as int, d);
    let q = p as int / d;
    assert(q < h) by (nonlinear_arith)
        requires
            p == d * q + p as int % d,
            0 <= p as int % d,
            p < h * d,
            d > 0,
    ;
    if p == pow2(w) - 1 {
        assert(p == (h - 1) * d + (d - 1)) by (nonlinear_arith)
            requires
                p == h * d - 1,
        ;
        lemma_fundamental_div_mod_converse(p as int, d, h - 1, d - 1);
    }
}

/// The construction of the arithmetic shift from the logical one: where the
/// sign bit is set, the bits that the logical shift left empty are set; the
/// result is the signed value divided by `2^n`.
pub proof fn lemma_sra_construction(p: u128, n: u128, w: nat)
    requires
        supported_width(w),
        p <= all_ones(w),
        n < w,
    ensures
        p < sign_bit(w) ==> shift_right_arithmetic(p, n, w) == p >> n,
        p >= sign_bit(w) ==> shift_right_arithmetic(p, n, w) == (p >> n) | top_bits(n, w),
        p >= sign_bit(w) ==> shift_right_arithmetic(p, n, w) == (p >> n) + pow2(w) - pow2(
            (w - n) as nat,
        ),
{
    lemma_width_masks(w);
    lemma_width_powers();
    let m = all_ones(w);
    let d = pow2(n as nat) as int;
    let h = pow2((w - n) as nat) as int;
    let q = p as int / d;
    lemma_pow2_pos(n as nat);
    lemma_pow2_pos((w - n) as nat);
    lemma_pow2_adds((w - n) as nat, n as nat);
    lemma_shift_right_bound(p, n, w);
    lemma_shift_right_bound(m, n, w);
    lemma_pow2_strictly_increases((w - n) as nat, w + 1);
    if p < sign_bit(w) {
        lemma_wrap_is(q, w, 0, p >> n);
    } else {
        lemma_fundamental_div_mod(p as int, d);
        lemma_mod_bound(p as int, d);
        assert(p - pow2(w) == (q - h) * d + p as int % d) by (nonlinear_arith)
            requires
                p == d * q + p as int % d,
                pow2(w) == h * d,
        ;
        lemma_fundamental_div_mod_converse(p - pow2(w), d, q - h, p as int % d);
        let k = (128 - w) as u128;
        let t = top_bits(n, w);
        assert(((p >> n) | t) == (p >> n) + (m - (m >> n))) by (bit_vector)
            requires
                k <= 112,
                m == u128::MAX >> k,
                t == m ^ (m >> n),
                p <= m,
                n < 128 - k,
        ;
        let r = ((p >> n) | t);
        lemma_wrap_is(q - h, w, -1, r);
    }
}

/// The arithmetic shift of a pattern whose sign bit is clear is the logical
/// shift; that of a pattern whose sign bit is set has its `n` highest bits
/// set, and the logical shift below them.
pub proof fn lemma_sra_extends_sign(p: u128, n: u128, w: nat)
    requires
        supported_width(w),
        p <= all_ones(w),
        n < w,
    ensures
        p < sign_bit(w) ==> shift_right_arithmetic(p, n, w) == p >> n,
        p >= sign_bit(w) ==> shift_right_arithmetic(p, n, w) & top_bits(n, w) == top_bits(n, w),
        p >= sign_bit(w) ==> shift_right_arithmetic(p, n, w) & !top_bits(n, w) == p >> n,
        shift_right_arithmetic(p, n, w) <= all_ones(w),
{
    lemma_sra_construction(p, n, w);
    lemma_width_masks(w);
    let k = (128 - w) as u128;
    let m = all_ones(w);
    let t = top_bits(n, w);
    let x = p >> n;
    assert(((x | t) & t == t) && ((x | t) & !t == x) && (x | t) <= m && x <= m) by (bit_vector)
        requires
            k <= 112,
            m == u128::MAX >> k,
            t == m ^ (m >> n),
            n < 128 - k,
            p <= m,
            x == p >> n,
    ;
}

} // verus!
