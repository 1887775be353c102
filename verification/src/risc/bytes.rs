//! The mathematical model of memory accesses: bytes in little-endian order
//! and the patterns that they spell.

use vstd::prelude::*;
use vstd::arithmetic::div_mod::lemma_small_mod;
use vstd::arithmetic::power2::{
    lemma2_to64,
    lemma_pow2_adds,
    lemma_pow2_pos,
    lemma_pow2_strictly_increases,
    pow2,
};
use crate::risc::bits::{
    all_ones,
    lemma_shift_right_bound,
    lemma_width_masks,
    lemma_width_powers,
    lemma_wrap_is,
    signed_value,
    supported_width,
    wrap,
};

verus! {

/// The number that `bytes` spell in little-endian order: the byte at index
/// `i` counts `2^(8i)` times.
pub open spec fn le_value(bytes: Seq<u8>) -> nat
    decreases bytes.len(),
{
    if bytes.len() == 0 {
        0
    } else {
        le_value(bytes.drop_last()) + bytes.last() as nat * pow2((8 * (bytes.len() - 1)) as nat)
    }
}

/// The byte at index `i` of the pattern `p`, index 0 being the lowest.
pub open spec fn byte_at(p: u128, i: nat) -> u8 {
    ((p >> ((8 * i) as u128)) & 0xFF) as u8
}

/// The `n` lowest bytes of the pattern `p` in little-endian order.
pub open spec fn le_bytes(p: u128, n: nat) -> Seq<u8> {
    Seq::new(n, |i: int| byte_at(p, i as nat))
}

/// The `n` bytes of `mem` from address `addr` on.
pub open spec fn window(mem: Seq<u8>, addr: int, n: nat) -> Seq<u8> {
    Seq::new(n, |i: int| mem[addr + i])
}

/// `mem` after `bytes` were written from address `addr` on: bytes that would
/// fall beyond the end of the memory are not written.
pub open spec fn stored(mem: Seq<u8>, addr: int, bytes: Seq<u8>) -> Seq<u8> {
    Seq::new(
        mem.len(),
        |i: int|
            if addr <= i < addr + bytes.len() {
                bytes[i - addr]
            } else {
                mem[i]
            },
    )
}

/// The pattern of width `w` that spells the same signed number as the
/// pattern `p` of the narrower width `from`: the bits above `from` are copies
/// of the sign bit of `p`.
pub open spec fn sign_extend(p: u128, from: nat, w: nat) -> u128 {
    wrap(signed_value(p, from), w)
}

/// Moving a pattern to the left multiplies by a power of two, as long as no
/// bit leaves the 128.
pub proof fn lemma_shift_left_is_mul(x: u128, s: u128)
    requires
        s < 128,
        x * pow2(s as nat) < pow2(128),
    ensures
        x << s == x * pow2(s as nat),
    decreases s,
{
    lemma_width_powers();
    if s == 0 {
        assert(pow2(0) == 1) by {
            lemma2_to64();
        }
        assert(x << 0u128 == x) by (bit_vector);
    } else {
        let t = (s - 1) as u128;
        lemma_pow2_adds(t as nat, 1);
        assert(pow2(1) == 2) by {
            lemma2_to64();
        }
        lemma_pow2_pos(t as nat);
        assert(x * pow2(t as nat) * 2 == x * pow2(s as nat)) by (nonlinear_arith)
            requires
                pow2(s as nat) == pow2(t as nat) * 2,
        ;
        lemma_shift_left_is_mul(x, t);
        let z = x << t;
        assert(x << s == z + z) by (bit_vector)
            requires
                0 < s < 128,
                t == s - 1,
                z == x << t,
                z < 0x8000_0000_0000_0000_0000_0000_0000_0000u128,
        ;
    }
}

/// One more byte above the bytes assembled so far: the byte, moved into
/// place and joined by `or`, adds its share to the number.
pub proof fn lemma_join_byte(r: u128, b: u8, s: u128, w: nat)
    requires
        supported_width(w),
        s + 8 <= w,
        r < pow2(s as nat),
    ensures
        (r | (((b as u128) << s) & all_ones(w))) == r + b * pow2(s as nat),
        r + b * pow2(s as nat) < pow2((s + 8) as nat),
{
    lemma_width_masks(w);
    lemma_width_powers();
    let k = (128 - w) as u128;
    let m = all_ones(w);
    let x = b as u128;
    let d = pow2(s as nat);
    lemma_pow2_adds(s as nat, 8);
    assert(pow2(8) == 256) by {
        lemma2_to64();
    }
    if s + 8 < 128 {
        lemma_pow2_strictly_increases((s + 8) as nat, 128);
    }
    assert(r + b * d < d * 256 && b * d < d * 256) by (nonlinear_arith)
        requires
            r < d,
            b <= 255,
    ;
    lemma_shift_left_is_mul(x, s);
    lemma_shift_right_bound(r, s, s as nat);
    assert(pow2(0) == 1) by {
        lemma2_to64();
    }
    assert((r | ((x << s) & m)) == r + (x << s)) by (bit_vector)
        requires
            k <= 112,
            m == u128::MAX >> k,
            s + 8 <= 128 - k,
            x < 256,
            r >> s == 0,
    ;
}

/// The construction of the sign extension: the sign bit of a pattern below
/// `2^f` is tested with the mask `2^(f-1)`, and where it is set, joining the
/// bits from `f` up by `or` spells the same signed number in the full width.
pub proof fn lemma_sign_extend_construction(r: u128, f: u128, w: nat)
    requires
        supported_width(w),
        1 <= f <= w,
        r < pow2(f as nat),
    ensures
        (1u128 << ((f - 1) as u128)) & all_ones(w) == pow2((f - 1) as nat),
        (r & (pow2((f - 1) as nat) as u128) == pow2((f - 1) as nat)) <==> r >= pow2(
            (f - 1) as nat,
        ),
        r < pow2((f - 1) as nat) ==> sign_extend(r, f as nat, w) == r,
        f == w ==> sign_extend(r, f as nat, w) == r,
        f < w && r >= pow2((f - 1) as nat) ==> sign_extend(r, f as nat, w) == r | ((all_ones(w)
            << f) & all_ones(w)),
{
    lemma_width_masks(w);
    lemma_width_powers();
    let k = (128 - w) as u128;
    let m = all_ones(w);
    let s1 = (f - 1) as u128;
    assert(pow2(0) == 1) by {
        lemma2_to64();
    }
    lemma_pow2_strictly_increases(s1 as nat, f as nat);
    if f < 128 {
        lemma_pow2_strictly_increases(f as nat, 128);
    }
    lemma_pow2_strictly_increases(s1 as nat, 128);
    assert(1 * pow2(s1 as nat) == pow2(s1 as nat)) by (nonlinear_arith);
    lemma_shift_left_is_mul(1, s1);
    let sb = 1u128 << s1;
    assert(sb & m == sb) by (bit_vector)
        requires
            k <= 112,
            m == u128::MAX >> k,
            s1 < 128 - k,
            sb == 1u128 << s1,
    ;
    if f == w {
        assert((r & sb == sb) <==> r >= sb) by (bit_vector)
            requires
                k <= 112,
                s1 + k == 127,
                m == u128::MAX >> k,
                sb == 1u128 << s1,
                r <= m,
        ;
        if r >= sb {
            lemma_wrap_is(r - pow2(w), w, -1, r);
        } else {
            lemma_wrap_is(r as int, w, 0, r);
        }
    } else {
        lemma_pow2_strictly_increases(f as nat, w);
        lemma_shift_right_bound(r, f, f as nat);
        assert((r & sb == sb) <==> r >= sb) by (bit_vector)
            requires
                f < 128,
                s1 + 1 == f,
                sb == 1u128 << s1,
                r >> f == 0,
        ;
        if r >= sb {
            assert(1 * pow2(f as nat) == pow2(f as nat)) by (nonlinear_arith);
            lemma_shift_left_is_mul(1, f);
            let e = 1u128 << f;
            let x = r | ((m << f) & m);
            assert(x + e == r + m + 1 && x <= m) by (bit_vector)
                requires
                    k <= 112,
                    m == u128::MAX >> k,
                    f < 128 - k,
                    e == 1u128 << f,
                    x == r | ((m << f) & m),
                    r >> f == 0,
            ;
            lemma_wrap_is(r - pow2(f as nat), w, -1, x);
        } else {
            lemma_wrap_is(r as int, w, 0, r);
        }
    }
}

/// The byte that a store takes out of a pattern: a number that a byte holds,
/// whichever way round the mask is applied.
pub proof fn lemma_byte_extract(p: u128, i: nat)
    ensures
        0xFFu128 & (p >> ((8 * i) as u128)) == byte_at(p, i),
        byte_at(p, i) == (p >> ((8 * i) as u128)) & 0xFF,
{
    let y = p >> ((8 * i) as u128);
    assert(0xFFu128 & y == y & 0xFF && (y & 0xFF) <= 255) by (bit_vector);
}

/// The byte at index `i` of a pattern is the digit of weight `256^i`.
pub proof fn lemma_byte_is_digit(p: u128, i: nat)
    requires
        i < 16,
    ensures
        byte_at(p, i) == (p as int / (pow2(8 * i) as int)) % 256,
{
    let s = (8 * i) as u128;
    let y = p >> s;
    vstd::bits::lemma_u128_shr_is_div(p, s);
    assert(y & 0xFF == y % 256 && (y & 0xFF) <= 255) by (bit_vector);
}

/// The bytes of a pattern, read back in little-endian order, spell the
/// pattern's lowest `8n` bits.
pub proof fn lemma_le_bytes_value(p: u128, n: nat)
    requires
        n <= 16,
    ensures
        le_value(le_bytes(p, n)) == p as int % (pow2(8 * n) as int),
    decreases n,
{
    if n == 0 {
        assert(pow2(0) == 1) by {
            lemma2_to64();
        }
    } else {
        let j = (n - 1) as nat;
        let d = pow2(8 * j) as int;
        lemma_le_bytes_value(p, j);
        assert(le_bytes(p, n).drop_last() =~= le_bytes(p, j));
        lemma_byte_is_digit(p, j);
        lemma_pow2_pos(8 * j);
        lemma_pow2_adds(8 * j, 8);
        assert(pow2(8) == 256) by {
            lemma2_to64();
        }
        vstd::arithmetic::div_mod::lemma_mod_breakdown(p as int, d, 256);
        assert(byte_at(p, j) * d == d * ((p as int / d) % 256)) by (nonlinear_arith)
            requires
                byte_at(p, j) == (p as int / d) % 256,
        ;
    }
}

/// What was stored is what is loaded: after the `n` lowest bytes of the
/// pattern `p` were written from `addr` on, the `n` bytes from `addr` on
/// spell the lowest `8n` bits of `p`, and `p` itself where it has no other.
pub proof fn lemma_store_then_load(mem: Seq<u8>, addr: int, p: u128, n: nat)
    requires
        n <= 16,
        0 <= addr,
        addr + n <= mem.len(),
    ensures
        window(stored(mem, addr, le_bytes(p, n)), addr, n) == le_bytes(p, n),
        le_value(window(stored(mem, addr, le_bytes(p, n)), addr, n)) == p as int % (pow2(
            8 * n,
        ) as int),
        p < pow2(8 * n) ==> le_value(window(stored(mem, addr, le_bytes(p, n)), addr, n)) == p,
{
    assert(window(stored(mem, addr, le_bytes(p, n)), addr, n) =~= le_bytes(p, n));
    lemma_le_bytes_value(p, n);
    if p < pow2(8 * n) {
        lemma_small_mod(p as nat, pow2(8 * n));
    }
}

/// The byte `0x80`, sign-extended, is the all-ones pattern of the width but
/// for its seven lowest bits.
pub proof fn lemma_sign_extend_0x80(w: nat)
    requires
        supported_width(w),
    ensures
        sign_extend(0x80, 8, w) == all_ones(w) - 0x7F,
{
    lemma_width_powers();
    lemma2_to64();
    lemma_wrap_is(0x80 - 0x100, w, -1, (all_ones(w) - 0x7F) as u128);
}

} // verus!
