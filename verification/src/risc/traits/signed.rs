//! The signed native integers as register values. A signed value carries
//! the pattern of its cast to the unsigned type of its width, and every
//! operation but the order is the unsigned one on that pattern.

use vstd::prelude::*;
use crate::risc::bits::lemma_width_powers;
use crate::risc::traits::pattern::BitPattern;

verus! {

/// The cast between `i16` and `u16` keeps all 16 bits: it adds `2^16` to a
/// negative number, and back.
pub proof fn lemma_i16_pattern(x: i16, y: u16)
    by (bit_vector)
    ensures
        x < 0 ==> (x as u16) == x + 0x1_0000,
        x >= 0 ==> (x as u16) == x,
        ((x as u16) as i16) == x,
        ((y as i16) as u16) == y,
{
}

/// The pattern of a signed value, as a value of the unsigned type.
pub fn i16_to_pattern(x: i16) -> (r: u16)
    ensures
        r.bits() == x.bits(),
{
    #[verifier::truncate]
    (x as u16)
}

/// The signed value with the pattern of `y`.
pub fn i16_from_pattern(y: u16) -> (r: i16)
    ensures
        r.bits() == y.bits(),
{
    proof {
        lemma_i16_pattern(0, y);
    }
    #[verifier::truncate]
    (y as i16)
}

impl BitPattern for i16 {
    open spec fn width() -> nat {
        16
    }

    open spec fn signed() -> bool {
        true
    }

    open spec fn bits(self) -> u128 {
        (self as u16) as u128
    }

    proof fn lemma_width() {
    }

    proof fn lemma_bits_fit(self) {
        lemma_width_powers();
    }

    proof fn lemma_bits_decide(self, other: Self) {
        lemma_i16_pattern(self, 0);
        lemma_i16_pattern(other, 0);
    }

    fn bytes() -> (r: usize) {
        2
    }

    fn zero() -> (r: Self) {
        0
    }

    fn wrapping_add(self, v: Self) -> (r: Self) {
        i16_from_pattern(BitPattern::wrapping_add(i16_to_pattern(self), i16_to_pattern(v)))
    }

    fn wrapping_sub(self, v: Self) -> (r: Self) {
        i16_from_pattern(BitPattern::wrapping_sub(i16_to_pattern(self), i16_to_pattern(v)))
    }

    fn wrapping_mul(self, v: Self) -> (r: Self) {
        i16_from_pattern(BitPattern::wrapping_mul(i16_to_pattern(self), i16_to_pattern(v)))
    }

    fn bit_xor(self, v: Self) -> (r: Self) {
        i16_from_pattern(BitPattern::bit_xor(i16_to_pattern(self), i16_to_pattern(v)))
    }

    fn bit_or(self, v: Self) -> (r: Self) {
        i16_from_pattern(BitPattern::bit_or(i16_to_pattern(self), i16_to_pattern(v)))
    }

    fn bit_and(self, v: Self) -> (r: Self) {
        i16_from_pattern(BitPattern::bit_and(i16_to_pattern(self), i16_to_pattern(v)))
    }

    fn shift_left(self, n: Self) -> (r: Self) {
        i16_from_pattern(BitPattern::shift_left(i16_to_pattern(self), i16_to_pattern(n)))
    }

    fn shift_right(self, n: Self) -> (r: Self) {
        i16_from_pattern(BitPattern::shift_right(i16_to_pattern(self), i16_to_pattern(n)))
    }

    fn same(self, v: Self) -> (r: bool) {
        proof {
            lemma_i16_pattern(self, 0);
            lemma_i16_pattern(v, 0);
        }
        self == v
    }

    fn less(self, v: Self) -> (r: bool) {
        proof {
            lemma_width_powers();
            lemma_i16_pattern(self, 0);
            lemma_i16_pattern(v, 0);
        }
        self < v
    }

    fn from_u8(n: u8) -> (r: Option<Self>) {
        Some(n as i16)
    }

    fn from_usize(n: usize) -> (r: Option<Self>) {
        proof {
            lemma_width_powers();
        }
        if n <= 0x7FFF {
            Some(n as i16)
        } else {
            None
        }
    }

    fn to_u8(self) -> (r: Option<u8>) {
        proof {
            lemma_width_powers();
            lemma_i16_pattern(self, 0);
        }
        if 0 <= self && self <= 255 {
            Some(self as u8)
        } else {
            None
        }
    }
}

/// The cast between `i32` and `u32` keeps all 32 bits: it adds `2^32` to a
/// negative number, and back.
pub proof fn lemma_i32_pattern(x: i32, y: u32)
    by (bit_vector)
    ensures
        x < 0 ==> (x as u32) == x + 0x1_0000_0000,
        x >= 0 ==> (x as u32) == x,
        ((x as u32) as i32) == x,
        ((y as i32) as u32) == y,
{
}

/// The pattern of a signed value, as a value of the unsigned type.
pub fn i32_to_pattern(x: i32) -> (r: u32)
    ensures
        r.bits() == x.bits(),
{
    #[verifier::truncate]
    (x as u32)
}

/// The signed value with the pattern of `y`.
pub fn i32_from_pattern(y: u32) -> (r: i32)
    ensures
        r.bits() == y.bits(),
{
    proof {
        lemma_i32_pattern(0, y);
    }
    #[verifier::truncate]
    (y as i32)
}

impl BitPattern for i32 {
    open spec fn width() -> nat {
        32
    }

    open spec fn signed() -> bool {
        true
    }

    open spec fn bits(self) -> u128 {
        (self as u32) as u128
    }

    proof fn lemma_width() {
    }

    proof fn lemma_bits_fit(self) {
        lemma_width_powers();
    }

    proof fn lemma_bits_decide(self, other: Self) {
        lemma_i32_pattern(self, 0);
        lemma_i32_pattern(other, 0);
    }

    fn bytes() -> (r: usize) {
        4
    }

    fn zero() -> (r: Self) {
        0
    }

    fn wrapping_add(self, v: Self) -> (r: Self) {
        i32_from_pattern(BitPattern::wrapping_add(i32_to_pattern(self), i32_to_pattern(v)))
    }

    fn wrapping_sub(self, v: Self) -> (r: Self) {
        i32_from_pattern(BitPattern::wrapping_sub(i32_to_pattern(self), i32_to_pattern(v)))
    }

    fn wrapping_mul(self, v: Self) -> (r: Self) {
        i32_from_pattern(BitPattern::wrapping_mul(i32_to_pattern(self), i32_to_pattern(v)))
    }

    fn bit_xor(self, v: Self) -> (r: Self) {
        i32_from_pattern(BitPattern::bit_xor(i32_to_pattern(self), i32_to_pattern(v)))
    }

    fn bit_or(self, v: Self) -> (r: Self) {
        i32_from_pattern(BitPattern::bit_or(i32_to_pattern(self), i32_to_pattern(v)))
    }

    fn bit_and(self, v: Self) -> (r: Self) {
        i32_from_pattern(BitPattern::bit_and(i32_to_pattern(self), i32_to_pattern(v)))
    }

    fn shift_left(self, n: Self) -> (r: Self) {
        i32_from_pattern(BitPattern::shift_left(i32_to_pattern(self), i32_to_pattern(n)))
    }

    fn shift_right(self, n: Self) -> (r: Self) {
        i32_from_pattern(BitPattern::shift_right(i32_to_pattern(self), i32_to_pattern(n)))
    }

    fn same(self, v: Self) -> (r: bool) {
        proof {
            lemma_i32_pattern(self, 0);
            lemma_i32_pattern(v, 0);
        }
        self == v
    }

    fn less(self, v: Self) -> (r: bool) {
        proof {
            lemma_width_powers();
            lemma_i32_pattern(self, 0);
            lemma_i32_pattern(v, 0);
        }
        self < v
    }

    fn from_u8(n: u8) -> (r: Option<Self>) {
        Some(n as i32)
    }

    fn from_usize(n: usize) -> (r: Option<Self>) {
        proof {
            lemma_width_powers();
        }
        if n <= 0x7FFF_FFFF {
            Some(n as i32)
        } else {
            None
        }
    }

    fn to_u8(self) -> (r: Option<u8>) {
        proof {
            lemma_width_powers();
            lemma_i32_pattern(self, 0);
        }
        if 0 <= self && self <= 255 {
            Some(self as u8)
        } else {
            None
        }
    }
}

/// The cast between `i64` and `u64` keeps all 64 bits: it adds `2^64` to a
/// negative number, and back.
pub proof fn lemma_i64_pattern(x: i64, y: u64)
    by (bit_vector)
    ensures
        x < 0 ==> (x as u64) == x + 0x1_0000_0000_0000_0000,
        x >= 0 ==> (x as u64) == x,
        ((x as u64) as i64) == x,
        ((y as i64) as u64) == y,
{
}

/// The pattern of a signed value, as a value of the unsigned type.
pub fn i64_to_pattern(x: i64) -> (r: u64)
    ensures
        r.bits() == x.bits(),
{
    #[verifier::truncate]
    (x as u64)
}

/// The signed value with the pattern of `y`.
pub fn i64_from_pattern(y: u64) -> (r: i64)
    ensures
        r.bits() == y.bits(),
{
    proof {
        lemma_i64_pattern(0, y);
    }
    #[verifier::truncate]
    (y as i64)
}

impl BitPattern for i64 {
    open spec fn width() -> nat {
        64
    }

    open spec fn signed() -> bool {
        true
    }

    open spec fn bits(self) -> u128 {
        (self as u64) as u128
    }

    proof fn lemma_width() {
    }

    proof fn lemma_bits_fit(self) {
        lemma_width_powers();
    }

    proof fn lemma_bits_decide(self, other: Self) {
        lemma_i64_pattern(self, 0);
        lemma_i64_pattern(other, 0);
    }

    fn bytes() -> (r: usize) {
        8
    }

    fn zero() -> (r: Self) {
        0
    }

    fn wrapping_add(self, v: Self) -> (r: Self) {
        i64_from_pattern(BitPattern::wrapping_add(i64_to_pattern(self), i64_to_pattern(v)))
    }

    fn wrapping_sub(self, v: Self) -> (r: Self) {
        i64_from_pattern(BitPattern::wrapping_sub(i64_to_pattern(self), i64_to_pattern(v)))
    }

    fn wrapping_mul(self, v: Self) -> (r: Self) {
        i64_from_pattern(BitPattern::wrapping_mul(i64_to_pattern(self), i64_to_pattern(v)))
    }

    fn bit_xor(self, v: Self) -> (r: Self) {
        i64_from_pattern(BitPattern::bit_xor(i64_to_pattern(self), i64_to_pattern(v)))
    }

    fn bit_or(self, v: Self) -> (r: Self) {
        i64_from_pattern(BitPattern::bit_or(i64_to_pattern(self), i64_to_pattern(v)))
    }

    fn bit_and(self, v: Self) -> (r: Self) {
        i64_from_pattern(BitPattern::bit_and(i64_to_pattern(self), i64_to_pattern(v)))
    }

    fn shift_left(self, n: Self) -> (r: Self) {
        i64_from_pattern(BitPattern::shift_left(i64_to_pattern(self), i64_to_pattern(n)))
    }

    fn shift_right(self, n: Self) -> (r: Self) {
        i64_from_pattern(BitPattern::shift_right(i64_to_pattern(self), i64_to_pattern(n)))
    }

    fn same(self, v: Self) -> (r: bool) {
        proof {
            lemma_i64_pattern(self, 0);
            lemma_i64_pattern(v, 0);
        }
        self == v
    }

    fn less(self, v: Self) -> (r: bool) {
        proof {
            lemma_width_powers();
            lemma_i64_pattern(self, 0);
            lemma_i64_pattern(v, 0);
        }
        self < v
    }

    fn from_u8(n: u8) -> (r: Option<Self>) {
        Some(n as i64)
    }

    fn from_usize(n: usize) -> (r: Option<Self>) {
        proof {
            lemma_width_powers();
        }
        let m: u64 = n as u64;
        if m <= 0x7FFF_FFFF_FFFF_FFFF {
            Some(m as i64)
        } else {
            None
        }
    }

    fn to_u8(self) -> (r: Option<u8>) {
        proof {
            lemma_width_powers();
            lemma_i64_pattern(self, 0);
        }
        if 0 <= self && self <= 255 {
            Some(self as u8)
        } else {
            None
        }
    }
}

/// The cast between `i128` and `u128` keeps all 128 bits: it adds `2^128` to a
/// negative number, and back.
pub proof fn lemma_i128_pattern(x: i128, y: u128)
    by (bit_vector)
    ensures
        x < 0 ==> (x as u128) == x + 0x1_0000_0000_0000_0000_0000_0000_0000_0000,
        x >= 0 ==> (x as u128) == x,
        ((x as u128) as i128) == x,
        ((y as i128) as u128) == y,
{
}

/// The pattern of a signed value, as a value of the unsigned type.
pub fn i128_to_pattern(x: i128) -> (r: u128)
    ensures
        r.bits() == x.bits(),
{
    #[verifier::truncate]
    (x as u128)
}

/// The signed value with the pattern of `y`.
pub fn i128_from_pattern(y: u128) -> (r: i128)
    ensures
        r.bits() == y.bits(),
{
    proof {
        lemma_i128_pattern(0, y);
    }
    #[verifier::truncate]
    (y as i128)
}

impl BitPattern for i128 {
    open spec fn width() -> nat {
        128
    }

    open spec fn signed() -> bool {
        true
    }

    open spec fn bits(self) -> u128 {
        (self as u128) as u128
    }

    proof fn lemma_width() {
    }

    proof fn lemma_bits_fit(self) {
        lemma_width_powers();
    }

    proof fn lemma_bits_decide(self, other: Self) {
        lemma_i128_pattern(self, 0);
        lemma_i128_pattern(other, 0);
    }

    fn bytes() -> (r: usize) {
        16
    }

    fn zero() -> (r: Self) {
        0
    }

    fn wrapping_add(self, v: Self) -> (r: Self) {
        i128_from_pattern(BitPattern::wrapping_add(i128_to_pattern(self), i128_to_pattern(v)))
    }

    fn wrapping_sub(self, v: Self) -> (r: Self) {
        i128_from_pattern(BitPattern::wrapping_sub(i128_to_pattern(self), i128_to_pattern(v)))
    }

    fn wrapping_mul(self, v: Self) -> (r: Self) {
        i128_from_pattern(BitPattern::wrapping_mul(i128_to_pattern(self), i128_to_pattern(v)))
    }

    fn bit_xor(self, v: Self) -> (r: Self) {
        i128_from_pattern(BitPattern::bit_xor(i128_to_pattern(self), i128_to_pattern(v)))
    }

    fn bit_or(self, v: Self) -> (r: Self) {
        i128_from_pattern(BitPattern::bit_or(i128_to_pattern(self), i128_to_pattern(v)))
    }

    fn bit_and(self, v: Self) -> (r: Self) {
        i128_from_pattern(BitPattern::bit_and(i128_to_pattern(self), i128_to_pattern(v)))
    }

    fn shift_left(self, n: Self) -> (r: Self) {
        i128_from_pattern(BitPattern::shift_left(i128_to_pattern(self), i128_to_pattern(n)))
    }

    fn shift_right(self, n: Self) -> (r: Self) {
        i128_from_pattern(BitPattern::shift_right(i128_to_pattern(self), i128_to_pattern(n)))
    }

    fn same(self, v: Self) -> (r: bool) {
        proof {
            lemma_i128_pattern(self, 0);
            lemma_i128_pattern(v, 0);
        }
        self == v
    }

    fn less(self, v: Self) -> (r: bool) {
        proof {
            lemma_width_powers();
            lemma_i128_pattern(self, 0);
            lemma_i128_pattern(v, 0);
        }
        self < v
    }

    fn from_u8(n: u8) -> (r: Option<Self>) {
        Some(n as i128)
    }

    fn from_usize(n: usize) -> (r: Option<Self>) {
        proof {
            lemma_width_powers();
        }
        Some(n as i128)
    }

    fn to_u8(self) -> (r: Option<u8>) {
        proof {
            lemma_width_powers();
            lemma_i128_pattern(self, 0);
        }
        if 0 <= self && self <= 255 {
            Some(self as u8)
        } else {
            None
        }
    }
}

} // verus!
