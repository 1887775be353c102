//! The unsigned native integers as register values.

use vstd::prelude::*;
use crate::risc::bits::{lemma_width_powers, lemma_wrap_is};
use crate::risc::traits::pattern::BitPattern;

verus! {

impl BitPattern for u16 {
    open spec fn width() -> nat {
        16
    }

    open spec fn signed() -> bool {
        false
    }

    open spec fn bits(self) -> u128 {
        self as u128
    }

    proof fn lemma_width() {
    }

    proof fn lemma_bits_fit(self) {
        lemma_width_powers();
    }

    proof fn lemma_bits_decide(self, other: Self) {
    }

    fn bytes() -> (r: usize) {
        2
    }

    fn zero() -> (r: Self) {
        0
    }

    fn wrapping_add(self, v: Self) -> (r: Self) {
        let r: u16 = u16::wrapping_add(self, v);
        proof {
            lemma_width_powers();
            let q: int = if self + v > u16::MAX {
                1
            } else {
                0
            };
            lemma_wrap_is(self + v, 16, q, r as u128);
        }
        r
    }

    fn wrapping_sub(self, v: Self) -> (r: Self) {
        let r: u16 = u16::wrapping_sub(self, v);
        proof {
            lemma_width_powers();
            let q: int = if self - v < 0 {
                -1
            } else {
                0
            };
            lemma_wrap_is(self - v, 16, q, r as u128);
        }
        r
    }

    fn wrapping_mul(self, v: Self) -> (r: Self) {
        proof {
            lemma_width_powers();
        }
        u16::wrapping_mul(self, v)
    }

    fn bit_xor(self, v: Self) -> (r: Self) {
        self ^ v
    }

    fn bit_or(self, v: Self) -> (r: Self) {
        self | v
    }

    fn bit_and(self, v: Self) -> (r: Self) {
        self & v
    }

    fn shift_left(self, n: Self) -> (r: Self) {
        let k: u16 = n % 16;
        let r: u16 = self << k;
        proof {
            lemma_width_powers();
            assert((r as u128) == ((self as u128) << ((n as u128) % 16)) & 0xFFFF) by (bit_vector)
                requires
                    r == self << (n % 16),
            ;
        }
        r
    }

    fn shift_right(self, n: Self) -> (r: Self) {
        let k: u16 = n % 16;
        self >> k
    }

    fn same(self, v: Self) -> (r: bool) {
        self == v
    }

    fn less(self, v: Self) -> (r: bool) {
        self < v
    }

    fn from_u8(n: u8) -> (r: Option<Self>) {
        Some(n as u16)
    }

    fn from_usize(n: usize) -> (r: Option<Self>) {
        proof {
            lemma_width_powers();
        }
        if n <= 0xFFFF {
            Some(n as u16)
        } else {
            None
        }
    }

    fn to_u8(self) -> (r: Option<u8>) {
        if self <= 255 {
            Some(self as u8)
        } else {
            None
        }
    }
}

impl BitPattern for u32 {
    open spec fn width() -> nat {
        32
    }

    open spec fn signed() -> bool {
        false
    }

    open spec fn bits(self) -> u128 {
        self as u128
    }

    proof fn lemma_width() {
    }

    proof fn lemma_bits_fit(self) {
        lemma_width_powers();
    }

    proof fn lemma_bits_decide(self, other: Self) {
    }

    fn bytes() -> (r: usize) {
        4
    }

    fn zero() -> (r: Self) {
        0
    }

    fn wrapping_add(self, v: Self) -> (r: Self) {
        let r: u32 = u32::wrapping_add(self, v);
        proof {
            lemma_width_powers();
            let q: int = if self + v > u32::MAX {
                1
            } else {
                0
            };
            lemma_wrap_is(self + v, 32, q, r as u128);
        }
        r
    }

    fn wrapping_sub(self, v: Self) -> (r: Self) {
        let r: u32 = u32::wrapping_sub(self, v);
        proof {
            lemma_width_powers();
            let q: int = if self - v < 0 {
                -1
            } else {
                0
            };
            lemma_wrap_is(self - v, 32, q, r as u128);
        }
        r
    }

    fn wrapping_mul(self, v: Self) -> (r: Self) {
        proof {
            lemma_width_powers();
        }
        u32::wrapping_mul(self, v)
    }

    fn bit_xor(self, v: Self) -> (r: Self) {
        self ^ v
    }

    fn bit_or(self, v: Self) -> (r: Self) {
        self | v
    }

    fn bit_and(self, v: Self) -> (r: Self) {
        self & v
    }

    fn shift_left(self, n: Self) -> (r: Self) {
        let k: u32 = n % 32;
        let r: u32 = self << k;
        proof {
            lemma_width_powers();
            assert((r as u128) == ((self as u128) << ((n as u128) % 32)) & 0xFFFF_FFFF) by (bit_vector)
                requires
                    r == self << (n % 32),
            ;
        }
        r
    }

    fn shift_right(self, n: Self) -> (r: Self) {
        let k: u32 = n % 32;
        self >> k
    }

    fn same(self, v: Self) -> (r: bool) {
        self == v
    }

    fn less(self, v: Self) -> (r: bool) {
        self < v
    }

    fn from_u8(n: u8) -> (r: Option<Self>) {
        Some(n as u32)
    }

    fn from_usize(n: usize) -> (r: Option<Self>) {
        proof {
            lemma_width_powers();
        }
        if n <= 0xFFFF_FFFF {
            Some(n as u32)
        } else {
            None
        }
    }

    fn to_u8(self) -> (r: Option<u8>) {
        if self <= 255 {
            Some(self as u8)
        } else {
            None
        }
    }
}

impl BitPattern for u64 {
    open spec fn width() -> nat {
        64
    }

    open spec fn signed() -> bool {
        false
    }

    open spec fn bits(self) -> u128 {
        self as u128
    }

    proof fn lemma_width() {
    }

    proof fn lemma_bits_fit(self) {
        lemma_width_powers();
    }

    proof fn lemma_bits_decide(self, other: Self) {
    }

    fn bytes() -> (r: usize) {
        8
    }

    fn zero() -> (r: Self) {
        0
    }

    fn wrapping_add(self, v: Self) -> (r: Self) {
        let r: u64 = u64::wrapping_add(self, v);
        proof {
            lemma_width_powers();
            let q: int = if self + v > u64::MAX {
                1
            } else {
                0
            };
            lemma_wrap_is(self + v, 64, q, r as u128);
        }
        r
    }

    fn wrapping_sub(self, v: Self) -> (r: Self) {
        let r: u64 = u64::wrapping_sub(self, v);
        proof {
            lemma_width_powers();
            let q: int = if self - v < 0 {
                -1
            } else {
                0
            };
            lemma_wrap_is(self - v, 64, q, r as u128);
        }
        r
    }

    fn wrapping_mul(self, v: Self) -> (r: Self) {
        proof {
            lemma_width_powers();
        }
        u64::wrapping_mul(self, v)
    }

    fn bit_xor(self, v: Self) -> (r: Self) {
        self ^ v
    }

    fn bit_or(self, v: Self) -> (r: Self) {
        self | v
    }

    fn bit_and(self, v: Self) -> (r: Self) {
        self & v
    }

    fn shift_left(self, n: Self) -> (r: Self) {
        let k: u64 = n % 64;
        let r: u64 = self << k;
        proof {
            lemma_width_powers();
            assert((r as u128) == ((self as u128) << ((n as u128) % 64)) & 0xFFFF_FFFF_FFFF_FFFF) by (bit_vector)
                requires
                    r == self << (n % 64),
            ;
        }
        r
    }

    fn shift_right(self, n: Self) -> (r: Self) {
        let k: u64 = n % 64;
        self >> k
    }

    fn same(self, v: Self) -> (r: bool) {
        self == v
    }

    fn less(self, v: Self) -> (r: bool) {
        self < v
    }

    fn from_u8(n: u8) -> (r: Option<Self>) {
        Some(n as u64)
    }

    fn from_usize(n: usize) -> (r: Option<Self>) {
        proof {
            lemma_width_powers();
        }
        Some(n as u64)
    }

    fn to_u8(self) -> (r: Option<u8>) {
        if self <= 255 {
            Some(self as u8)
        } else {
            None
        }
    }
}

impl BitPattern for u128 {
    open spec fn width() -> nat {
        128
    }

    open spec fn signed() -> bool {
        false
    }

    open spec fn bits(self) -> u128 {
        self
    }

    proof fn lemma_width() {
    }

    proof fn lemma_bits_fit(self) {
        lemma_width_powers();
    }

    proof fn lemma_bits_decide(self, other: Self) {
    }

    fn bytes() -> (r: usize) {
        16
    }

    fn zero() -> (r: Self) {
        0
    }

    fn wrapping_add(self, v: Self) -> (r: Self) {
        let r: u128 = u128::wrapping_add(self, v);
        proof {
            lemma_width_powers();
            let q: int = if self + v > u128::MAX {
                1
            } else {
                0
            };
            lemma_wrap_is(self + v, 128, q, r);
        }
        r
    }

    fn wrapping_sub(self, v: Self) -> (r: Self) {
        let r: u128 = u128::wrapping_sub(self, v);
        proof {
            lemma_width_powers();
            let q: int = if self - v < 0 {
                -1
            } else {
                0
            };
            lemma_wrap_is(self - v, 128, q, r);
        }
        r
    }

    fn wrapping_mul(self, v: Self) -> (r: Self) {
        proof {
            lemma_width_powers();
        }
        u128::wrapping_mul(self, v)
    }

    fn bit_xor(self, v: Self) -> (r: Self) {
        self ^ v
    }

    fn bit_or(self, v: Self) -> (r: Self) {
        self | v
    }

    fn bit_and(self, v: Self) -> (r: Self) {
        self & v
    }

    fn shift_left(self, n: Self) -> (r: Self) {
        let k: u128 = n % 128;
        let r: u128 = self << k;
        proof {
            lemma_width_powers();
            assert(r == (self << (n % 128)) & 0xFFFF_FFFF_FFFF_FFFF_FFFF_FFFF_FFFF_FFFF) by (bit_vector)
                requires
                    r == self << (n % 128),
            ;
        }
        r
    }

    fn shift_right(self, n: Self) -> (r: Self) {
        let k: u128 = n % 128;
        self >> k
    }

    fn same(self, v: Self) -> (r: bool) {
        self == v
    }

    fn less(self, v: Self) -> (r: bool) {
        self < v
    }

    fn from_u8(n: u8) -> (r: Option<Self>) {
        Some(n as u128)
    }

    fn from_usize(n: usize) -> (r: Option<Self>) {
        proof {
            lemma_width_powers();
        }
        Some(n as u128)
    }

    fn to_u8(self) -> (r: Option<u8>) {
        if self <= 255 {
            Some(self as u8)
        } else {
            None
        }
    }
}

} // verus!
