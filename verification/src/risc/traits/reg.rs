//! The arithmetic and logical primitives of the integer instruction set,
//! written once for every register width.

use vstd::prelude::*;
use crate::risc::bits::{
    all_ones,
    lemma_sign_test,
    lemma_sra_construction,
    shift_amount,
    shift_left,
    shift_right_arithmetic,
    signed_value,
    wrap,
};
use crate::risc::traits::pattern::BitPattern;
use crate::risc::traits::signedunsigned::{SignedUnsigned, USMinMax};

verus! {

/// A register value: an integer of a supported width with no signedness of
/// its own. All primitives are total and read only the bit pattern.
pub trait Reg: USMinMax + SignedUnsigned {
    /// Addition modulo `2^width`.
    fn add(&self, v2: Self) -> (r: Self)
        ensures
            r.bits() == wrap(self.bits() + v2.bits(), Self::width()),
    {
        self.wrapping_add(v2)
    }

    /// Subtraction modulo `2^width`.
    fn sub(&self, v2: Self) -> (r: Self)
        ensures
            r.bits() == wrap(self.bits() - v2.bits(), Self::width()),
    {
        self.wrapping_sub(v2)
    }

    /// Multiplication modulo `2^width`.
    fn mul(&self, v2: Self) -> (r: Self)
        ensures
            r.bits() == wrap(self.bits() * v2.bits(), Self::width()),
    {
        self.wrapping_mul(v2)
    }

    fn xor(&self, v2: Self) -> (r: Self)
        ensures
            r.bits() == self.bits() ^ v2.bits(),
    {
        self.bit_xor(v2)
    }

    fn or(&self, v2: Self) -> (r: Self)
        ensures
            r.bits() == self.bits() | v2.bits(),
    {
        self.bit_or(v2)
    }

    fn and(&self, v2: Self) -> (r: Self)
        ensures
            r.bits() == self.bits() & v2.bits(),
    {
        self.bit_and(v2)
    }

    /// Shift Left Logical
    fn sll(&self, v2: Self) -> (r: Self)
        ensures
            r.bits() == shift_left(
                self.bits(),
                shift_amount(v2.bits(), Self::width()),
                Self::width(),
            ),
    {
        self.shift_left(v2)
    }

    /// Shift Right Logical
    fn srl(&self, v2: Self) -> (r: Self)
        ensures
            r.bits() == self.bits() >> shift_amount(v2.bits(), Self::width()),
    {
        self.shift_right(v2)
    }

    /// Shift Right Arithmetic
    fn sra(&self, v2: Self) -> (r: Self)
        ensures
            r.bits() == shift_right_arithmetic(
                self.bits(),
                shift_amount(v2.bits(), Self::width()),
                Self::width(),
            ),
    {
        // the native shift of an unsigned pattern is logical: the sign is
        // put back by hand
        let srl = self.shift_right(v2);
        let loooo = Self::smin();
        proof {
            Self::lemma_width();
            self.lemma_bits_fit();
            lemma_sign_test(self.bits(), Self::width());
            lemma_sra_construction(
                self.bits(),
                shift_amount(v2.bits(), Self::width()),
                Self::width(),
            );
        }
        if self.bit_and(loooo).same(loooo) {
            let ooolll = Self::umax().shift_right(v2);
            let lllooo = ooolll.bit_xor(Self::umax());
            proof {
                let m = all_ones(Self::width());
                let n = shift_amount(v2.bits(), Self::width());
                assert((m >> n) ^ m == m ^ (m >> n)) by (bit_vector);
            }
            srl.bit_or(lllooo)  // set the leading 0's to 1
        } else {
            srl
        }
    }

    /// Set Less Than (Signed)
    fn slt(&self, v2: Self) -> (r: Self)
        ensures
            r.bits() == if signed_value(self.bits(), Self::width()) < signed_value(
                v2.bits(),
                Self::width(),
            ) {
                1u128
            } else {
                0u128
            },
    {
        proof {
            self.lemma_twins();
            v2.lemma_twins();
        }
        if self.as_signed().less(v2.as_signed()) {
            Self::one()
        } else {
            Self::umin()
        }
    }

    /// Set Less Than (Unsigned)
    fn sltu(&self, v2: Self) -> (r: Self)
        ensures
            r.bits() == if self.bits() < v2.bits() {
                1u128
            } else {
                0u128
            },
    {
        proof {
            self.lemma_twins();
            v2.lemma_twins();
        }
        if self.as_unsigned().less(v2.as_unsigned()) {
            Self::one()
        } else {
            Self::umin()
        }
    }
}

impl Reg for u16 {

}

impl Reg for u32 {

}

impl Reg for u64 {

}

impl Reg for u128 {

}

impl Reg for i16 {

}

impl Reg for i32 {

}

impl Reg for i64 {

}

impl Reg for i128 {

}

} // verus!
