//! The constants of a register width, and the pairing of each type with the
//! signed and the unsigned type of its width.

use vstd::prelude::*;
use crate::risc::bits::{all_ones, lemma_width_powers, sign_bit};
use crate::risc::traits::pattern::BitPattern;
use crate::risc::traits::signed::{
    lemma_i128_pattern,
    lemma_i16_pattern,
    lemma_i32_pattern,
    lemma_i64_pattern,
};

verus! {

/// The constant patterns of a width.
pub trait USMinMax: BitPattern {
    /// `11111..`
    fn umax() -> (r: Self)
        ensures
            r.bits() == all_ones(Self::width()),
    ;

    /// `00000..`
    fn umin() -> (r: Self)
        ensures
            r.bits() == 0,
    ;

    /// `10000..`
    fn smin() -> (r: Self)
        ensures
            r.bits() == sign_bit(Self::width()),
    ;

    /// `01111..`
    fn smax() -> (r: Self)
        ensures
            r.bits() == all_ones(Self::width()) - sign_bit(Self::width()),
    ;

    /// `..0001`
    fn one() -> (r: Self)
        ensures
            r.bits() == 1,
    ;
}

/// The signed and the unsigned type of the same width, and the
/// reinterpretation of a value as either. Reinterpreting keeps the pattern:
/// it only selects how a comparison reads it.
pub trait SignedUnsigned: BitPattern {
    type Signed: BitPattern;

    type Unsigned: BitPattern;

    /// The value of the signed type with the pattern of `self`.
    spec fn signed_twin(self) -> Self::Signed;

    /// The value of the unsigned type with the pattern of `self`.
    spec fn unsigned_twin(self) -> Self::Unsigned;

    /// The paired types have the width of `Self`, one signed and one
    /// unsigned, and the twins of a value carry its pattern.
    proof fn lemma_twins(self)
        ensures
            Self::Signed::width() == Self::width(),
            Self::Unsigned::width() == Self::width(),
            Self::Signed::signed(),
            !Self::Unsigned::signed(),
            self.signed_twin().bits() == self.bits(),
            self.unsigned_twin().bits() == self.bits(),
    ;

    fn as_signed(&self) -> (r: Self::Signed)
        ensures
            r == self.signed_twin(),
    ;

    fn as_unsigned(&self) -> (r: Self::Unsigned)
        ensures
            r == self.unsigned_twin(),
    ;
}

/// Reinterpreting a value as signed and the result as unsigned gives back
/// the pattern of the value.
pub proof fn lemma_reinterpret_round_trip<T: SignedUnsigned>(v: T) where T::Signed: SignedUnsigned
    ensures
        v.signed_twin().bits() == v.bits(),
        v.signed_twin().unsigned_twin().bits() == v.bits(),
{
    v.lemma_twins();
    v.signed_twin().lemma_twins();
}
impl USMinMax for u16 {
    fn umax() -> (r: Self) {
        proof {
            lemma_width_powers();
        }
        u16::MAX
    }

    fn umin() -> (r: Self) {
        u16::MIN
    }

    fn smin() -> (r: Self) {
        proof {
            lemma_width_powers();
        }
        0x8000
    }

    fn smax() -> (r: Self) {
        proof {
            lemma_width_powers();
        }
        0x7FFF
    }

    fn one() -> (r: Self) {
        1
    }
}

impl USMinMax for i16 {
    fn umax() -> (r: Self) {
        proof {
            lemma_width_powers();
            lemma_i16_pattern(-1i16, 0);
        }
        -1
    }

    fn umin() -> (r: Self) {
        0
    }

    fn smin() -> (r: Self) {
        proof {
            lemma_width_powers();
            lemma_i16_pattern(i16::MIN, 0);
        }
        i16::MIN
    }

    fn smax() -> (r: Self) {
        proof {
            lemma_width_powers();
        }
        i16::MAX
    }

    fn one() -> (r: Self) {
        1
    }
}

impl SignedUnsigned for u16 {
    type Signed = i16;

    type Unsigned = u16;

    open spec fn signed_twin(self) -> i16 {
        self as i16
    }

    open spec fn unsigned_twin(self) -> u16 {
        self
    }

    proof fn lemma_twins(self) {
        lemma_i16_pattern(0, self);
    }

    fn as_signed(&self) -> (r: i16) {
        #[verifier::truncate]
        (*self as i16)
    }

    fn as_unsigned(&self) -> (r: u16) {
        *self
    }
}

impl SignedUnsigned for i16 {
    type Signed = i16;

    type Unsigned = u16;

    open spec fn signed_twin(self) -> i16 {
        self
    }

    open spec fn unsigned_twin(self) -> u16 {
        self as u16
    }

    proof fn lemma_twins(self) {
    }

    fn as_signed(&self) -> (r: i16) {
        *self
    }

    fn as_unsigned(&self) -> (r: u16) {
        #[verifier::truncate]
        (*self as u16)
    }
}

impl USMinMax for u32 {
    fn umax() -> (r: Self) {
        proof {
            lemma_width_powers();
        }
        u32::MAX
    }

    fn umin() -> (r: Self) {
        u32::MIN
    }

    fn smin() -> (r: Self) {
        proof {
            lemma_width_powers();
        }
        0x8000_0000
    }

    fn smax() -> (r: Self) {
        proof {
            lemma_width_powers();
        }
        0x7FFF_FFFF
    }

    fn one() -> (r: Self) {
        1
    }
}

impl USMinMax for i32 {
    fn umax() -> (r: Self) {
        proof {
            lemma_width_powers();
            lemma_i32_pattern(-1i32, 0);
        }
        -1
    }

    fn umin() -> (r: Self) {
        0
    }

    fn smin() -> (r: Self) {
        proof {
            lemma_width_powers();
            lemma_i32_pattern(i32::MIN, 0);
        }
        i32::MIN
    }

    fn smax() -> (r: Self) {
        proof {
            lemma_width_powers();
        }
        i32::MAX
    }

    fn one() -> (r: Self) {
        1
    }
}

impl SignedUnsigned for u32 {
    type Signed = i32;

    type Unsigned = u32;

    open spec fn signed_twin(self) -> i32 {
        self as i32
    }

    open spec fn unsigned_twin(self) -> u32 {
        self
    }

    proof fn lemma_twins(self) {
        lemma_i32_pattern(0, self);
    }

    fn as_signed(&self) -> (r: i32) {
        #[verifier::truncate]
        (*self as i32)
    }

    fn as_unsigned(&self) -> (r: u32) {
        *self
    }
}

impl SignedUnsigned for i32 {
    type Signed = i32;

    type Unsigned = u32;

    open spec fn signed_twin(self) -> i32 {
        self
    }

    open spec fn unsigned_twin(self) -> u32 {
        self as u32
    }

    proof fn lemma_twins(self) {
    }

    fn as_signed(&self) -> (r: i32) {
        *self
    }

    fn as_unsigned(&self) -> (r: u32) {
        #[verifier::truncate]
        (*self as u32)
    }
}

impl USMinMax for u64 {
    fn umax() -> (r: Self) {
        proof {
            lemma_width_powers();
        }
        u64::MAX
    }

    fn umin() -> (r: Self) {
        u64::MIN
    }

    fn smin() -> (r: Self) {
        proof {
            lemma_width_powers();
        }
        0x8000_0000_0000_0000
    }

    fn smax() -> (r: Self) {
        proof {
            lemma_width_powers();
        }
        0x7FFF_FFFF_FFFF_FFFF
    }

    fn one() -> (r: Self) {
        1
    }
}

impl USMinMax for i64 {
    fn umax() -> (r: Self) {
        proof {
            lemma_width_powers();
            lemma_i64_pattern(-1i64, 0);
        }
        -1
    }

    fn umin() -> (r: Self) {
        0
    }

    fn smin() -> (r: Self) {
        proof {
            lemma_width_powers();
            lemma_i64_pattern(i64::MIN, 0);
        }
        i64::MIN
    }

    fn smax() -> (r: Self) {
        proof {
            lemma_width_powers();
        }
        i64::MAX
    }

    fn one() -> (r: Self) {
        1
    }
}

impl SignedUnsigned for u64 {
    type Signed = i64;

    type Unsigned = u64;

    open spec fn signed_twin(self) -> i64 {
        self as i64
    }

    open spec fn unsigned_twin(self) -> u64 {
        self
    }

    proof fn lemma_twins(self) {
        lemma_i64_pattern(0, self);
    }

    fn as_signed(&self) -> (r: i64) {
        #[verifier::truncate]
        (*self as i64)
    }

    fn as_unsigned(&self) -> (r: u64) {
        *self
    }
}

impl SignedUnsigned for i64 {
    type Signed = i64;

    type Unsigned = u64;

    open spec fn signed_twin(self) -> i64 {
        self
    }

    open spec fn unsigned_twin(self) -> u64 {
        self as u64
    }

    proof fn lemma_twins(self) {
    }

    fn as_signed(&self) -> (r: i64) {
        *self
    }

    fn as_unsigned(&self) -> (r: u64) {
        #[verifier::truncate]
        (*self as u64)
    }
}

impl USMinMax for u128 {
    fn umax() -> (r: Self) {
        proof {
            lemma_width_powers();
        }
        u128::MAX
    }

    fn umin() -> (r: Self) {
        u128::MIN
    }

    fn smin() -> (r: Self) {
        proof {
            lemma_width_powers();
        }
        0x8000_0000_0000_0000_0000_0000_0000_0000
    }

    fn smax() -> (r: Self) {
        proof {
            lemma_width_powers();
        }
        0x7FFF_FFFF_FFFF_FFFF_FFFF_FFFF_FFFF_FFFF
    }

    fn one() -> (r: Self) {
        1
    }
}

impl USMinMax for i128 {
    fn umax() -> (r: Self) {
        proof {
            lemma_width_powers();
            lemma_i128_pattern(-1i128, 0);
        }
        -1
    }

    fn umin() -> (r: Self) {
        0
    }

    fn smin() -> (r: Self) {
        proof {
            lemma_width_powers();
            lemma_i128_pattern(i128::MIN, 0);
        }
        i128::MIN
    }

    fn smax() -> (r: Self) {
        proof {
            lemma_width_powers();
        }
        i128::MAX
    }

    fn one() -> (r: Self) {
        1
    }
}

impl SignedUnsigned for u128 {
    type Signed = i128;

    type Unsigned = u128;

    open spec fn signed_twin(self) -> i128 {
        self as i128
    }

    open spec fn unsigned_twin(self) -> u128 {
        self
    }

    proof fn lemma_twins(self) {
        lemma_i128_pattern(0, self);
    }

    fn as_signed(&self) -> (r: i128) {
        #[verifier::truncate]
        (*self as i128)
    }

    fn as_unsigned(&self) -> (r: u128) {
        *self
    }
}

impl SignedUnsigned for i128 {
    type Signed = i128;

    type Unsigned = u128;

    open spec fn signed_twin(self) -> i128 {
        self
    }

    open spec fn unsigned_twin(self) -> u128 {
        self as u128
    }

    proof fn lemma_twins(self) {
    }

    fn as_signed(&self) -> (r: i128) {
        *self
    }

    fn as_unsigned(&self) -> (r: u128) {
        #[verifier::truncate]
        (*self as u128)
    }
}

} // verus!
