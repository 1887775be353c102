//! The view of a native integer as a register value, and the native
//! operations that the generic algorithms are built from.

use vstd::prelude::*;
use crate::risc::bits::{
    all_ones,
    largest,
    shift_amount,
    shift_left,
    supported_width,
    value_of,
    wrap,
};

verus! {

/// A native integer type that can hold a register value.
///
/// A value is seen as its bit pattern, `bits`, zero-extended to 128 bits:
/// signed and unsigned types of one width hold the same patterns. Every
/// operation is stated over patterns; only `less` and the conversions
/// between values and numbers read a pattern as the type itself does, signed
/// or unsigned.
pub trait BitPattern: Sized + Copy {
    /// The number of bits of the type.
    spec fn width() -> nat;

    /// Whether the type reads its patterns as signed numbers.
    spec fn signed() -> bool;

    /// The bit pattern of a value.
    spec fn bits(self) -> u128;

    /// The width is a supported one.
    proof fn lemma_width()
        ensures
            supported_width(Self::width()),
    ;

    /// A pattern fits in the width.
    proof fn lemma_bits_fit(self)
        ensures
            self.bits() <= all_ones(Self::width()),
    ;

    /// Two values with one pattern are one value.
    proof fn lemma_bits_decide(self, other: Self)
        requires
            self.bits() == other.bits(),
        ensures
            self == other,
    ;

    /// The number of bytes of the type.
    fn bytes() -> (r: usize)
        ensures
            8 * r == Self::width(),
    ;

    /// The value with no bit set.
    fn zero() -> (r: Self)
        ensures
            r.bits() == 0,
    ;

    /// The sum, reduced to the width.
    fn wrapping_add(self, v: Self) -> (r: Self)
        ensures
            r.bits() == wrap(self.bits() + v.bits(), Self::width()),
    ;

    /// The difference, reduced to the width.
    fn wrapping_sub(self, v: Self) -> (r: Self)
        ensures
            r.bits() == wrap(self.bits() - v.bits(), Self::width()),
    ;

    /// The product, reduced to the width.
    fn wrapping_mul(self, v: Self) -> (r: Self)
        ensures
            r.bits() == wrap(self.bits() * v.bits(), Self::width()),
    ;

    /// Bitwise exclusive or.
    fn bit_xor(self, v: Self) -> (r: Self)
        ensures
            r.bits() == self.bits() ^ v.bits(),
    ;

    /// Bitwise or.
    fn bit_or(self, v: Self) -> (r: Self)
        ensures
            r.bits() == self.bits() | v.bits(),
    ;

    /// Bitwise and.
    fn bit_and(self, v: Self) -> (r: Self)
        ensures
            r.bits() == self.bits() & v.bits(),
    ;

    /// Logical shift to the left by `n` modulo the width.
    fn shift_left(self, n: Self) -> (r: Self)
        ensures
            r.bits() == shift_left(self.bits(), shift_amount(n.bits(), Self::width()), Self::width()),
    ;

    /// Logical shift to the right by `n` modulo the width: zeros come in from
    /// above, whatever the sign bit.
    fn shift_right(self, n: Self) -> (r: Self)
        ensures
            r.bits() == self.bits() >> shift_amount(n.bits(), Self::width()),
    ;

    /// Whether the two patterns are the same.
    fn same(self, v: Self) -> (r: bool)
        ensures
            r == (self.bits() == v.bits()),
    ;

    /// Whether `self` is below `v` in the type's own order.
    fn less(self, v: Self) -> (r: bool)
        ensures
            r == (value_of(self.bits(), Self::width(), Self::signed()) < value_of(
                v.bits(),
                Self::width(),
                Self::signed(),
            )),
    ;

    /// The value that spells the number `n`, where the type can hold it.
    fn from_u8(n: u8) -> (r: Option<Self>)
        ensures
            r is Some,
            r->0.bits() == n,
    ;

    /// The value that spells the number `n`, where the type can hold it.
    fn from_usize(n: usize) -> (r: Option<Self>)
        ensures
            r is Some <==> n <= largest(Self::width(), Self::signed()),
            r is Some ==> r->0.bits() == n,
    ;

    /// The number that the value spells in the type's own reading, where a
    /// byte can hold it.
    fn to_u8(self) -> (r: Option<u8>)
        ensures
            r is Some <==> 0 <= value_of(self.bits(), Self::width(), Self::signed()) <= 255,
            r is Some ==> r->0 == self.bits(),
    ;
}

} // verus!
