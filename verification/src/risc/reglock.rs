//! A register slot that can be locked against writes.

use vstd::prelude::*;
use crate::risc::bits::wrap;
use crate::risc::traits::reg::Reg;

verus! {

/// A register value with a write lock. Once locked, a slot keeps its value
/// for good: writes are discarded without an error.
#[derive(Debug)]
pub struct RegLock<T: Reg> {
    p: T,
    locked: bool,
}

impl<T: Reg> RegLock<T> {
    /// The value that the slot holds.
    pub closed spec fn value(self) -> T {
        self.p
    }

    /// Whether the slot is locked.
    pub closed spec fn is_locked(self) -> bool {
        self.locked
    }

    /// An unlocked slot that holds zero.
    pub fn new() -> (r: Self)
        ensures
            r.value().bits() == 0,
            !r.is_locked(),
    {
        Self { p: T::umin(), locked: false }
    }

    pub fn get(&self) -> (r: T)
        ensures
            r == self.value(),
    {
        self.p
    }

    /// Writes `data`, unless the slot is locked.
    pub fn set(&mut self, data: T)
        ensures
            final(self).is_locked() == old(self).is_locked(),
            final(self).value() == if old(self).is_locked() {
                old(self).value()
            } else {
                data
            },
    {
        self.p = if self.locked { self.p } else { data };
    }

    /// Locks the slot. Nothing unlocks it.
    pub fn lock(&mut self)
        ensures
            final(self).is_locked(),
            final(self).value() == old(self).value(),
    {
        self.locked = true;
    }
}

impl<T: Reg> core::ops::AddAssign<T> for RegLock<T> {
    /// Adds `other` to the value, modulo `2^width`, unless the slot is locked.
    fn add_assign(&mut self, other: T)
        ensures
            final(self).is_locked() == old(self).is_locked(),
            old(self).is_locked() ==> final(self).value() == old(self).value(),
            !old(self).is_locked() ==> final(self).value().bits() == wrap(
                old(self).value().bits() + other.bits(),
                T::width(),
            ),
    {
        let v = self.get().add(other);
        self.set(v);
    }
}

impl<T: Reg> Clone for RegLock<T> {
    fn clone(&self) -> (r: Self)
        ensures
            r == *self,
    {
        *self
    }
}

impl<T: Reg> Copy for RegLock<T> {

}

impl<T: Reg> Default for RegLock<T> {
    fn default() -> (r: Self)
        ensures
            r.value().bits() == 0,
            !r.is_locked(),
    {
        Self::new()
    }
}

impl<T: Reg> core::ops::Deref for RegLock<T> {
    type Target = T;

    fn deref(&self) -> (r: &T)
        ensures
            *r == self.value(),
    {
        &self.p
    }
}

} // verus!
