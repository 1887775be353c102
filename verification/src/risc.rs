//! The emulator core: 32 registers of which the first is hardwired to zero,
//! a program counter, and a byte-addressable little-endian memory of fixed
//! capacity.

pub mod bits;
pub mod bytes;
pub mod reglock;
pub mod traits;

use core::ops::AddAssign;
use vstd::prelude::*;
use vstd::arithmetic::div_mod::lemma_small_mod;
use vstd::arithmetic::power2::{lemma2_to64, pow2};
use crate::risc::bits::{
    all_ones,
    lemma_width_masks,
    lemma_width_powers,
    signed_value,
    supported_width,
    wrap,
};
use crate::risc::bytes::{
    le_bytes,
    le_value,
    lemma_byte_extract,
    lemma_join_byte,
    lemma_sign_extend_construction,
    sign_extend,
    stored,
    window,
};
use crate::risc::reglock::RegLock;
use crate::risc::traits::pattern::BitPattern;
use crate::risc::traits::reg::Reg;

verus! {

/// Why a memory access failed.
#[derive(Debug, Clone, Copy, PartialEq, Eq, Structural)]
pub enum MemoryError {
    /// An address at or beyond the capacity of the memory.
    OutOfBounds,
    /// A conversion between a byte and a register value failed. Every
    /// capability set of this crate is proved to convert what the memory
    /// operations hand it, so none of them returns this.
    ConversionFailure,
}

/// Whether an access to `n` bytes from address `addr` on stays within a
/// memory of `capacity` bytes. An access to no byte does.
pub open spec fn in_bounds(addr: int, n: int, capacity: int) -> bool {
    n == 0 || addr + n <= capacity
}

/// The integer core of a RISC-V machine with registers of type `T` and
/// `N_BYTES` bytes of memory.
///
/// Its state is seen as three values: the 32 `registers`, the program
/// `counter` and the `memory`. Register 0 is locked at zero when the core is
/// made and stays so; nothing else is ever locked.
pub struct RiscV<T: Reg, const N_BYTES: usize> {
    x: [RegLock<T>; 32],
    pc: RegLock<T>,
    mem: [u8; N_BYTES],
}

impl<T: Reg, const N_BYTES: usize> RiscV<T, N_BYTES> {
    /// Register 0 is locked at zero; no other register is locked, nor is the
    /// program counter.
    #[verifier::type_invariant]
    spec fn inv(self) -> bool {
        &&& self.x@[0].is_locked()
        &&& self.x@[0].value().bits() == 0
        &&& forall|i: int| 1 <= i < 32 ==> !(#[trigger] self.x@[i]).is_locked()
        &&& !self.pc.is_locked()
    }

    /// The values of the 32 registers, by index.
    pub closed spec fn registers(self) -> Seq<T> {
        Seq::new(32, |i: int| self.x@[i].value())
    }

    /// The value of register `i`.
    pub open spec fn reg(self, i: int) -> T {
        self.registers()[i]
    }

    /// The value of the program counter.
    pub closed spec fn counter(self) -> T {
        self.pc.value()
    }

    /// The bytes of the memory, by address.
    pub closed spec fn memory(self) -> Seq<u8> {
        self.mem@
    }

    /// There are 32 registers and `N_BYTES` bytes of memory.
    pub proof fn lemma_shape(self)
        ensures
            self.registers().len() == 32,
            self.memory().len() == N_BYTES,
    {
    }

    /// A core with every register, the program counter and every byte of
    /// memory at zero.
    pub fn new() -> (r: Self)
        ensures
            r.registers().len() == 32,
            forall|i: int| 0 <= i < 32 ==> (#[trigger] r.reg(i)).bits() == 0,
            r.counter().bits() == 0,
            r.memory() == Seq::new(N_BYTES as nat, |i: int| 0u8),
    {
        let slot = RegLock::<T>::new();
        let mut x = [slot; 32];
        let mut zero = x[0];
        zero.lock();
        x[0] = zero;
        let new = Self { x, pc: slot, mem: [0; N_BYTES] };
        assert(new.memory() =~= Seq::new(N_BYTES as nat, |i: int| 0u8));
        new
    }

    /// The number of bytes of the memory.
    pub fn capacity(&self) -> (r: usize)
        ensures
            r == N_BYTES,
            self.memory().len() == N_BYTES,
    {
        N_BYTES
    }

    /// Reads register `index`. Register 0 reads zero.
    pub fn read(&self, index: usize) -> (r: T)
        requires
            index < 32,
        ensures
            self.registers().len() == 32,
            r == self.reg(index as int),
            index == 0 ==> r.bits() == 0,
    {
        proof {
            use_type_invariant(self);
        }
        self.x[index].get()
    }

    /// Writes register `index`. A write to register 0 changes nothing.
    pub fn write(&mut self, index: usize, value: T)
        requires
            index < 32,
        ensures
            final(self).registers() == if index == 0 {
                old(self).registers()
            } else {
                old(self).registers().update(index as int, value)
            },
            final(self).counter() == old(self).counter(),
            final(self).memory() == old(self).memory(),
    {
        proof {
            use_type_invariant(&*self);
        }
        let mut slot = self.x[index];
        slot.set(value);
        self.x[index] = slot;
        assert(self.registers() =~= if index == 0 {
            old(self).registers()
        } else {
            old(self).registers().update(index as int, value)
        });
    }

    /// The program counter.
    pub fn pc(&self) -> (r: T)
        ensures
            r == self.counter(),
    {
        self.pc.get()
    }

    /// gets byte from memory. returns u8
    pub fn get_byte(&self, addr: usize) -> (r: Result<u8, MemoryError>)
        ensures
            r == if addr < N_BYTES {
                Ok::<u8, MemoryError>(self.memory()[addr as int])
            } else {
                Err::<u8, MemoryError>(MemoryError::OutOfBounds)
            },
    {
        if addr < self.mem.len() {
            Ok(self.mem[addr])
        } else {
            Err(MemoryError::OutOfBounds)
        }
    }

    /// load byte unsigned
    pub fn lbu(&self, addr: usize) -> (res: Result<T, MemoryError>)
        ensures
            match res {
                Ok(v) => addr < N_BYTES && v.bits() == self.memory()[addr as int],
                Err(e) => addr >= N_BYTES && e == MemoryError::OutOfBounds,
            },
    {
        let byte = match self.get_byte(addr) {
            Ok(b) => b,
            Err(e) => {
                return Err(e);
            },
        };
        if let Some(ret) = T::from_u8(byte) {
            Ok(ret)
        } else {
            Err(MemoryError::ConversionFailure)
        }
    }

    /// load `n` bytes (unsigned): the bytes from `addr` on, assembled in
    /// little-endian order, with every bit above them clear.
    pub fn load_n_bytes_u(&self, addr: usize, n: usize) -> (res: Result<T, MemoryError>)
        requires
            8 * n <= T::width(),
        ensures
            match res {
                Ok(v) => in_bounds(addr as int, n as int, N_BYTES as int) && v.bits() == le_value(
                    window(self.memory(), addr as int, n as nat),
                ),
                Err(e) => !in_bounds(addr as int, n as int, N_BYTES as int) && e
                    == MemoryError::OutOfBounds,
            },
            res is Ok ==> res->Ok_0.bits() < pow2((8 * n) as nat),
    {
        let mut r = T::zero();
        proof {
            T::lemma_width();
            lemma_width_powers();
            assert(pow2(0) == 1) by {
                lemma2_to64();
            }
        }
        for i in 0..n
            invariant
                8 * n <= T::width(),
                supported_width(T::width()),
                i > 0 ==> addr + i <= N_BYTES,
                r.bits() == le_value(window(self.memory(), addr as int, i as nat)),
                r.bits() < pow2((8 * i) as nat),
        {
            let at = match addr.checked_add(i) {
                Some(a) => a,
                None => {
                    return Err(MemoryError::OutOfBounds);
                },
            };
            let byte = self.get_byte(at)?;
            let byte_t = match T::from_u8(byte) {
                Some(v) => v,
                None => {
                    return Err(MemoryError::ConversionFailure);
                },
            };
            proof {
                lemma_width_powers();
            }
            let n_shifts = match T::from_usize(8 * i) {
                Some(v) => v,
                None => {
                    return Err(MemoryError::ConversionFailure);
                },
            };
            proof {
                let next = window(self.memory(), addr as int, (i + 1) as nat);
                assert(next.drop_last() =~= window(self.memory(), addr as int, i as nat));
                lemma_small_mod((8 * i) as nat, T::width());
                lemma_join_byte(r.bits(), byte, (8 * i) as u128, T::width());
            }
            r = r.or(byte_t.sll(n_shifts));
        }
        Ok(r)
    }

    /// load word
    pub fn lw(&self, addr: usize) -> (res: Result<T, MemoryError>)
        ensures
            match res {
                Ok(v) => addr + T::width() / 8 <= N_BYTES && v.bits() == le_value(
                    window(self.memory(), addr as int, T::width() / 8),
                ),
                Err(e) => addr + T::width() / 8 > N_BYTES && e == MemoryError::OutOfBounds,
            },
    {
        proof {
            T::lemma_width();
        }
        self.load_n_bytes_u(addr, T::bytes())
    }

    /// load half-word (unsigned)
    pub fn lhu(&self, addr: usize) -> (res: Result<T, MemoryError>)
        ensures
            match res {
                Ok(v) => addr + T::width() / 16 <= N_BYTES && v.bits() == le_value(
                    window(self.memory(), addr as int, T::width() / 16),
                ),
                Err(e) => addr + T::width() / 16 > N_BYTES && e == MemoryError::OutOfBounds,
            },
    {
        proof {
            T::lemma_width();
        }
        self.load_n_bytes_u(addr, T::bytes() / 2)
    }

    /// load byte (signed)
    pub fn lb(&self, addr: usize) -> (res: Result<T, MemoryError>)
        ensures
            match res {
                Ok(v) => addr < N_BYTES && v.bits() == sign_extend(
                    self.memory()[addr as int] as u128,
                    8,
                    T::width(),
                ),
                Err(e) => addr >= N_BYTES && e == MemoryError::OutOfBounds,
            },
    {
        let byte = self.get_byte(addr)?;
        let ret = match T::from_u8(byte) {
            Some(v) => v,
            None => {
                return Err(MemoryError::ConversionFailure);
            },
        };
        let seven = match T::from_u8(7) {
            Some(v) => v,
            None => {
                return Err(MemoryError::ConversionFailure);
            },
        };
        let loooooo = T::one().sll(seven);  // binary 1000 0000
        proof {
            T::lemma_width();
            lemma_width_powers();
            lemma_width_masks(T::width());
            lemma2_to64();
            lemma_small_mod(7, T::width());
            lemma_sign_extend_construction(byte as u128, 8, T::width());
        }
        let byte_is_negative = ret.and(loooooo).same(loooooo);
        if byte_is_negative {
            let ff = match T::from_u8(u8::MAX) {
                Some(v) => v,
                None => {
                    return Err(MemoryError::ConversionFailure);
                },
            };
            let llloooooooo = T::umax().xor(ff);
            proof {
                let m = all_ones(T::width());
                let k = (128 - T::width()) as u128;
                let b = byte as u128;
                assert((m ^ 0xFF) | b == b | ((m << 8) & m)) by (bit_vector)
                    requires
                        k <= 112,
                        m == u128::MAX >> k,
                ;
            }
            Ok(llloooooooo.or(ret))
        } else {
            Ok(ret)
        }
    }

    /// load `n_bytes` bytes (signed): the bytes from `addr` on, assembled in
    /// little-endian order and sign-extended to the width.
    pub fn load_n_bytes(&self, addr: usize, n_bytes: usize) -> (res: Result<T, MemoryError>)
        requires
            1 <= n_bytes,
            8 * n_bytes <= T::width(),
        ensures
            match res {
                Ok(v) => addr + n_bytes <= N_BYTES && v.bits() == sign_extend(
                    le_value(window(self.memory(), addr as int, n_bytes as nat)) as u128,
                    (8 * n_bytes) as nat,
                    T::width(),
                ),
                Err(e) => addr + n_bytes > N_BYTES && e == MemoryError::OutOfBounds,
            },
    {
        // load each byte into r
        let mut r = self.load_n_bytes_u(addr, n_bytes)?;
        proof {
            T::lemma_width();
            lemma_width_powers();
        }
        // If msb of the loaded value is 1, the leading bits should be 1 to maintain the negative sign
        let top = match T::from_usize(n_bytes * 8 - 1) {
            Some(v) => v,
            None => {
                return Err(MemoryError::ConversionFailure);
            },
        };
        let loooooo = T::one().sll(top);  // MSB mask
        proof {
            lemma_small_mod((8 * n_bytes - 1) as nat, T::width());
            lemma_sign_extend_construction(r.bits(), (8 * n_bytes) as u128, T::width());
        }
        let is_negative = r.and(loooooo).same(loooooo);
        if is_negative && n_bytes < T::bytes() {
            let above = match T::from_usize(n_bytes * 8) {
                Some(v) => v,
                None => {
                    return Err(MemoryError::ConversionFailure);
                },
            };
            proof {
                lemma_small_mod((8 * n_bytes) as nat, T::width());
            }
            r = r.or(T::umax().sll(above));
        }
        Ok(r)
    }

    /// load half-word (signed)
    pub fn lh(&self, addr: usize) -> (res: Result<T, MemoryError>)
        ensures
            match res {
                Ok(v) => addr + T::width() / 16 <= N_BYTES && v.bits() == sign_extend(
                    le_value(window(self.memory(), addr as int, T::width() / 16)) as u128,
                    T::width() / 2,
                    T::width(),
                ),
                Err(e) => addr + T::width() / 16 > N_BYTES && e == MemoryError::OutOfBounds,
            },
    {
        proof {
            T::lemma_width();
        }
        self.load_n_bytes(addr, T::bytes() / 2)
    }

    /// store byte
    pub fn sb(&mut self, b: u8, addr: usize) -> (res: Result<(), MemoryError>)
        ensures
            res == if addr < N_BYTES {
                Ok::<(), MemoryError>(())
            } else {
                Err::<(), MemoryError>(MemoryError::OutOfBounds)
            },
            final(self).memory() == if addr < N_BYTES {
                old(self).memory().update(addr as int, b)
            } else {
                old(self).memory()
            },
            final(self).registers() == old(self).registers(),
            final(self).counter() == old(self).counter(),
    {
        proof {
            use_type_invariant(&*self);
        }
        if addr < self.mem.len() {
            self.mem[addr] = b;
            Ok(())
        } else {
            Err(MemoryError::OutOfBounds)
        }
    }

    /// Stores the `n_bytes` lowest bytes of `data` from `addr` on, in
    /// little-endian order. The bytes are written one by one: where the store
    /// runs beyond the end of the memory it fails, and the bytes that lie
    /// within the memory have been written.
    pub fn store_n_bytes(&mut self, data: T, addr: usize, n_bytes: usize) -> (res: Result<
        (),
        MemoryError,
    >)
        requires
            8 * n_bytes <= T::width(),
        ensures
            res == if in_bounds(addr as int, n_bytes as int, N_BYTES as int) {
                Ok::<(), MemoryError>(())
            } else {
                Err::<(), MemoryError>(MemoryError::OutOfBounds)
            },
            final(self).memory() == stored(
                old(self).memory(),
                addr as int,
                le_bytes(data.bits(), n_bytes as nat),
            ),
            final(self).registers() == old(self).registers(),
            final(self).counter() == old(self).counter(),
    {
        let byte_mask = match T::from_u8(u8::MAX) {
            Some(v) => v,
            None => {
                return Err(MemoryError::ConversionFailure);
            },
        };
        proof {
            T::lemma_width();
            assert(self.memory() =~= stored(
                old(self).memory(),
                addr as int,
                le_bytes(data.bits(), 0),
            ));
        }
        for i in 0..n_bytes
            invariant
                8 * n_bytes <= T::width(),
                supported_width(T::width()),
                byte_mask.bits() == 0xFF,
                i > 0 ==> addr + i <= N_BYTES,
                self.memory().len() == N_BYTES,
                old(self).memory().len() == N_BYTES,
                self.memory() == stored(
                    old(self).memory(),
                    addr as int,
                    le_bytes(data.bits(), i as nat),
                ),
                self.registers() == old(self).registers(),
                self.counter() == old(self).counter(),
        {
            proof {
                lemma_width_powers();
                lemma_small_mod((8 * i) as nat, T::width());
                lemma_byte_extract(data.bits(), i as nat);
            }
            let places = match T::from_usize(i * 8) {
                Some(v) => v,
                None => {
                    return Err(MemoryError::ConversionFailure);
                },
            };
            let byte = byte_mask.and(data.srl(places));
            let byte_u8 = match byte.to_u8() {
                Some(v) => v,
                None => {
                    return Err(MemoryError::ConversionFailure);
                },
            };
            let at = match addr.checked_add(i) {
                Some(a) => a,
                None => {
                    proof {
                        assert(self.memory() =~= stored(
                            old(self).memory(),
                            addr as int,
                            le_bytes(data.bits(), n_bytes as nat),
                        ));
                    }
                    return Err(MemoryError::OutOfBounds);
                },
            };
            match self.sb(byte_u8, at) {
                Ok(()) => {},
                Err(e) => {
                    proof {
                        assert(self.memory() =~= stored(
                            old(self).memory(),
                            addr as int,
                            le_bytes(data.bits(), n_bytes as nat),
                        ));
                    }
                    return Err(e);
                },
            }
            proof {
                assert(self.memory() =~= stored(
                    old(self).memory(),
                    addr as int,
                    le_bytes(data.bits(), (i + 1) as nat),
                ));
            }
        }
        Ok(())
    }

    /// store half-word
    pub fn sh(&mut self, data: T, addr: usize) -> (res: Result<(), MemoryError>)
        ensures
            res == if addr + T::width() / 16 <= N_BYTES {
                Ok::<(), MemoryError>(())
            } else {
                Err::<(), MemoryError>(MemoryError::OutOfBounds)
            },
            final(self).memory() == stored(
                old(self).memory(),
                addr as int,
                le_bytes(data.bits(), T::width() / 16),
            ),
            final(self).registers() == old(self).registers(),
            final(self).counter() == old(self).counter(),
    {
        proof {
            T::lemma_width();
        }
        self.store_n_bytes(data, addr, T::bytes() / 2)
    }

    /// store word
    pub fn sw(&mut self, data: T, addr: usize) -> (res: Result<(), MemoryError>)
        ensures
            res == if addr + T::width() / 8 <= N_BYTES {
                Ok::<(), MemoryError>(())
            } else {
                Err::<(), MemoryError>(MemoryError::OutOfBounds)
            },
            final(self).memory() == stored(
                old(self).memory(),
                addr as int,
                le_bytes(data.bits(), T::width() / 8),
            ),
            final(self).registers() == old(self).registers(),
            final(self).counter() == old(self).counter(),
    {
        proof {
            T::lemma_width();
        }
        self.store_n_bytes(data, addr, T::bytes())
    }

    /// Branch if the two values are equal.
    pub fn beq(&mut self, rs1: T, rs2: T, imm: T) -> (taken: bool)
        ensures
            taken == (rs1.bits() == rs2.bits()),
            final(self).counter().bits() == if taken {
                wrap(old(self).counter().bits() + imm.bits(), T::width())
            } else {
                old(self).counter().bits()
            },
            final(self).registers() == old(self).registers(),
            final(self).memory() == old(self).memory(),
    {
        proof {
            use_type_invariant(&*self);
        }
        if rs1.same(rs2) {
            let mut pc = self.pc;
            pc.add_assign(imm);
            self.pc = pc;
            true
        } else {
            false
        }
    }

    /// Branch if the two values differ.
    pub fn bne(&mut self, rs1: T, rs2: T, imm: T) -> (taken: bool)
        ensures
            taken == (rs1.bits() != rs2.bits()),
            final(self).counter().bits() == if taken {
                wrap(old(self).counter().bits() + imm.bits(), T::width())
            } else {
                old(self).counter().bits()
            },
            final(self).registers() == old(self).registers(),
            final(self).memory() == old(self).memory(),
    {
        proof {
            use_type_invariant(&*self);
        }
        if !rs1.same(rs2) {
            let mut pc = self.pc;
            pc.add_assign(imm);
            self.pc = pc;
            true
        } else {
            false
        }
    }

    /// Branch if `rs1` is below `rs2`, both read as signed.
    pub fn blt(&mut self, rs1: T, rs2: T, imm: T) -> (taken: bool)
        ensures
            taken == (signed_value(rs1.bits(), T::width()) < signed_value(rs2.bits(), T::width())),
            final(self).counter().bits() == if taken {
                wrap(old(self).counter().bits() + imm.bits(), T::width())
            } else {
                old(self).counter().bits()
            },
            final(self).registers() == old(self).registers(),
            final(self).memory() == old(self).memory(),
    {
        proof {
            use_type_invariant(&*self);
        }
        proof {
            rs1.lemma_twins();
            rs2.lemma_twins();
        }
        if rs1.as_signed().less(rs2.as_signed()) {
            let mut pc = self.pc;
            pc.add_assign(imm);
            self.pc = pc;
            true
        } else {
            false
        }
    }

    /// Branch if `rs1` is not below `rs2`, both read as signed.
    pub fn bge(&mut self, rs1: T, rs2: T, imm: T) -> (taken: bool)
        ensures
            taken == (signed_value(rs1.bits(), T::width()) >= signed_value(rs2.bits(), T::width())),
            final(self).counter().bits() == if taken {
                wrap(old(self).counter().bits() + imm.bits(), T::width())
            } else {
                old(self).counter().bits()
            },
            final(self).registers() == old(self).registers(),
            final(self).memory() == old(self).memory(),
    {
        proof {
            use_type_invariant(&*self);
        }
        proof {
            rs1.lemma_twins();
            rs2.lemma_twins();
        }
        if !rs1.as_signed().less(rs2.as_signed()) {
            let mut pc = self.pc;
            pc.add_assign(imm);
            self.pc = pc;
            true
        } else {
            false
        }
    }

    /// Branch if `rs1` is below `rs2`, both read as unsigned.
    pub fn bltu(&mut self, rs1: T, rs2: T, imm: T) -> (taken: bool)
        ensures
            taken == (rs1.bits() < rs2.bits()),
            final(self).counter().bits() == if taken {
                wrap(old(self).counter().bits() + imm.bits(), T::width())
            } else {
                old(self).counter().bits()
            },
            final(self).registers() == old(self).registers(),
            final(self).memory() == old(self).memory(),
    {
        proof {
            use_type_invariant(&*self);
        }
        proof {
            rs1.lemma_twins();
            rs2.lemma_twins();
        }
        if rs1.as_unsigned().less(rs2.as_unsigned()) {
            let mut pc = self.pc;
            pc.add_assign(imm);
            self.pc = pc;
            true
        } else {
            false
        }
    }

    /// Branch if `rs1` is not below `rs2`, both read as unsigned.
    pub fn bgeu(&mut self, rs1: T, rs2: T, imm: T) -> (taken: bool)
        ensures
            taken == (rs1.bits() >= rs2.bits()),
            final(self).counter().bits() == if taken {
                wrap(old(self).counter().bits() + imm.bits(), T::width())
            } else {
                old(self).counter().bits()
            },
            final(self).registers() == old(self).registers(),
            final(self).memory() == old(self).memory(),
    {
        proof {
            use_type_invariant(&*self);
        }
        proof {
            rs1.lemma_twins();
            rs2.lemma_twins();
        }
        if !rs1.as_unsigned().less(rs2.as_unsigned()) {
            let mut pc = self.pc;
            pc.add_assign(imm);
            self.pc = pc;
            true
        } else {
            false
        }
    }
}

} // verus!
