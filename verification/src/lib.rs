//! A width-generic integer core for a RISC-V emulator: a register file, a
//! byte-addressable memory and the arithmetic, logical, memory and branch
//! primitives of the integer instruction set, proved against a bit-pattern
//! model of the registers.

pub mod risc;
