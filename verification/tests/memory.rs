use riscv_core::risc::{MemoryError, RiscV};

#[test]
fn memory_read_write() -> Result<(), MemoryError> {
    let mut cpu = RiscV::<u32, 1024>::new();

    // Test out of bounds
    assert!(cpu.sb(0, cpu.capacity()).is_err());
    assert!(cpu.lb(cpu.capacity()).is_err());
    assert!(cpu.lbu(cpu.capacity()).is_err());
    assert!(cpu.lh(cpu.capacity()).is_err());
    assert!(cpu.lhu(cpu.capacity()).is_err());
    assert!(cpu.lw(cpu.capacity()).is_err());

    // taste basic read and write
    cpu.sb(1_u8, 0)?;
    assert_eq!(cpu.lbu(0)?, 1);
    cpu.sb(0_u8, 0)?;
    assert_eq!(cpu.lbu(0)?, 0);

    // write 0xFF..FF in mem[1.. 3]
    for i in 0..(32 / 8) {
        cpu.sb(0xFF, i + 1)?;
    }

    assert_eq!(cpu.lb(1)?, 0xFFFF_FFFF);
    assert_eq!(cpu.lbu(1)?, 0x0000_00FF);
    assert_eq!(cpu.lh(1)?, 0xFFFF_FFFF);
    assert_eq!(cpu.lhu(1)?, 0x0000_FFFF);
    assert_eq!(cpu.lw(1)?, 0xFFFF_FFFF);

    assert_eq!(cpu.lb(0)?, 0x0);
    assert_eq!(cpu.lbu(0)?, 0x0);
    assert_eq!(cpu.lh(0)?, 0xFFFF_FF00);
    assert_eq!(cpu.lhu(0)?, 0x0000_FF00);
    assert_eq!(cpu.lw(0)?, 0xFFFF_FF00);

    cpu.sb(i8::MIN as u8, 100)?; // 0x80 at addr[100]
    assert_eq!(cpu.lb(100)?, 0xFFFF_FF80);
    assert_eq!(cpu.lbu(100)?, 0x0000_0080);
    assert_eq!(cpu.lh(100)?, 0x0000_0080);
    assert_eq!(cpu.lhu(100)?, 0x0000_0080);
    assert_eq!(cpu.lw(100)?, 0x0000_0080);

    assert_eq!(cpu.lh(99)?, 0xFFFF8000);
    assert_eq!(cpu.lhu(99)?, 0x00008000);
    assert_eq!(cpu.lw(99)?, 0x00008000);
    assert_eq!(cpu.lw(100)?, 0x00000080);

    cpu.sh(0x34AB_CDEF, 50)?;
    assert_eq!(cpu.lw(50)?, 0x0000_CDEF);

    cpu.sw(0x34AB_CDEF, 70)?;
    assert_eq!(cpu.lw(70)?, 0x34AB_CDEF);

    Ok(())
}

#[test]
fn new_memory_is_zero() {
    let cpu = RiscV::<u32, 64>::new();
    assert_eq!(cpu.capacity(), 64);
    for addr in 0..64 {
        assert_eq!(cpu.get_byte(addr), Ok(0));
    }
    assert_eq!(cpu.get_byte(64), Err(MemoryError::OutOfBounds));
}

#[test]
fn bytes_ff_scenario() {
    let mut cpu = RiscV::<u32, 1024>::new();
    for addr in 1..=4 {
        assert_eq!(cpu.sb(0xFF, addr), Ok(()));
    }
    assert_eq!(cpu.lb(1), Ok(0xFFFF_FFFF));
    assert_eq!(cpu.lbu(1), Ok(0x0000_00FF));
    assert_eq!(cpu.lh(1), Ok(0xFFFF_FFFF));
    assert_eq!(cpu.lhu(1), Ok(0x0000_FFFF));
    assert_eq!(cpu.lw(1), Ok(0xFFFF_FFFF));
    assert_eq!(cpu.lh(0), Ok(0xFFFF_FF00));
    assert_eq!(cpu.lw(0), Ok(0xFFFF_FF00));
}

#[test]
fn half_word_store_writes_two_bytes() {
    let mut cpu = RiscV::<u32, 1024>::new();
    assert_eq!(cpu.sh(0x34AB_CDEF, 50), Ok(()));
    assert_eq!(cpu.lw(50), Ok(0x0000_CDEF));
    assert_eq!(cpu.get_byte(50), Ok(0xEF));
    assert_eq!(cpu.get_byte(51), Ok(0xCD));
    assert_eq!(cpu.get_byte(52), Ok(0x00));
    assert_eq!(cpu.get_byte(53), Ok(0x00));
}

#[test]
fn word_store_is_little_endian() {
    let mut cpu = RiscV::<u32, 16>::new();
    assert_eq!(cpu.sw(0x1234_5678, 4), Ok(()));
    assert_eq!(cpu.get_byte(3), Ok(0x00));
    assert_eq!(cpu.get_byte(4), Ok(0x78));
    assert_eq!(cpu.get_byte(5), Ok(0x56));
    assert_eq!(cpu.get_byte(6), Ok(0x34));
    assert_eq!(cpu.get_byte(7), Ok(0x12));
    assert_eq!(cpu.get_byte(8), Ok(0x00));
}

#[test]
fn sign_extension_of_0x80() {
    let mut c16 = RiscV::<u16, 8>::new();
    c16.sb(0x80, 3).unwrap();
    assert_eq!(c16.lb(3), Ok(0xFF80));
    assert_eq!(c16.lbu(3), Ok(0x0080));

    let mut c32 = RiscV::<u32, 8>::new();
    c32.sb(0x80, 3).unwrap();
    assert_eq!(c32.lb(3), Ok(0xFFFF_FF80));
    assert_eq!(c32.lbu(3), Ok(0x0000_0080));

    let mut c64 = RiscV::<u64, 8>::new();
    c64.sb(0x80, 3).unwrap();
    assert_eq!(c64.lb(3), Ok(0xFFFF_FFFF_FFFF_FF80));
    assert_eq!(c64.lbu(3), Ok(0x80));

    let mut c128 = RiscV::<u128, 8>::new();
    c128.sb(0x80, 3).unwrap();
    assert_eq!(c128.lb(3), Ok(0xFFFF_FFFF_FFFF_FFFF_FFFF_FFFF_FFFF_FF80));
    assert_eq!(c128.lbu(3), Ok(0x80));
}

#[test]
fn positive_byte_is_not_extended() {
    let mut cpu = RiscV::<u32, 8>::new();
    cpu.sb(0x7F, 0).unwrap();
    assert_eq!(cpu.lb(0), Ok(0x7F));
    assert_eq!(cpu.lbu(0), Ok(0x7F));
}

#[test]
fn signed_storage_loads() {
    let mut cpu = RiscV::<i32, 16>::new();
    cpu.sb(0x80, 0).unwrap();
    assert_eq!(cpu.lb(0), Ok(-128));
    assert_eq!(cpu.lbu(0), Ok(128));
    cpu.sw(-2, 4).unwrap();
    assert_eq!(cpu.get_byte(4), Ok(0xFE));
    assert_eq!(cpu.get_byte(7), Ok(0xFF));
    assert_eq!(cpu.lw(4), Ok(-2));
    assert_eq!(cpu.lh(4), Ok(-2));
    assert_eq!(cpu.lhu(4), Ok(0xFFFE));
}

#[test]
fn store_load_round_trip() {
    let mut cpu = RiscV::<u32, 32>::new();
    let data: u32 = 0xA1B2_C3D4;
    assert_eq!(cpu.store_n_bytes(data, 8, 1), Ok(()));
    assert_eq!(cpu.load_n_bytes_u(8, 1), Ok(0xD4));
    assert_eq!(cpu.store_n_bytes(data, 8, 2), Ok(()));
    assert_eq!(cpu.load_n_bytes_u(8, 2), Ok(0xC3D4));
    assert_eq!(cpu.store_n_bytes(data, 8, 3), Ok(()));
    assert_eq!(cpu.load_n_bytes_u(8, 3), Ok(0xB2_C3D4));
    assert_eq!(cpu.store_n_bytes(data, 8, 4), Ok(()));
    assert_eq!(cpu.load_n_bytes_u(8, 4), Ok(data));
}

#[test]
fn round_trip_at_every_width() {
    let mut c16 = RiscV::<u16, 8>::new();
    c16.sw(0xBEEF, 1).unwrap();
    assert_eq!(c16.lw(1), Ok(0xBEEF));
    assert_eq!(c16.lhu(1), Ok(0xEF));
    assert_eq!(c16.lh(1), Ok(0xFFEF));

    let mut c64 = RiscV::<u64, 32>::new();
    c64.sw(0x0123_4567_89AB_CDEF, 3).unwrap();
    assert_eq!(c64.lw(3), Ok(0x0123_4567_89AB_CDEF));
    assert_eq!(c64.lhu(3), Ok(0x89AB_CDEF));
    assert_eq!(c64.lh(3), Ok(0xFFFF_FFFF_89AB_CDEF));

    let mut c128 = RiscV::<u128, 64>::new();
    let v: u128 = 0x0011_2233_4455_6677_8899_AABB_CCDD_EEFF;
    c128.sw(v, 5).unwrap();
    assert_eq!(c128.lw(5), Ok(v));
    assert_eq!(c128.lhu(5), Ok(0x8899_AABB_CCDD_EEFF));
    assert_eq!(c128.lh(5), Ok(0xFFFF_FFFF_FFFF_FFFF_8899_AABB_CCDD_EEFF));
}

#[test]
fn signed_load_of_full_width() {
    let mut cpu = RiscV::<u32, 8>::new();
    cpu.sw(0x8000_0001, 0).unwrap();
    assert_eq!(cpu.load_n_bytes(0, 4), Ok(0x8000_0001));
    assert_eq!(cpu.load_n_bytes(0, 1), Ok(0x0000_0001));
    assert_eq!(cpu.load_n_bytes(3, 1), Ok(0xFFFF_FF80));
    assert_eq!(cpu.load_n_bytes(1, 3), Ok(0xFF80_0000));
}

#[test]
fn load_of_no_byte() {
    let cpu = RiscV::<u32, 8>::new();
    assert_eq!(cpu.load_n_bytes_u(0, 0), Ok(0));
    assert_eq!(cpu.load_n_bytes_u(8, 0), Ok(0));
    assert_eq!(cpu.load_n_bytes_u(100, 0), Ok(0));
}

#[test]
fn store_of_no_byte() {
    let mut cpu = RiscV::<u32, 8>::new();
    assert_eq!(cpu.store_n_bytes(0xFFFF_FFFF, 100, 0), Ok(()));
    for addr in 0..8 {
        assert_eq!(cpu.get_byte(addr), Ok(0));
    }
}

#[test]
fn accesses_at_capacity_fail() {
    let mut cpu = RiscV::<u32, 16>::new();
    assert_eq!(cpu.get_byte(16), Err(MemoryError::OutOfBounds));
    assert_eq!(cpu.lb(16), Err(MemoryError::OutOfBounds));
    assert_eq!(cpu.lbu(16), Err(MemoryError::OutOfBounds));
    assert_eq!(cpu.lh(16), Err(MemoryError::OutOfBounds));
    assert_eq!(cpu.lhu(16), Err(MemoryError::OutOfBounds));
    assert_eq!(cpu.lw(16), Err(MemoryError::OutOfBounds));
    assert_eq!(cpu.sb(1, 16), Err(MemoryError::OutOfBounds));
    assert_eq!(cpu.sh(1, 16), Err(MemoryError::OutOfBounds));
    assert_eq!(cpu.sw(1, 16), Err(MemoryError::OutOfBounds));
    assert_eq!(cpu.lb(17), Err(MemoryError::OutOfBounds));
    assert_eq!(cpu.lw(1000), Err(MemoryError::OutOfBounds));
}

#[test]
fn accesses_that_straddle_the_end_fail() {
    let cpu = RiscV::<u32, 16>::new();
    assert_eq!(cpu.lw(12), Ok(0));
    assert_eq!(cpu.lw(13), Err(MemoryError::OutOfBounds));
    assert_eq!(cpu.lh(14), Ok(0));
    assert_eq!(cpu.lh(15), Err(MemoryError::OutOfBounds));
    assert_eq!(cpu.lhu(15), Err(MemoryError::OutOfBounds));
    assert_eq!(cpu.lb(15), Ok(0));
}

#[test]
fn address_overflow_is_out_of_bounds() {
    let mut cpu = RiscV::<u32, 16>::new();
    assert_eq!(cpu.lw(usize::MAX), Err(MemoryError::OutOfBounds));
    assert_eq!(cpu.lh(usize::MAX), Err(MemoryError::OutOfBounds));
    assert_eq!(cpu.lhu(usize::MAX - 1), Err(MemoryError::OutOfBounds));
    assert_eq!(cpu.lb(usize::MAX), Err(MemoryError::OutOfBounds));
    assert_eq!(cpu.sw(0xFFFF_FFFF, usize::MAX), Err(MemoryError::OutOfBounds));
    assert_eq!(cpu.sw(0xFFFF_FFFF, usize::MAX - 2), Err(MemoryError::OutOfBounds));
    for addr in 0..16 {
        assert_eq!(cpu.get_byte(addr), Ok(0));
    }
}

#[test]
fn failed_store_keeps_the_bytes_written() {
    let mut cpu = RiscV::<u32, 16>::new();
    assert_eq!(cpu.sw(0x1122_3344, 14), Err(MemoryError::OutOfBounds));
    assert_eq!(cpu.get_byte(13), Ok(0x00));
    assert_eq!(cpu.get_byte(14), Ok(0x44));
    assert_eq!(cpu.get_byte(15), Ok(0x33));
}

#[test]
fn failed_byte_store_changes_nothing() {
    let mut cpu = RiscV::<u32, 4>::new();
    assert_eq!(cpu.sb(0xAA, 4), Err(MemoryError::OutOfBounds));
    for addr in 0..4 {
        assert_eq!(cpu.get_byte(addr), Ok(0));
    }
}

#[test]
fn empty_memory() {
    let mut cpu = RiscV::<u32, 0>::new();
    assert_eq!(cpu.capacity(), 0);
    assert_eq!(cpu.lb(0), Err(MemoryError::OutOfBounds));
    assert_eq!(cpu.sb(1, 0), Err(MemoryError::OutOfBounds));
    assert_eq!(cpu.lw(0), Err(MemoryError::OutOfBounds));
}

#[test]
fn stores_leave_registers_alone() {
    let mut cpu = RiscV::<u32, 16>::new();
    cpu.write(5, 77);
    cpu.sw(0xFFFF_FFFF, 0).unwrap();
    cpu.sb(1, 8).unwrap();
    assert_eq!(cpu.read(5), 77);
    assert_eq!(cpu.read(0), 0);
    assert_eq!(cpu.pc(), 0);
}
