use riscv_core::risc::RiscV;

#[test]
fn beq_branches_on_equal() {
    let mut cpu = RiscV::<u32, 16>::new();
    assert!(cpu.beq(5, 5, 8));
    assert_eq!(cpu.pc(), 8);
    assert!(!cpu.beq(5, 6, 8));
    assert_eq!(cpu.pc(), 8);
}

#[test]
fn bne_branches_on_unequal() {
    let mut cpu = RiscV::<u32, 16>::new();
    assert!(!cpu.bne(5, 5, 8));
    assert_eq!(cpu.pc(), 0);
    assert!(cpu.bne(5, 6, 8));
    assert_eq!(cpu.pc(), 8);
}

#[test]
fn blt_compares_signed() {
    let mut cpu = RiscV::<u32, 16>::new();
    assert!(cpu.blt(0xFFFF_FFFF, 0, 4));
    assert_eq!(cpu.pc(), 4);
    assert!(!cpu.blt(0, 0xFFFF_FFFF, 4));
    assert!(!cpu.blt(3, 3, 4));
    assert!(cpu.blt(0x8000_0000, 0x7FFF_FFFF, 4));
    assert_eq!(cpu.pc(), 8);
}

#[test]
fn bge_compares_signed() {
    let mut cpu = RiscV::<u32, 16>::new();
    assert!(!cpu.bge(0xFFFF_FFFF, 0, 4));
    assert_eq!(cpu.pc(), 0);
    assert!(cpu.bge(0, 0xFFFF_FFFF, 4));
    assert!(cpu.bge(3, 3, 4));
    assert!(cpu.bge(0x7FFF_FFFF, 0x8000_0000, 4));
    assert_eq!(cpu.pc(), 12);
}

#[test]
fn bltu_compares_unsigned() {
    let mut cpu = RiscV::<u32, 16>::new();
    assert!(!cpu.bltu(0xFFFF_FFFF, 0, 4));
    assert!(cpu.bltu(0, 0xFFFF_FFFF, 4));
    assert!(!cpu.bltu(3, 3, 4));
    assert!(cpu.bltu(0x7FFF_FFFF, 0x8000_0000, 4));
    assert_eq!(cpu.pc(), 8);
}

#[test]
fn bgeu_compares_unsigned() {
    let mut cpu = RiscV::<u32, 16>::new();
    assert!(cpu.bgeu(0xFFFF_FFFF, 0, 4));
    assert!(!cpu.bgeu(0, 0xFFFF_FFFF, 4));
    assert!(cpu.bgeu(3, 3, 4));
    assert!(!cpu.bgeu(0x7FFF_FFFF, 0x8000_0000, 4));
    assert_eq!(cpu.pc(), 8);
}

#[test]
fn branch_offset_wraps() {
    let mut cpu = RiscV::<u32, 16>::new();
    assert!(cpu.beq(0, 0, 16));
    assert_eq!(cpu.pc(), 16);
    // an offset of -4, as a pattern
    assert!(cpu.beq(0, 0, 0xFFFF_FFFC));
    assert_eq!(cpu.pc(), 12);
    assert!(cpu.beq(0, 0, 0xFFFF_FFF0));
    assert_eq!(cpu.pc(), 0xFFFF_FFFC);
    assert!(cpu.beq(0, 0, 8));
    assert_eq!(cpu.pc(), 4);
}

#[test]
fn branches_on_signed_storage() {
    let mut cpu = RiscV::<i64, 16>::new();
    assert!(cpu.blt(-1, 0, 4));
    assert!(!cpu.bltu(-1, 0, 4));
    assert!(cpu.bgeu(-1, 0, -8));
    assert!(!cpu.bge(-1, 0, 4));
    assert_eq!(cpu.pc(), -4);
}

#[test]
fn branches_leave_registers_and_memory_alone() {
    let mut cpu = RiscV::<u32, 16>::new();
    cpu.write(3, 33);
    cpu.sb(0xAB, 2).unwrap();
    cpu.beq(1, 1, 100);
    cpu.bne(1, 1, 100);
    cpu.bltu(1, 2, 100);
    assert_eq!(cpu.read(3), 33);
    assert_eq!(cpu.get_byte(2), Ok(0xAB));
    assert_eq!(cpu.pc(), 200);
}
