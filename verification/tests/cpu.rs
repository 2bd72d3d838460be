use rgba::cpu::Arm7Tdmi;
use rgba::types::RegisterFile;

#[test]
fn test_cpu_init() {
    let cpu = Arm7Tdmi::new();
    assert_eq!(cpu.regs.pc(), 0x0800_0000);
    assert!(!cpu.regs.cpsr.thumb());
    assert!(cpu.regs.cpsr.irq_disabled());
}

#[test]
fn test_skip_bios_init() {
    let mut cpu = Arm7Tdmi::new();
    cpu.reset_skip_bios();
    assert_eq!(cpu.regs.pc(), 0x0800_0000);
    assert_eq!(cpu.regs.gpr[RegisterFile::SP], 0x0300_7F00);
    assert!(!cpu.regs.cpsr.irq_disabled());
}

#[test]
fn test_condition_codes() {
    let cpu = Arm7Tdmi::new();
    assert!(cpu.check_condition(0xE)); // Always

    // Default CPSR has no flags set
    assert!(!cpu.check_condition(0x0)); // EQ (Z=0)
    assert!(cpu.check_condition(0x1)); // NE (Z=0)
}
