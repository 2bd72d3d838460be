use rgba::bus::{Bus, BusAccess};
use rgba::cpu::Arm7Tdmi;
use rgba::types::{CpuMode, Psr, RegisterFile};

fn make_cpu() -> Arm7Tdmi {
    let mut cpu = Arm7Tdmi::new();
    cpu.reset_skip_bios();
    cpu
}

#[test]
fn test_exec_mov_imm() {
    let mut cpu = make_cpu();
    let mut bus = Bus::new();
    // MOV R0, #42
    let instr = 0xE3A0_002A;
    cpu.execute_arm_instruction(instr, &mut bus);
    assert_eq!(cpu.regs.gpr[0], 42);
}

#[test]
fn test_exec_add() {
    let mut cpu = make_cpu();
    let mut bus = Bus::new();
    cpu.regs.gpr[1] = 10;
    cpu.regs.gpr[2] = 20;
    // ADD R0, R1, R2
    let instr = 0xE081_0002;
    cpu.execute_arm_instruction(instr, &mut bus);
    assert_eq!(cpu.regs.gpr[0], 30);
}

#[test]
fn test_exec_sub_flags() {
    let mut cpu = make_cpu();
    let mut bus = Bus::new();
    cpu.regs.gpr[0] = 5;
    cpu.regs.gpr[1] = 5;
    // SUBS R2, R0, R1
    let instr = 0xE050_2001;
    cpu.execute_arm_instruction(instr, &mut bus);
    assert_eq!(cpu.regs.gpr[2], 0);
    assert!(cpu.regs.cpsr.contains(Psr::Z));
    assert!(cpu.regs.cpsr.contains(Psr::C)); // no borrow
}

#[test]
fn test_exec_cmp() {
    let mut cpu = make_cpu();
    let mut bus = Bus::new();
    cpu.regs.gpr[0] = 10;
    // CMP R0, #5
    let instr = 0xE350_0005;
    cpu.execute_arm_instruction(instr, &mut bus);
    assert!(!cpu.regs.cpsr.contains(Psr::Z));
    assert!(cpu.regs.cpsr.contains(Psr::C)); // 10 >= 5
}

#[test]
fn test_exec_str_ldr() {
    let mut cpu = make_cpu();
    let mut bus = Bus::new();
    cpu.regs.gpr[0] = 0xDEAD_BEEF;
    cpu.regs.gpr[1] = 0x0200_0000; // EWRAM

    // STR R0, [R1]
    let str_instr = 0xE581_0000;
    cpu.execute_arm_instruction(str_instr, &mut bus);
    assert_eq!(bus.read_word(0x0200_0000), 0xDEAD_BEEF);

    // LDR R2, [R1]
    let ldr_instr = 0xE591_2000;
    cpu.execute_arm_instruction(ldr_instr, &mut bus);
    assert_eq!(cpu.regs.gpr[2], 0xDEAD_BEEF);
}

#[test]
fn test_exec_str_ldr_offset() {
    let mut cpu = make_cpu();
    let mut bus = Bus::new();
    cpu.regs.gpr[0] = 0x1234;
    cpu.regs.gpr[1] = 0x0200_0000;

    // STR R0, [R1, #8]
    let instr = 0xE581_0008;
    cpu.execute_arm_instruction(instr, &mut bus);
    assert_eq!(bus.read_word(0x0200_0008), 0x1234);
}

#[test]
fn test_exec_branch() {
    let mut cpu = make_cpu();
    let mut bus = Bus::new();
    let pc_before = cpu.regs.pc();
    // B +8: offset field = 2, shifted = 8
    let instr = 0xEA00_0002;
    cpu.execute_arm_instruction(instr, &mut bus);
    assert_eq!(cpu.regs.pc(), pc_before.wrapping_add(8));
}

#[test]
fn test_exec_branch_link() {
    let mut cpu = make_cpu();
    let mut bus = Bus::new();
    let pc_before = cpu.regs.pc();
    // BL +0
    let instr = 0xEB00_0000;
    cpu.execute_arm_instruction(instr, &mut bus);
    // LR should be old PC - 4
    assert_eq!(cpu.regs.gpr[RegisterFile::LR], pc_before.wrapping_sub(4));
}

#[test]
fn test_exec_bx_thumb() {
    let mut cpu = make_cpu();
    cpu.regs.gpr[0] = 0x0800_0001; // bit 0 set = THUMB

    let instr = 0xE12F_FF10; // BX R0
    let mut bus = Bus::new();
    cpu.execute_arm_instruction(instr, &mut bus);

    assert!(cpu.regs.cpsr.thumb());
    assert_eq!(cpu.regs.pc(), 0x0800_0000);
}

#[test]
fn test_exec_multiply() {
    let mut cpu = make_cpu();
    let mut bus = Bus::new();
    cpu.regs.gpr[1] = 7;
    cpu.regs.gpr[2] = 6;
    // MUL R0, R1, R2
    let instr = 0xE000_0291;
    cpu.execute_arm_instruction(instr, &mut bus);
    assert_eq!(cpu.regs.gpr[0], 42);
}

#[test]
fn test_exec_swp() {
    let mut cpu = make_cpu();
    let mut bus = Bus::new();
    cpu.regs.gpr[0] = 0x0200_0000; // address
    cpu.regs.gpr[1] = 0xAAAA_BBBB; // value to swap in
    bus.write_word(0x0200_0000, 0xCCCC_DDDD); // existing value

    // SWP R2, R1, [R0]
    let instr = 0xE100_2091;
    cpu.execute_arm_instruction(instr, &mut bus);

    assert_eq!(cpu.regs.gpr[2], 0xCCCC_DDDD); // read old value
    assert_eq!(bus.read_word(0x0200_0000), 0xAAAA_BBBB); // wrote new value
}

#[test]
fn test_exec_ldm_stm() {
    let mut cpu = make_cpu();
    let mut bus = Bus::new();
    cpu.regs.gpr[0] = 1;
    cpu.regs.gpr[1] = 2;
    cpu.regs.gpr[2] = 3;
    cpu.regs.gpr[13] = 0x0300_7F00;

    // STMDB SP!, {R0-R2} (push)
    let stm = 0xE92D_0007;
    cpu.execute_arm_instruction(stm, &mut bus);
    assert_eq!(cpu.regs.gpr[13], 0x0300_7F00 - 12);

    // Clear registers
    cpu.regs.gpr[0] = 0;
    cpu.regs.gpr[1] = 0;
    cpu.regs.gpr[2] = 0;

    // LDMIA SP!, {R0-R2} (pop)
    let ldm = 0xE8BD_0007;
    cpu.execute_arm_instruction(ldm, &mut bus);
    assert_eq!(cpu.regs.gpr[0], 1);
    assert_eq!(cpu.regs.gpr[1], 2);
    assert_eq!(cpu.regs.gpr[2], 3);
    assert_eq!(cpu.regs.gpr[13], 0x0300_7F00);
}

#[test]
fn test_exec_mrs_msr() {
    let mut cpu = make_cpu();
    let mut bus = Bus::new();
    cpu.regs.cpsr.insert(Psr::N);
    cpu.regs.cpsr.insert(Psr::Z);

    // MRS R0, CPSR
    let mrs = 0xE10F_0000;
    cpu.execute_arm_instruction(mrs, &mut bus);
    assert_eq!(cpu.regs.gpr[0], cpu.regs.cpsr.bits());
}

#[test]
fn test_exec_condition_fail() {
    let mut cpu = make_cpu();
    let mut bus = Bus::new();
    cpu.regs.gpr[0] = 99;
    // MOVEQ R0, #0 (condition EQ, but Z=0 so should not execute)
    let instr = 0x03A0_0000;
    cpu.execute_arm_instruction(instr, &mut bus);
    assert_eq!(cpu.regs.gpr[0], 99); // unchanged
}

#[test]
fn test_exec_swi() {
    let mut cpu = make_cpu();
    let mut bus = Bus::new();
    let old_pc = cpu.regs.pc();
    // SWI #0
    let instr = 0xEF00_0000;
    cpu.execute_arm_instruction(instr, &mut bus);
    assert_eq!(cpu.regs.cpsr.mode(), CpuMode::Supervisor);
    assert_eq!(cpu.regs.pc(), 0x0000_0008);
    assert!(cpu.regs.cpsr.irq_disabled());
    // LR should point to instruction after SWI
    assert_eq!(cpu.regs.gpr[RegisterFile::LR], old_pc.wrapping_sub(4));
}

#[test]
fn msr_mode_change_banks_stack_pointer() {
    let mut cpu = make_cpu();
    let mut bus = Bus::new();
    assert_eq!(cpu.regs.cpsr.mode(), CpuMode::System);
    assert_eq!(cpu.regs.gpr[13], 0x0300_7F00);
    // MSR CPSR_c, #0x92 (IRQ mode, IRQs disabled)
    cpu.execute_arm_instruction(0xE321_F092, &mut bus);
    assert_eq!(cpu.regs.cpsr.mode(), CpuMode::Irq);
    assert_eq!(cpu.regs.cpsr.bits() & 0xFF, 0x92);
    assert_eq!(cpu.regs.gpr[13], 0x0300_7FA0);
    // MSR CPSR_c, #0x1F (back to System)
    cpu.execute_arm_instruction(0xE321_F01F, &mut bus);
    assert_eq!(cpu.regs.cpsr.mode(), CpuMode::System);
    assert_eq!(cpu.regs.gpr[13], 0x0300_7F00);
}

#[test]
fn exception_return_restores_mode_and_banks() {
    let mut cpu = make_cpu();
    let mut bus = Bus::new();
    // Enter IRQ mode, then return with MOVS PC, LR
    cpu.execute_arm_instruction(0xE321_F092, &mut bus);
    cpu.regs.set_spsr(Psr::from_bits_retain(0x1F));
    cpu.regs.gpr[14] = 0x0800_0100;
    cpu.execute_arm_instruction(0xE1B0_F00E, &mut bus);
    assert_eq!(cpu.regs.cpsr.bits(), 0x1F);
    assert_eq!(cpu.regs.gpr[13], 0x0300_7F00);
    assert_eq!(cpu.regs.gpr[15], 0x0800_0100);
}
