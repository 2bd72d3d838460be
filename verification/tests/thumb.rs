use rgba::bus::{Bus, BusAccess};
use rgba::cpu::Arm7Tdmi;
use rgba::types::{Psr, RegisterFile};

fn make_thumb_cpu() -> Arm7Tdmi {
    let mut cpu = Arm7Tdmi::new();
    cpu.reset_skip_bios();
    cpu.regs.cpsr.insert(Psr::T); // Thumb mode
    cpu
}

#[test]
fn test_thumb_mov_imm() {
    let mut cpu = make_thumb_cpu();
    let mut bus = Bus::new();
    // MOV R0, #42
    let instr = 0x202A;
    cpu.execute_thumb_instruction(instr, &mut bus);
    assert_eq!(cpu.regs.gpr[0], 42);
}

#[test]
fn test_thumb_add_imm() {
    let mut cpu = make_thumb_cpu();
    let mut bus = Bus::new();
    cpu.regs.gpr[0] = 10;
    // ADD R0, #5
    let instr = 0x3005;
    cpu.execute_thumb_instruction(instr, &mut bus);
    assert_eq!(cpu.regs.gpr[0], 15);
}

#[test]
fn test_thumb_sub_imm() {
    let mut cpu = make_thumb_cpu();
    let mut bus = Bus::new();
    cpu.regs.gpr[1] = 10;
    // SUB R1, #3
    let instr = 0x3903;
    cpu.execute_thumb_instruction(instr, &mut bus);
    assert_eq!(cpu.regs.gpr[1], 7);
}

#[test]
fn test_thumb_lsl() {
    let mut cpu = make_thumb_cpu();
    let mut bus = Bus::new();
    cpu.regs.gpr[0] = 1;
    // LSL R1, R0, #4
    let instr = 0x0101; // LSL Rd=R1, Rs=R0, #4
    cpu.execute_thumb_instruction(instr, &mut bus);
    assert_eq!(cpu.regs.gpr[1], 16);
}

#[test]
fn test_thumb_add_reg() {
    let mut cpu = make_thumb_cpu();
    let mut bus = Bus::new();
    cpu.regs.gpr[0] = 5;
    cpu.regs.gpr[1] = 3;
    // ADD R2, R0, R1 — Format 2: 000 11 0 0 Rm=001 Rs=000 Rd=010
    let instr = 0x1842;
    cpu.execute_thumb_instruction(instr, &mut bus);
    assert_eq!(cpu.regs.gpr[2], 8);
}

#[test]
fn test_thumb_str_ldr() {
    let mut cpu = make_thumb_cpu();
    let mut bus = Bus::new();
    cpu.regs.gpr[0] = 0xABCD;
    cpu.regs.gpr[1] = 0x0200_0000;
    // STR R0, [R1, #0] (format 9, word, imm offset 0)
    let str_instr = 0x6008;
    cpu.execute_thumb_instruction(str_instr, &mut bus);
    assert_eq!(bus.read_word(0x0200_0000), 0xABCD);

    // LDR R2, [R1, #0]
    let ldr_instr = 0x680A;
    cpu.execute_thumb_instruction(ldr_instr, &mut bus);
    assert_eq!(cpu.regs.gpr[2], 0xABCD);
}

#[test]
fn test_thumb_push_pop() {
    let mut cpu = make_thumb_cpu();
    let mut bus = Bus::new();
    cpu.regs.gpr[0] = 0xAA;
    cpu.regs.gpr[1] = 0xBB;
    cpu.regs.gpr[RegisterFile::SP] = 0x0300_7F00;

    // PUSH {R0, R1}
    let push = 0xB403;
    cpu.execute_thumb_instruction(push, &mut bus);
    assert_eq!(cpu.regs.gpr[RegisterFile::SP], 0x0300_7F00 - 8);

    cpu.regs.gpr[0] = 0;
    cpu.regs.gpr[1] = 0;

    // POP {R0, R1}
    let pop = 0xBC03;
    cpu.execute_thumb_instruction(pop, &mut bus);
    assert_eq!(cpu.regs.gpr[0], 0xAA);
    assert_eq!(cpu.regs.gpr[1], 0xBB);
}

#[test]
fn test_thumb_cond_branch() {
    let mut cpu = make_thumb_cpu();
    let mut bus = Bus::new();
    cpu.regs.cpsr.insert(Psr::Z);
    let pc_before = cpu.regs.pc();

    // BEQ +4 (offset = 2, shifted = 4)
    let instr = 0xD002;
    cpu.execute_thumb_instruction(instr, &mut bus);
    assert_eq!(cpu.regs.pc(), pc_before.wrapping_add(2 + 4));
}

#[test]
fn test_thumb_branch() {
    let mut cpu = make_thumb_cpu();
    let mut bus = Bus::new();
    let pc_before = cpu.regs.pc();

    // B +10 (offset = 5, shifted = 10)
    let instr = 0xE005;
    cpu.execute_thumb_instruction(instr, &mut bus);
    assert_eq!(cpu.regs.pc(), pc_before.wrapping_add(2 + 10));
}

#[test]
fn test_thumb_sp_offset() {
    let mut cpu = make_thumb_cpu();
    let mut bus = Bus::new();
    cpu.regs.gpr[RegisterFile::SP] = 0x1000;

    // ADD SP, #-16 (offset 4, negative)
    let instr = 0xB084;
    cpu.execute_thumb_instruction(instr, &mut bus);
    assert_eq!(cpu.regs.gpr[RegisterFile::SP], 0x1000 - 16);
}

#[test]
fn test_thumb_bx_arm() {
    let mut cpu = make_thumb_cpu();
    let mut bus = Bus::new();
    cpu.regs.gpr[0] = 0x0800_0000; // bit 0 = 0 => ARM mode

    // BX R0
    let instr = 0x4700;
    cpu.execute_thumb_instruction(instr, &mut bus);
    assert!(!cpu.regs.cpsr.thumb());
    assert_eq!(cpu.regs.pc(), 0x0800_0000);
}

#[test]
fn thumb_register_offset_byte_store() {
    let mut cpu = make_thumb_cpu();
    let mut bus = Bus::new();
    cpu.regs.gpr[0] = 0xAB;
    cpu.regs.gpr[1] = 0x0200_0000;
    cpu.regs.gpr[2] = 4;
    // STRB R0, [R1, R2]
    let cycles = cpu.execute_thumb_instruction(0x5488, &mut bus);
    assert_eq!(cycles, 2);
    assert_eq!(bus.ewram[4], 0xAB);
    assert_eq!(cpu.regs.gpr[8], 0);
    assert_eq!(&cpu.regs.gpr[0..3], &[0xAB, 0x0200_0000, 4]);
}

#[test]
fn thumb_register_offset_loads() {
    let mut cpu = make_thumb_cpu();
    let mut bus = Bus::new();
    bus.write_word(0x0200_0010, 0x8180_7F01);
    cpu.regs.gpr[1] = 0x0200_0010;
    cpu.regs.gpr[2] = 2;
    // LDR R3, [R1, R2]: misaligned word load rotates
    assert_eq!(cpu.execute_thumb_instruction(0x588B, &mut bus), 3);
    assert_eq!(cpu.regs.gpr[3], 0x7F01_8180);
    // LDRB R4, [R1, R2]
    cpu.execute_thumb_instruction(0x5C8C, &mut bus);
    assert_eq!(cpu.regs.gpr[4], 0x80);
    // LDSB R5, [R1, R2]
    cpu.execute_thumb_instruction(0x568D, &mut bus);
    assert_eq!(cpu.regs.gpr[5], 0xFFFF_FF80);
    // LDRH R6, [R1, R2]
    cpu.execute_thumb_instruction(0x5A8E, &mut bus);
    assert_eq!(cpu.regs.gpr[6], 0x8180);
    // LDSH R7, [R1, R2]
    cpu.execute_thumb_instruction(0x5E8F, &mut bus);
    assert_eq!(cpu.regs.gpr[7], 0xFFFF_8180);
    // PC-relative load still decodes as format 6: LDR R0, [PC, #0]
    assert_eq!(cpu.execute_thumb_instruction(0x4800, &mut bus), 3);
    // Hi register MOV still decodes as format 5: MOV R8, R1
    cpu.execute_thumb_instruction(0x4688, &mut bus);
    assert_eq!(cpu.regs.gpr[8], 0x0200_0010);
}
