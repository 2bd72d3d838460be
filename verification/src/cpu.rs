use vstd::prelude::*;

use crate::alu::condition_passed;
use crate::bits::lemma_word_bits;
use crate::bus::{BusAccess, BusView};
use crate::exec_arm::exec_arm_spec;
use crate::thumb::exec_thumb_spec;
use crate::types::{
    psr_has, psr_with_mode, regs_default, set_spsr_spec, switch_mode_spec, CpuMode, Psr,
    RegisterFile, RegsView,
};

verus! {

/// The register file and bus after one instruction, with the cycles it took.
#[verifier::ext_equal]
pub struct ExecResult {
    pub regs: RegsView,
    pub bus: BusView,
    pub cycles: u32,
}

/// Value of register `reg` as an instruction operand: the PC reads ahead of the
/// already-advanced PC by 4 in ARM state and by 2 in THUMB state.
pub open spec fn reg_read(r: RegsView, reg: int) -> u32 {
    if reg == 15 {
        if psr_has(r.cpsr, Psr::T) {
            r.gpr[15].wrapping_add(2)
        } else {
            r.gpr[15].wrapping_add(4)
        }
    } else {
        r.gpr[reg]
    }
}

/// Entry into an exception: switch to `mode`, save the old CPSR in the new mode's SPSR,
/// put `ret` in LR, disable IRQs, enter ARM state and jump to `vector`.
pub open spec fn exception_entry(r: RegsView, mode: CpuMode, ret: u32, vector: u32) -> RegsView {
    let r1 = set_spsr_spec(switch_mode_spec(r, mode), r.cpsr).with_reg(14, ret);
    r1.with_cpsr((r1.cpsr | Psr::I) & !Psr::T).with_pc(vector)
}

/// Register file of the power-on state: Supervisor mode (0x13) with IRQ (0x80) and FIQ
/// (0x40) disabled, PC at the ROM entry point.
pub open spec fn regs_power_on() -> RegsView {
    regs_default().with_cpsr(0xD3).with_pc(0x0800_0000)
}

/// Register file of a BIOS boot: Supervisor mode with IRQ and FIQ disabled, PC at 0.
pub open spec fn regs_bios_boot() -> RegsView {
    regs_default().with_cpsr(0xD3).with_pc(0)
}

/// Register file of a direct boot: System mode (0x1F) with interrupts enabled, PC at
/// the ROM entry point and the stacks that the BIOS would have set up.
pub open spec fn regs_direct_boot() -> RegsView {
    let r = regs_default().with_cpsr(0x1F).with_pc(0x0800_0000).with_reg(13, 0x0300_7F00);
    RegsView { sp_bank: r.sp_bank.update(2, 0x0300_7FA0).update(3, 0x0300_7FE0), ..r }
}

/// One ARM instruction: fetch the word at the PC, advance the PC by 4, execute.
pub open spec fn step_arm_spec(r: RegsView, bus: BusView) -> ExecResult {
    let pc = r.gpr[15];
    exec_arm_spec(r.with_pc(pc.wrapping_add(4)), bus, bus.read_word(pc))
}

/// One THUMB instruction: fetch the halfword at the PC, advance the PC by 2, execute.
pub open spec fn step_thumb_spec(r: RegsView, bus: BusView) -> ExecResult {
    let pc = r.gpr[15];
    exec_thumb_spec(r.with_pc(pc.wrapping_add(2)), bus, bus.read_halfword(pc) as u32)
}

/// One instruction in the state that the CPSR's T bit selects.
pub open spec fn step_spec(r: RegsView, bus: BusView) -> ExecResult {
    if psr_has(r.cpsr, Psr::T) {
        step_thumb_spec(r, bus)
    } else {
        step_arm_spec(r, bus)
    }
}

/// ARM7TDMI CPU state
#[derive(Debug, Clone)]
pub struct Arm7Tdmi {
    pub regs: RegisterFile,
    /// CPU is halted (waiting for interrupt)
    pub halted: bool,
    /// Pipeline: fetched instruction
    pub pipeline: [u32; 2],
    /// Total cycles executed
    pub cycles: u64,
}

impl Arm7Tdmi {
    pub fn new() -> (cpu: Self)
        ensures
            cpu.regs@ == regs_power_on(),
            !cpu.halted,
            cpu.pipeline@ == seq![0u32, 0u32],
            cpu.cycles == 0,
    {
        let mut cpu = Self {
            regs: RegisterFile::default(),
            halted: false,
            pipeline: [0u32; 2],
            cycles: 0,
        };
        // Power-on state: ARM mode, supervisor, IRQ+FIQ disabled
        cpu.regs.cpsr = Psr::from_bits_retain(CpuMode::Supervisor.bits() | Psr::I | Psr::F);
        cpu.regs.set_pc(0x0800_0000);  // Entry point (skip BIOS by default)
        assert(cpu.pipeline@ =~= seq![0u32, 0u32]);
        proof {
            lemma_word_bits();
        }
        assert(cpu.regs@ =~= regs_power_on());
        cpu
    }

    /// Initialize CPU to boot from BIOS
    pub fn reset_to_bios(&mut self)
        ensures
            final(self).regs@ == regs_bios_boot(),
            !final(self).halted,
            final(self).pipeline@ == seq![0u32, 0u32],
            final(self).cycles == 0,
    {
        self.regs = RegisterFile::default();
        self.regs.cpsr = Psr::from_bits_retain(CpuMode::Supervisor.bits() | Psr::I | Psr::F);
        self.regs.set_pc(0x0000_0000);
        self.halted = false;
        self.pipeline = [0u32; 2];
        self.cycles = 0;
        assert(self.pipeline@ =~= seq![0u32, 0u32]);
        proof {
            lemma_word_bits();
        }
        assert(self.regs@ =~= regs_bios_boot());
    }

    /// Initialize CPU to skip BIOS (direct boot)
    pub fn reset_skip_bios(&mut self)
        ensures
            final(self).regs@ == regs_direct_boot(),
            !final(self).halted,
            final(self).pipeline@ == seq![0u32, 0u32],
            final(self).cycles == 0,
    {
        self.regs = RegisterFile::default();
        self.regs.cpsr = Psr::from_bits_retain(CpuMode::System.bits());
        self.regs.set_pc(0x0800_0000);
        // Set up stack pointers like BIOS would
        self.regs.gpr[RegisterFile::SP] = 0x0300_7F00;  // System/User SP
        self.regs.sp_bank[CpuMode::Irq.bank_index()] = 0x0300_7FA0;  // IRQ SP
        self.regs.sp_bank[CpuMode::Supervisor.bank_index()] = 0x0300_7FE0;  // SVC SP
        self.halted = false;
        self.pipeline = [0u32; 2];
        self.cycles = 0;
        assert(self.pipeline@ =~= seq![0u32, 0u32]);
        assert(self.regs@ =~= regs_direct_boot());
    }

    /// Step the CPU by one instruction, returns cycles consumed
    pub fn step<B: BusAccess>(&mut self, bus: &mut B) -> (c: u32)
        requires
            old(bus)@.wf(),
            old(self).cycles + 64 <= u64::MAX,
        ensures
            old(self).halted ==> c == 1 && *final(self) == *old(self) && final(bus)@ == old(bus)@,
            !old(self).halted ==> (ExecResult {
                regs: final(self).regs@,
                bus: final(bus)@,
                cycles: c,
            }) == step_spec(old(self).regs@, old(bus)@) && final(self).cycles == old(self).cycles
                + c,
            1 <= c <= 64,
            final(bus)@.wf(),
            final(self).halted == old(self).halted,
            final(self).pipeline == old(self).pipeline,
    {
        if self.halted {
            return 1;
        }
        if self.regs.cpsr.thumb() {
            self.step_thumb(bus)
        } else {
            self.step_arm(bus)
        }
    }

    /// Execute one ARM instruction
    fn step_arm<B: BusAccess>(&mut self, bus: &mut B) -> (c: u32)
        requires
            old(bus)@.wf(),
            old(self).cycles + 64 <= u64::MAX,
        ensures
            (ExecResult { regs: final(self).regs@, bus: final(bus)@, cycles: c }) == step_arm_spec(
                old(self).regs@,
                old(bus)@,
            ),
            final(self).cycles == old(self).cycles + c,
            1 <= c <= 64,
            final(bus)@.wf(),
            final(self).halted == old(self).halted,
            final(self).pipeline == old(self).pipeline,
    {
        let pc = self.regs.pc();
        let instruction = bus.read_word(pc);
        self.regs.set_pc(pc.wrapping_add(4));
        let cycles = self.execute_arm(instruction, bus);
        self.cycles = self.cycles + cycles as u64;
        cycles
    }

    /// Execute one THUMB instruction
    fn step_thumb<B: BusAccess>(&mut self, bus: &mut B) -> (c: u32)
        requires
            old(bus)@.wf(),
            old(self).cycles + 64 <= u64::MAX,
        ensures
            (ExecResult { regs: final(self).regs@, bus: final(bus)@, cycles: c })
                == step_thumb_spec(old(self).regs@, old(bus)@),
            final(self).cycles == old(self).cycles + c,
            1 <= c <= 64,
            final(bus)@.wf(),
            final(self).halted == old(self).halted,
            final(self).pipeline == old(self).pipeline,
    {
        let pc = self.regs.pc();
        let instruction = bus.read_halfword(pc) as u32;
        self.regs.set_pc(pc.wrapping_add(2));
        let cycles = self.execute_thumb(instruction, bus);
        self.cycles = self.cycles + cycles as u64;
        cycles
    }

    /// Execute an ARM instruction
    fn execute_arm<B: BusAccess>(&mut self, instruction: u32, bus: &mut B) -> (c: u32)
        requires
            old(bus)@.wf(),
        ensures
            (ExecResult { regs: final(self).regs@, bus: final(bus)@, cycles: c }) == exec_arm_spec(
                old(self).regs@,
                old(bus)@,
                instruction,
            ),
            final(bus)@.wf(),
            1 <= c <= 64,
            final(self).halted == old(self).halted,
            final(self).pipeline == old(self).pipeline,
            final(self).cycles == old(self).cycles,
    {
        self.execute_arm_instruction(instruction, bus)
    }

    /// Execute a THUMB instruction (the decoder and executor live in the THUMB module)
    fn execute_thumb<B: BusAccess>(&mut self, instruction: u32, bus: &mut B) -> (c: u32)
        requires
            old(bus)@.wf(),
        ensures
            (ExecResult { regs: final(self).regs@, bus: final(bus)@, cycles: c })
                == exec_thumb_spec(old(self).regs@, old(bus)@, instruction),
            final(bus)@.wf(),
            1 <= c <= 64,
            final(self).halted == old(self).halted,
            final(self).pipeline == old(self).pipeline,
            final(self).cycles == old(self).cycles,
    {
        self.execute_thumb_instruction(instruction, bus)
    }

    /// Check ARM condition code
    pub fn check_condition(&self, cond: u32) -> (r: bool)
        requires
            cond < 16,
        ensures
            r == condition_passed(self.regs.cpsr@, cond),
    {
        let cpsr = self.regs.cpsr;
        let n = cpsr.contains(Psr::N);
        let z = cpsr.contains(Psr::Z);
        let c = cpsr.contains(Psr::C);
        let v = cpsr.contains(Psr::V);
        if cond == 0x0 {
            z  // EQ
        } else if cond == 0x1 {
            !z  // NE
        } else if cond == 0x2 {
            c  // CS/HS
        } else if cond == 0x3 {
            !c  // CC/LO
        } else if cond == 0x4 {
            n  // MI
        } else if cond == 0x5 {
            !n  // PL
        } else if cond == 0x6 {
            v  // VS
        } else if cond == 0x7 {
            !v  // VC
        } else if cond == 0x8 {
            c && !z  // HI
        } else if cond == 0x9 {
            !c || z  // LS
        } else if cond == 0xA {
            n == v  // GE
        } else if cond == 0xB {
            n != v  // LT
        } else if cond == 0xC {
            !z && n == v  // GT
        } else if cond == 0xD {
            z || n != v  // LE
        } else {
            true  // AL (always), NV (ARMv4: never, treated as always)

        }
    }

    /// Trigger an IRQ exception
    pub fn trigger_irq(&mut self)
        ensures
            psr_has(old(self).regs@.cpsr, Psr::I) ==> final(self).regs@ == old(self).regs@
                && final(self).halted == old(self).halted,
            !psr_has(old(self).regs@.cpsr, Psr::I) ==> final(self).regs@ == exception_entry(
                old(self).regs@,
                CpuMode::Irq,
                if psr_has(old(self).regs@.cpsr, Psr::T) {
                    old(self).regs@.gpr[15].wrapping_add(2)
                } else {
                    old(self).regs@.gpr[15].wrapping_add(4)
                },
                0x18,
            ) && !final(self).halted,
            final(self).pipeline == old(self).pipeline,
            final(self).cycles == old(self).cycles,
    {
        if self.regs.cpsr.irq_disabled() {
            return;
        }
        let cpsr = self.regs.cpsr;
        let return_addr = if cpsr.thumb() {
            self.regs.pc().wrapping_add(2)
        } else {
            self.regs.pc().wrapping_add(4)
        };
        self.enter_exception(CpuMode::Irq, return_addr, 0x0000_0018);
        self.halted = false;
    }

    /// Enter an exception mode: bank the registers, save the CPSR, set LR, disable IRQs,
    /// switch to ARM state and jump to the vector.
    pub(crate) fn enter_exception(&mut self, mode: CpuMode, return_addr: u32, vector: u32)
        ensures
            final(self).regs@ == exception_entry(old(self).regs@, mode, return_addr, vector),
            final(self).halted == old(self).halted,
            final(self).pipeline == old(self).pipeline,
            final(self).cycles == old(self).cycles,
    {
        let cpsr = self.regs.cpsr;
        self.regs.switch_mode(mode);
        self.regs.set_spsr(cpsr);
        self.regs.gpr[RegisterFile::LR] = return_addr;
        assert(self.regs.spsr@.map_values(|p: Psr| p@) =~= self.regs@.spsr);
        // Set IRQ disable, clear Thumb
        self.regs.cpsr.insert(Psr::I);
        self.regs.cpsr.remove(Psr::T);
        self.regs.set_pc(vector);
    }
}

impl Default for Arm7Tdmi {
    fn default() -> (cpu: Self)
        ensures
            cpu.regs@ == regs_power_on(),
            !cpu.halted,
            cpu.cycles == 0,
    {
        Self::new()
    }
}

} // verus!
