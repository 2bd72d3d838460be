use vstd::prelude::*;

use crate::alu::{adc, add_with_carry, barrel_shift, condition_passed, shift_spec, sub_flags};
use crate::arm::{bit, ror, ror32, ShiftType};
use crate::bits::{lemma_and_bound, lemma_word_bits};
use crate::bus::{lemma_write_byte_wf, lemma_write_wide_wf, BusAccess, BusView};
use crate::cpu::{exception_entry, Arm7Tdmi, ExecResult};
use crate::exec_arm::{
    branch_target, load_word_rotated, multiply_cycles, multiply_cycles_spec, only_regs_changed,
    sext16, sext8, with_nz,
};
use crate::types::{lemma_psr_flags, psr_has, psr_with, CpuMode, Psr, RegisterFile, RegsView};

verus! {

// =============================================================================
// Semantics of THUMB instructions
// =============================================================================

/// The 3-bit register field of `x` that starts at bit `n`.
pub open spec fn reg3(x: u32, n: u32) -> int {
    ((x >> n) & 7) as int
}

/// The CPSR with N, Z, C and V set from an arithmetic result.
pub open spec fn with_nzcv(cpsr: u32, f: (u32, bool, bool)) -> u32 {
    psr_with(psr_with(with_nz(cpsr, f.0), Psr::C, f.1), Psr::V, f.2)
}

/// Format 1: LSL/LSR/ASR Rd, Rs, #offset
pub open spec fn thumb_shift_spec(r: RegsView, i: u32) -> (RegsView, u32) {
    let op = (i >> 11) & 3;
    let t = if op == 0 {
        ShiftType::Lsl
    } else if op == 1 {
        ShiftType::Lsr
    } else {
        ShiftType::Asr
    };
    let (result, c) = shift_spec(r.gpr[reg3(i, 3)], t, (i >> 6) & 0x1F, psr_has(r.cpsr, Psr::C));
    let r1 = r.with_reg(reg3(i, 0), result);
    (r1.with_cpsr(psr_with(with_nz(r1.cpsr, result), Psr::C, c)), 1)
}

/// Format 2: ADD/SUB Rd, Rs, Rn|#imm3
pub open spec fn thumb_add_sub_spec(r: RegsView, i: u32) -> (RegsView, u32) {
    let op1 = r.gpr[reg3(i, 3)];
    let op2 = if bit(i, 10) {
        (i >> 6) & 7
    } else {
        r.gpr[reg3(i, 6)]
    };
    let f = if bit(i, 9) {
        sub_flags(op1, op2)
    } else {
        add_with_carry(op1, op2, false)
    };
    let r1 = r.with_reg(reg3(i, 0), f.0);
    (r1.with_cpsr(with_nzcv(r1.cpsr, f)), 1)
}

/// Format 3: MOV/CMP/ADD/SUB Rd, #imm8
pub open spec fn thumb_imm_op_spec(r: RegsView, i: u32) -> (RegsView, u32) {
    let op = (i >> 11) & 3;
    let rd = reg3(i, 8);
    let imm = i & 0xFF;
    if op == 0 {
        let r1 = r.with_reg(rd, imm);
        (r1.with_cpsr(psr_with(psr_with(r1.cpsr, Psr::N, false), Psr::Z, imm == 0)), 1)
    } else if op == 1 {
        (r.with_cpsr(with_nzcv(r.cpsr, sub_flags(r.gpr[rd], imm))), 1)
    } else {
        let f = if op == 2 {
            add_with_carry(r.gpr[rd], imm, false)
        } else {
            sub_flags(r.gpr[rd], imm)
        };
        let r1 = r.with_reg(rd, f.0);
        (r1.with_cpsr(with_nzcv(r1.cpsr, f)), 1)
    }
}

/// A register-specified shift: amount 0 leaves value and carry alone.
pub open spec fn reg_shift_spec(a: u32, t: ShiftType, b: u32, c: bool) -> (u32, bool) {
    let shift = b & 0xFF;
    if shift == 0 {
        (a, c)
    } else {
        shift_spec(a, t, shift, c)
    }
}

/// Format 4: ALU operations on low registers
pub open spec fn thumb_alu_spec(r: RegsView, i: u32) -> (RegsView, u32) {
    let op = (i >> 6) & 0xF;
    let rd = reg3(i, 0);
    let a = r.gpr[rd];
    let b = r.gpr[reg3(i, 3)];
    let c = psr_has(r.cpsr, Psr::C);
    if op == 0x8 {
        // TST
        (r.with_cpsr(with_nz(r.cpsr, a & b)), 1)
    } else if op == 0xA {
        // CMP
        (r.with_cpsr(with_nzcv(r.cpsr, sub_flags(a, b))), 1)
    } else if op == 0xB {
        // CMN
        (r.with_cpsr(with_nzcv(r.cpsr, add_with_carry(a, b, false))), 1)
    } else {
        let (result, new_carry, new_overflow) = if op == 0x0 {
            (a & b, c, false)
        } else if op == 0x1 {
            (a ^ b, c, false)
        } else if op == 0x2 {
            let (v, k) = reg_shift_spec(a, ShiftType::Lsl, b, c);
            (v, k, false)
        } else if op == 0x3 {
            let (v, k) = reg_shift_spec(a, ShiftType::Lsr, b, c);
            (v, k, false)
        } else if op == 0x4 {
            let (v, k) = reg_shift_spec(a, ShiftType::Asr, b, c);
            (v, k, false)
        } else if op == 0x5 {
            add_with_carry(a, b, c)
        } else if op == 0x6 {
            add_with_carry(a, !b, c)
        } else if op == 0x7 {
            let (v, k) = reg_shift_spec(a, ShiftType::Ror, b, c);
            (v, k, false)
        } else if op == 0x9 {
            sub_flags(0, b)
        } else if op == 0xC {
            (a | b, c, false)
        } else if op == 0xD {
            ((a as int * b as int % 0x1_0000_0000) as u32, c, false)
        } else if op == 0xE {
            (a & !b, c, false)
        } else {
            (!b, c, false)
        };
        let r1 = r.with_reg(rd, result);
        let nz = with_nz(r1.cpsr, result);
        let cpsr = if op == 0x5 || op == 0x6 || op == 0x9 {
            psr_with(psr_with(nz, Psr::C, new_carry), Psr::V, new_overflow)
        } else if op != 0xD {
            psr_with(nz, Psr::C, new_carry)
        } else {
            nz
        };
        let cycles: u32 = if op == 0x2 || op == 0x3 || op == 0x4 || op == 0x7 {
            2
        } else if op == 0xD {
            (1 + multiply_cycles_spec(a)) as u32
        } else {
            1
        };
        (r1.with_cpsr(cpsr), cycles)
    }
}

/// What a format-4 ALU instruction leaves in Rd, with `a` = old Rd, `b` = old Rs and
/// `cin` = the old carry flag: AND `a & b`, EOR `a ^ b`, ORR `a | b`, BIC `a & !b`,
/// MVN `!b`, MUL `a * b`, ADC `a + b + cin`, SBC `a - b - (1 - cin)`, NEG `0 - b`
/// (arithmetic modulo 2^32); TST, CMP and CMN keep Rd. No other register changes.
pub proof fn lemma_thumb_alu_results(r: RegsView, i: u32)
    requires
        r.wf(),
    ensures
        ({
            let r2 = thumb_alu_spec(r, i).0;
            let op = (i >> 6) & 0xF;
            let rd = (i & 7) as int;
            let a = r.gpr[rd];
            let b = r.gpr[((i >> 3) & 7) as int];
            let cin: int = if psr_has(r.cpsr, Psr::C) {
                1
            } else {
                0
            };
            let v = r2.gpr[rd];
            &&& op == 0x0 ==> v == a & b
            &&& op == 0x1 ==> v == a ^ b
            &&& op == 0xC ==> v == a | b
            &&& op == 0xE ==> v == a & !b
            &&& op == 0xF ==> v == !b
            &&& op == 0xD ==> v as int == (a * b) % 0x1_0000_0000
            &&& op == 0x5 ==> v as int == (a + b + cin) % 0x1_0000_0000
            &&& op == 0x6 ==> v as int == (a - b - (1 - cin)) % 0x1_0000_0000
            &&& op == 0x9 ==> v as int == (0 - b) % 0x1_0000_0000
            &&& (op == 0x8 || op == 0xA || op == 0xB) ==> v == a
            &&& forall|j: int| 0 <= j < 16 && j != rd ==> r2.gpr[j] == r.gpr[j]
        }),
{
    lemma_alu_fields(i);
    lemma_word_bits();
    let b = r.gpr[reg3(i, 3)];
    assert(!b == 0xFFFF_FFFF - b);
}

/// The register fields of a format-4 instruction.
proof fn lemma_alu_fields(i: u32)
    ensures
        reg3(i, 0) == (i & 7) as int,
        reg3(i, 0) < 8,
        reg3(i, 3) < 8,
{
    assert((i >> 0u32) & 7 == i & 7) by (bit_vector);
    lemma_and_bound();
}

/// Every format-4 instruction that writes Rd sets Z exactly when the new Rd is zero and N
/// exactly when its top bit is set.
pub proof fn lemma_thumb_alu_nz(r: RegsView, i: u32)
    requires
        r.wf(),
        !((i >> 6) & 0xF == 0x8 || (i >> 6) & 0xF == 0xA || (i >> 6) & 0xF == 0xB),
    ensures
        ({
            let r2 = thumb_alu_spec(r, i).0;
            let v = r2.gpr[(i & 7) as int];
            &&& psr_has(r2.cpsr, Psr::Z) == (v == 0)
            &&& psr_has(r2.cpsr, Psr::N) == (v >= 0x8000_0000)
        }),
{
    lemma_alu_fields(i);
    let rd = reg3(i, 0);
    let r2 = thumb_alu_spec(r, i).0;
    let v = r2.gpr[rd];
    let c1 = r.with_reg(rd, v).cpsr;
    assert(c1 == r.cpsr);
    lemma_psr_flags(c1, (v >> 31) != 0);
    let n1 = psr_with(c1, Psr::N, (v >> 31) != 0);
    lemma_psr_flags(n1, v == 0);
    let nz = psr_with(n1, Psr::Z, v == 0);
    lemma_psr_flags(v, true);
    assert forall|x: u32, k: bool| #![trigger psr_with(x, Psr::C, k)]
        psr_has(psr_with(x, Psr::C, k), Psr::Z) == psr_has(x, Psr::Z) && psr_has(
            psr_with(x, Psr::C, k),
            Psr::N,
        ) == psr_has(x, Psr::N) by {
        lemma_psr_flags(x, k);
    }
    assert forall|x: u32, k: bool| #![trigger psr_with(x, Psr::V, k)]
        psr_has(psr_with(x, Psr::V, k), Psr::Z) == psr_has(x, Psr::Z) && psr_has(
            psr_with(x, Psr::V, k),
            Psr::N,
        ) == psr_has(x, Psr::N) by {
        lemma_psr_flags(x, k);
    }
}

/// TST sets Z exactly when `Rd & Rs` is zero; CMP sets Z exactly when Rd equals Rs and C
/// exactly when no borrow occurs (Rd >= Rs).
pub proof fn lemma_thumb_alu_compare(r: RegsView, i: u32)
    requires
        r.wf(),
    ensures
        ({
            let r2 = thumb_alu_spec(r, i).0;
            let op = (i >> 6) & 0xF;
            let a = r.gpr[(i & 7) as int];
            let b = r.gpr[((i >> 3) & 7) as int];
            &&& op == 0x8 ==> psr_has(r2.cpsr, Psr::Z) == (a & b == 0)
            &&& op == 0xA ==> psr_has(r2.cpsr, Psr::Z) == (a == b)
            &&& op == 0xA ==> psr_has(r2.cpsr, Psr::C) == (a >= b)
        }),
{
    lemma_alu_fields(i);
    lemma_word_bits();
    let a = r.gpr[reg3(i, 0)];
    let b = r.gpr[reg3(i, 3)];
    assert(!b == 0xFFFF_FFFF - b);
    let c0 = r.cpsr;
    lemma_psr_flags(c0, (a & b) >> 31 != 0);
    lemma_psr_flags(psr_with(c0, Psr::N, (a & b) >> 31 != 0), a & b == 0);
    let f = sub_flags(a, b);
    lemma_psr_flags(c0, (f.0 >> 31) != 0);
    let x1 = psr_with(c0, Psr::N, (f.0 >> 31) != 0);
    lemma_psr_flags(x1, f.0 == 0);
    let x2 = psr_with(x1, Psr::Z, f.0 == 0);
    lemma_psr_flags(x2, f.1);
    let x3 = psr_with(x2, Psr::C, f.1);
    lemma_psr_flags(x3, f.2);
}

/// A high-register operand: the PC reads 2 ahead of the advanced PC.
pub open spec fn reg_hi_spec(r: RegsView, reg: int) -> u32 {
    if reg == 15 {
        r.gpr[15].wrapping_add(2)
    } else {
        r.gpr[reg]
    }
}

/// Format 5: ADD/CMP/MOV on high registers, BX
pub open spec fn thumb_hi_reg_bx_spec(r: RegsView, i: u32) -> (RegsView, u32) {
    let op = (i >> 8) & 3;
    let rs = reg3(i, 3) + if bit(i, 6) {
        8int
    } else {
        0
    };
    let rd = reg3(i, 0) + if bit(i, 7) {
        8int
    } else {
        0
    };
    if op == 0 {
        let r1 = r.with_reg(rd, r.gpr[rd].wrapping_add(reg_hi_spec(r, rs)));
        if rd == 15 {
            (r1.with_pc(r1.gpr[15] & !1u32), 3)
        } else {
            (r1, 1)
        }
    } else if op == 1 {
        (r.with_cpsr(with_nzcv(r.cpsr, sub_flags(r.gpr[rd], reg_hi_spec(r, rs)))), 1)
    } else if op == 2 {
        let r1 = r.with_reg(rd, reg_hi_spec(r, rs));
        if rd == 15 {
            (r1.with_pc(r1.gpr[15] & !1u32), 3)
        } else {
            (r1, 1)
        }
    } else {
        let addr = reg_hi_spec(r, rs);
        (
            if addr & 1 != 0 {
                r.with_cpsr(r.cpsr | Psr::T).with_pc(addr & !1u32)
            } else {
                r.with_cpsr(r.cpsr & !Psr::T).with_pc(addr & !3u32)
            },
            3,
        )
    }
}

/// The word-aligned PC as seen by PC-relative THUMB instructions.
pub open spec fn thumb_pc_base(r: RegsView) -> u32 {
    r.gpr[15].wrapping_add(2) & !3u32
}

/// Format 6: LDR Rd, [PC, #imm]
pub open spec fn thumb_pc_load_spec(r: RegsView, bus: BusView, i: u32) -> (RegsView, u32) {
    let addr = thumb_pc_base(r).wrapping_add(((i & 0xFF) * 4) as u32);
    (r.with_reg(reg3(i, 8), bus.read_word(addr)), 3)
}

/// Formats 7 and 8: load/store with register offset
pub open spec fn thumb_load_store_reg_spec(r: RegsView, bus: BusView, i: u32) -> ExecResult {
    let rd = reg3(i, 0);
    let addr = r.gpr[reg3(i, 3)].wrapping_add(r.gpr[reg3(i, 6)]);
    if bit(i, 9) {
        let op = (i >> 10) & 3;
        if op == 0 {
            // STRH
            ExecResult { regs: r, bus: bus.write_halfword(addr & !1u32, r.gpr[rd] as u16), cycles: 2 }
        } else {
            let value = if op == 1 {
                sext8(bus.read_byte(addr))
            } else if op == 2 {
                let val = bus.read_halfword(addr & !1u32) as u32;
                if addr % 2 == 1 {
                    ror32(val, 8)
                } else {
                    val
                }
            } else if addr % 2 == 1 {
                sext8(bus.read_byte(addr))
            } else {
                sext16(bus.read_halfword(addr))
            };
            ExecResult { regs: r.with_reg(rd, value), bus, cycles: 3 }
        }
    } else if bit(i, 11) {
        let value = if bit(i, 10) {
            bus.read_byte(addr) as u32
        } else {
            load_word_rotated(bus, addr)
        };
        ExecResult { regs: r.with_reg(rd, value), bus, cycles: 3 }
    } else {
        ExecResult {
            regs: r,
            bus: if bit(i, 10) {
                bus.write_byte(addr, r.gpr[rd] as u8)
            } else {
                bus.write_word(addr & !3u32, r.gpr[rd])
            },
            cycles: 2,
        }
    }
}

/// Format 9: load/store with immediate offset
pub open spec fn thumb_load_store_imm_spec(r: RegsView, bus: BusView, i: u32) -> ExecResult {
    let byte = bit(i, 12);
    let off = (i >> 6) & 0x1F;
    let rd = reg3(i, 0);
    let addr = r.gpr[reg3(i, 3)].wrapping_add(
        if byte {
            off
        } else {
            (off * 4) as u32
        },
    );
    if bit(i, 11) {
        let value = if byte {
            bus.read_byte(addr) as u32
        } else {
            load_word_rotated(bus, addr)
        };
        ExecResult { regs: r.with_reg(rd, value), bus, cycles: 3 }
    } else {
        ExecResult {
            regs: r,
            bus: if byte {
                bus.write_byte(addr, r.gpr[rd] as u8)
            } else {
                bus.write_word(addr & !3u32, r.gpr[rd])
            },
            cycles: 2,
        }
    }
}

/// Format 10: load/store halfword with immediate offset
pub open spec fn thumb_load_store_half_spec(r: RegsView, bus: BusView, i: u32) -> ExecResult {
    let rd = reg3(i, 0);
    let addr = r.gpr[reg3(i, 3)].wrapping_add((((i >> 6) & 0x1F) * 2) as u32);
    if bit(i, 11) {
        ExecResult {
            regs: r.with_reg(rd, bus.read_halfword(addr & !1u32) as u32),
            bus,
            cycles: 3,
        }
    } else {
        ExecResult { regs: r, bus: bus.write_halfword(addr & !1u32, r.gpr[rd] as u16), cycles: 2 }
    }
}

/// Format 11: SP-relative load/store
pub open spec fn thumb_sp_load_store_spec(r: RegsView, bus: BusView, i: u32) -> ExecResult {
    let rd = reg3(i, 8);
    let addr = r.gpr[13].wrapping_add(((i & 0xFF) * 4) as u32);
    if bit(i, 11) {
        ExecResult { regs: r.with_reg(rd, bus.read_word(addr & !3u32)), bus, cycles: 3 }
    } else {
        ExecResult { regs: r, bus: bus.write_word(addr & !3u32, r.gpr[rd]), cycles: 2 }
    }
}

/// Format 12: ADD Rd, PC|SP, #imm
pub open spec fn thumb_load_address_spec(r: RegsView, i: u32) -> (RegsView, u32) {
    let offset = (i & 0xFF) * 4;
    (
        r.with_reg(
            reg3(i, 8),
            if bit(i, 11) {
                r.gpr[13].wrapping_add(offset as u32)
            } else {
                thumb_pc_base(r).wrapping_add(offset as u32)
            },
        ),
        1,
    )
}

/// Format 13: ADD SP, #+/-imm
pub open spec fn thumb_sp_offset_spec(r: RegsView, i: u32) -> (RegsView, u32) {
    let offset = ((i & 0x7F) * 4) as u32;
    (
        r.with_reg(
            13,
            if bit(i, 7) {
                r.gpr[13].wrapping_sub(offset)
            } else {
                r.gpr[13].wrapping_add(offset)
            },
        ),
        1,
    )
}

/// Whether bit `i` of an 8-bit register list is set.
pub open spec fn list8_has(list: u32, i: int) -> bool {
    (list >> (i as u32)) & 1 == 1
}

/// Number of set bits among the lowest `n` bits of `x`.
pub open spec fn popcount8(x: u32, n: int) -> nat
    decreases n,
{
    if n <= 0 {
        0
    } else {
        popcount8(x, n - 1) + if list8_has(x, n - 1) {
            1nat
        } else {
            0
        }
    }
}

/// One register of a THUMB multiple load/store: loads or stores register `i` at `addr`
/// if the list holds it.
pub open spec fn multi_step(st: crate::exec_arm::BlockState, i: int, list: u32, load: bool) -> crate::exec_arm::BlockState {
    if !list8_has(list, i) {
        st
    } else if load {
        crate::exec_arm::BlockState {
            regs: st.regs.with_reg(i, st.bus.read_word(st.addr & !3u32)),
            addr: st.addr.wrapping_add(4),
            cycles: (st.cycles + 1) as u32,
            ..st
        }
    } else {
        crate::exec_arm::BlockState {
            bus: st.bus.write_word(st.addr & !3u32, st.regs.gpr[i]),
            addr: st.addr.wrapping_add(4),
            cycles: (st.cycles + 1) as u32,
            ..st
        }
    }
}

/// The multiple load/store state after registers 0..n.
pub open spec fn multi_upto(st: crate::exec_arm::BlockState, n: int, list: u32, load: bool) -> crate::exec_arm::BlockState
    decreases n,
{
    if n <= 0 {
        st
    } else {
        multi_step(multi_upto(st, n - 1, list, load), n - 1, list, load)
    }
}

/// A multiple load leaves memory as it was.
pub proof fn lemma_multi_load_keeps_bus(st: crate::exec_arm::BlockState, n: int, list: u32)
    ensures
        multi_upto(st, n, list, true).bus == st.bus,
    decreases n,
{
    if n > 0 {
        lemma_multi_load_keeps_bus(st, n - 1, list);
    }
}

/// Format 14: PUSH/POP {Rlist} (with LR / PC)
pub open spec fn thumb_push_pop_spec(r: RegsView, bus: BusView, i: u32) -> ExecResult {
    let list = i & 0xFF;
    let pc_lr = bit(i, 8);
    let count = popcount8(list, 8) + if pc_lr {
        1nat
    } else {
        0
    };
    if bit(i, 11) {
        // POP
        let st = multi_upto(
            crate::exec_arm::BlockState { regs: r, bus, addr: r.gpr[13], cycles: 0 },
            8,
            list,
            true,
        );
        if pc_lr {
            let r1 = st.regs.with_pc(bus.read_word(st.addr & !3u32) & !1u32);
            ExecResult {
                regs: r1.with_reg(13, st.addr.wrapping_add(4)),
                bus,
                cycles: (st.cycles + 3) as u32,
            }
        } else {
            ExecResult { regs: st.regs.with_reg(13, st.addr), bus, cycles: (st.cycles + 1) as u32 }
        }
    } else {
        // PUSH
        let start = r.gpr[13].wrapping_sub((count * 4) as u32);
        let r0 = r.with_reg(13, start);
        let st = multi_upto(
            crate::exec_arm::BlockState { regs: r0, bus, addr: start, cycles: 0 },
            8,
            list,
            false,
        );
        if pc_lr {
            ExecResult {
                regs: st.regs,
                bus: st.bus.write_word(st.addr & !3u32, st.regs.gpr[14]),
                cycles: (st.cycles + 2) as u32,
            }
        } else {
            ExecResult { regs: st.regs, bus: st.bus, cycles: (st.cycles + 1) as u32 }
        }
    }
}

/// Format 15: LDMIA/STMIA Rb!, {Rlist}
pub open spec fn thumb_multi_load_store_spec(r: RegsView, bus: BusView, i: u32) -> ExecResult {
    let load = bit(i, 11);
    let rb = reg3(i, 8);
    let list = i & 0xFF;
    let base = r.gpr[rb];
    if list == 0 {
        // Empty list: transfers the PC, base moves by 0x40
        let (r1, bus1) = if load {
            (r.with_pc(bus.read_word(base & !3u32) & !1u32), bus)
        } else {
            (r, bus.write_word(base & !3u32, r.gpr[15].wrapping_add(2)))
        };
        ExecResult { regs: r1.with_reg(rb, base.wrapping_add(0x40)), bus: bus1, cycles: 3 }
    } else {
        let st = multi_upto(
            crate::exec_arm::BlockState { regs: r, bus, addr: base, cycles: 0 },
            8,
            list,
            load,
        );
        ExecResult {
            regs: if !load || !list8_has(list, rb) {
                st.regs.with_reg(rb, st.addr)
            } else {
                st.regs
            },
            bus: st.bus,
            cycles: (st.cycles + 1) as u32,
        }
    }
}

/// An 8-bit two's-complement field, as an integer.
pub open spec fn sext8_int(x: u32) -> int {
    if x >= 0x80 {
        x - 0x100
    } else {
        x as int
    }
}

/// An 11-bit two's-complement field, as an integer.
pub open spec fn sext11_int(x: u32) -> int {
    if x >= 0x400 {
        x - 0x800
    } else {
        x as int
    }
}

/// Format 16: conditional branch
pub open spec fn thumb_cond_branch_spec(r: RegsView, i: u32) -> (RegsView, u32) {
    if !condition_passed(r.cpsr, (i >> 8) & 0xF) {
        (r, 1)
    } else {
        (r.with_pc(branch_target(r.gpr[15].wrapping_add(2), sext8_int(i & 0xFF) * 2)), 3)
    }
}

/// Format 18: unconditional branch
pub open spec fn thumb_branch_spec(r: RegsView, i: u32) -> (RegsView, u32) {
    (r.with_pc(branch_target(r.gpr[15].wrapping_add(2), sext11_int(i & 0x7FF) * 2)), 3)
}

/// Format 19: long branch with link, first half (H=0) sets LR to the upper target,
/// second half (H=1) branches and leaves the return address in LR.
pub open spec fn thumb_long_branch_spec(r: RegsView, i: u32) -> (RegsView, u32) {
    if !bit(i, 11) {
        (r.with_reg(14, branch_target(r.gpr[15].wrapping_add(2), sext11_int(i & 0x7FF) * 4096)), 1)
    } else {
        let target = r.gpr[14].wrapping_add(((i & 0x7FF) * 2) as u32);
        let r1 = r.with_reg(14, r.gpr[15].wrapping_sub(2) | 1);
        (r1.with_pc(target & !1u32), 3)
    }
}

pub open spec fn regs_only(x: (RegsView, u32), bus: BusView) -> ExecResult {
    ExecResult { regs: x.0, bus, cycles: x.1 }
}

/// The effect of executing THUMB instruction `i` (PC already advanced past it),
/// following the decoder's dispatch on bits 15..8.
pub open spec fn exec_thumb_spec(r: RegsView, bus: BusView, i: u32) -> ExecResult {
    let top = i >> 13;
    if top == 0 {
        if (i >> 11) & 3 == 3 {
            regs_only(thumb_add_sub_spec(r, i), bus)
        } else {
            regs_only(thumb_shift_spec(r, i), bus)
        }
    } else if top == 1 {
        regs_only(thumb_imm_op_spec(r, i), bus)
    } else if top == 2 {
        if (i >> 10) & 7 == 0 {
            regs_only(thumb_alu_spec(r, i), bus)
        } else if (i >> 10) & 7 == 1 {
            regs_only(thumb_hi_reg_bx_spec(r, i), bus)
        } else if (i >> 11) & 0x1F == 0b01001 {
            regs_only(thumb_pc_load_spec(r, bus, i), bus)
        } else {
            thumb_load_store_reg_spec(r, bus, i)
        }
    } else if top == 3 {
        thumb_load_store_imm_spec(r, bus, i)
    } else if top == 4 {
        if (i >> 12) & 1 == 0 {
            thumb_load_store_half_spec(r, bus, i)
        } else {
            thumb_sp_load_store_spec(r, bus, i)
        }
    } else if top == 5 {
        if (i >> 12) & 1 == 0 {
            regs_only(thumb_load_address_spec(r, i), bus)
        } else if (i >> 8) & 0xFF == 0xB0 {
            regs_only(thumb_sp_offset_spec(r, i), bus)
        } else {
            thumb_push_pop_spec(r, bus, i)
        }
    } else if top == 6 {
        if (i >> 12) & 1 == 0 {
            thumb_multi_load_store_spec(r, bus, i)
        } else if (i >> 8) & 0xF == 0xF {
            ExecResult {
                regs: exception_entry(r, CpuMode::Supervisor, r.gpr[15].wrapping_sub(2), 8),
                bus,
                cycles: 3,
            }
        } else if (i >> 8) & 0xF == 0xE {
            // Undefined
            ExecResult { regs: r, bus, cycles: 1 }
        } else {
            regs_only(thumb_cond_branch_spec(r, i), bus)
        }
    } else if top == 7 {
        if (i >> 11) & 3 == 0 {
            regs_only(thumb_branch_spec(r, i), bus)
        } else {
            regs_only(thumb_long_branch_spec(r, i), bus)
        }
    } else {
        ExecResult { regs: r, bus, cycles: 1 }
    }
}

// =============================================================================
// THUMB instruction execution
// =============================================================================

fn reg3_of(x: u32, n: u32) -> (r: usize)
    requires
        n < 32,
    ensures
        r == reg3(x, n),
        r < 8,
{
    let v: u32 = (x >> n) & 7;
    proof {
        lemma_and_bound();
    }
    v as usize
}

fn bit_set(x: u32, n: u32) -> (r: bool)
    requires
        n < 32,
    ensures
        r == bit(x, n),
{
    (x >> n) & 1 == 1
}

proof fn lemma_byte_fields(i: u32)
    ensures
        i & 0xFF <= 0xFF,
        i & 0x7F <= 0x7F,
        i & 0x7FF <= 0x7FF,
        (i >> 6) & 0x1F <= 0x1F,
        (i >> 8) & 0xF <= 0xF,
        (i >> 11) & 3 <= 3,
        (i >> 6) & 0xF <= 0xF,
        (i >> 8) & 3 <= 3,
        (i >> 10) & 3 <= 3,
{
    lemma_and_bound();
}

impl Arm7Tdmi {
    /// Execute a 16-bit THUMB instruction, returns cycles consumed
    pub fn execute_thumb_instruction<B: BusAccess>(&mut self, instruction: u32, bus: &mut B) -> (c: u32)
        requires
            old(bus)@.wf(),
        ensures
            (ExecResult { regs: final(self).regs@, bus: final(bus)@, cycles: c }) == exec_thumb_spec(
                old(self).regs@,
                old(bus)@,
                instruction,
            ),
            final(bus)@.wf(),
            1 <= c <= 64,
            only_regs_changed(*final(self), *old(self)),
    {
        proof {
            lemma_byte_fields(instruction);
        }
        let top = instruction >> 13;
        if top == 0 {
            if (instruction >> 11) & 3 == 3 {
                // Format 2: Add/subtract
                self.thumb_add_sub(instruction)
            } else {
                // Format 1: Move shifted register
                self.thumb_shift(instruction)
            }
        } else if top == 1 {
            // Format 3: Move/compare/add/subtract immediate
            self.thumb_imm_op(instruction)
        } else if top == 2 {
            if (instruction >> 10) & 7 == 0 {
                // Format 4: ALU operations
                self.thumb_alu(instruction)
            } else if (instruction >> 10) & 7 == 1 {
                // Format 5: Hi register operations / BX
                self.thumb_hi_reg_bx(instruction)
            } else if (instruction >> 11) & 0x1F == 0b01001 {
                // Format 6: PC-relative load
                self.thumb_pc_load(instruction, bus)
            } else {
                // Format 7/8: Load/store with register offset
                self.thumb_load_store_reg(instruction, bus)
            }
        } else if top == 3 {
            // Format 9: Load/store with immediate offset
            self.thumb_load_store_imm(instruction, bus)
        } else if top == 4 {
            if (instruction >> 12) & 1 == 0 {
                // Format 10: Load/store halfword
                self.thumb_load_store_half(instruction, bus)
            } else {
                // Format 11: SP-relative load/store
                self.thumb_sp_load_store(instruction, bus)
            }
        } else if top == 5 {
            if (instruction >> 12) & 1 == 0 {
                // Format 12: Load address (PC/SP + offset)
                self.thumb_load_address(instruction)
            } else if (instruction >> 8) & 0xFF == 0xB0 {
                // Format 13: Add offset to SP
                self.thumb_sp_offset(instruction)
            } else {
                // Format 14: Push/pop registers
                self.thumb_push_pop(instruction, bus)
            }
        } else if top == 6 {
            if (instruction >> 12) & 1 == 0 {
                // Format 15: Multiple load/store
                self.thumb_multi_load_store(instruction, bus)
            } else if (instruction >> 8) & 0xF == 0xF {
                // Format 17: Software interrupt
                self.thumb_swi(instruction)
            } else if (instruction >> 8) & 0xF == 0xE {
                // Undefined
                1
            } else {
                // Format 16: Conditional branch
                self.thumb_cond_branch(instruction)
            }
        } else if top == 7 {
            if (instruction >> 11) & 3 == 0 {
                // Format 18: Unconditional branch
                self.thumb_branch(instruction)
            } else {
                // Format 19: Long branch with link
                self.thumb_long_branch(instruction)
            }
        } else {
            1
        }
    }

    /// Set N and Z from a result
    fn set_nz(&mut self, result: u32)
        ensures
            final(self).regs@ == old(self).regs@.with_cpsr(with_nz(old(self).regs@.cpsr, result)),
            only_regs_changed(*final(self), *old(self)),
    {
        self.regs.cpsr.set(Psr::N, (result >> 31) != 0);
        self.regs.cpsr.set(Psr::Z, result == 0);
    }

    /// Set N, Z, C and V from an arithmetic result
    fn set_nzcv(&mut self, f: (u32, bool, bool))
        ensures
            final(self).regs@ == old(self).regs@.with_cpsr(with_nzcv(old(self).regs@.cpsr, f)),
            only_regs_changed(*final(self), *old(self)),
    {
        self.set_nz(f.0);
        self.regs.cpsr.set(Psr::C, f.1);
        self.regs.cpsr.set(Psr::V, f.2);
    }

    // Format 1: Move shifted register (LSL/LSR/ASR Rd, Rs, #Offset)
    fn thumb_shift(&mut self, instruction: u32) -> (c: u32)
        requires
            (instruction >> 11) & 3 != 3,
        ensures
            1 <= c,
            final(self).regs@ == thumb_shift_spec(old(self).regs@, instruction).0,
            c == thumb_shift_spec(old(self).regs@, instruction).1,
            only_regs_changed(*final(self), *old(self)),
    {
        let op = (instruction >> 11) & 3;
        let offset: u32 = (instruction >> 6) & 0x1F;
        proof {
            lemma_and_bound();
        }
        let rs = reg3_of(instruction, 3);
        let rd = reg3_of(instruction, 0);
        let value = self.regs.gpr[rs];
        let carry = self.regs.cpsr.contains(Psr::C);
        let shift_type = if op == 0 {
            ShiftType::Lsl
        } else if op == 1 {
            ShiftType::Lsr
        } else {
            ShiftType::Asr
        };
        let (result, new_carry) = barrel_shift(value, shift_type, offset as u8, carry);
        self.regs.gpr[rd] = result;
        self.set_nz(result);
        self.regs.cpsr.set(Psr::C, new_carry);
        1
    }

    // Format 2: Add/Subtract
    fn thumb_add_sub(&mut self, instruction: u32) -> (c: u32)
        ensures
            1 <= c,
            final(self).regs@ == thumb_add_sub_spec(old(self).regs@, instruction).0,
            c == thumb_add_sub_spec(old(self).regs@, instruction).1,
            only_regs_changed(*final(self), *old(self)),
    {
        let is_imm = bit_set(instruction, 10);
        let is_sub = bit_set(instruction, 9);
        let rn_or_imm = reg3_of(instruction, 6);
        let rs = reg3_of(instruction, 3);
        let rd = reg3_of(instruction, 0);
        let op1 = self.regs.gpr[rs];
        let op2 = if is_imm {
            rn_or_imm as u32
        } else {
            self.regs.gpr[rn_or_imm]
        };
        let f = if is_sub {
            adc(op1, !op2, true)
        } else {
            adc(op1, op2, false)
        };
        self.regs.gpr[rd] = f.0;
        self.set_nzcv(f);
        1
    }

    // Format 3: Move/Compare/Add/Subtract immediate
    fn thumb_imm_op(&mut self, instruction: u32) -> (c: u32)
        ensures
            1 <= c,
            final(self).regs@ == thumb_imm_op_spec(old(self).regs@, instruction).0,
            c == thumb_imm_op_spec(old(self).regs@, instruction).1,
            only_regs_changed(*final(self), *old(self)),
    {
        let op = (instruction >> 11) & 3;
        let rd = reg3_of(instruction, 8);
        let imm = instruction & 0xFF;
        if op == 0 {
            // MOV
            self.regs.gpr[rd] = imm;
            self.regs.cpsr.set(Psr::N, false);
            self.regs.cpsr.set(Psr::Z, imm == 0);
        } else if op == 1 {
            // CMP
            let f = adc(self.regs.gpr[rd], !imm, true);
            self.set_nzcv(f);
        } else {
            // ADD / SUB
            let f = if op == 2 {
                adc(self.regs.gpr[rd], imm, false)
            } else {
                adc(self.regs.gpr[rd], !imm, true)
            };
            self.regs.gpr[rd] = f.0;
            self.set_nzcv(f);
        }
        1
    }

    // Format 4: ALU operations
    fn thumb_alu(&mut self, instruction: u32) -> (c: u32)
        ensures
            1 <= c,
            final(self).regs@ == thumb_alu_spec(old(self).regs@, instruction).0,
            c == thumb_alu_spec(old(self).regs@, instruction).1,
            only_regs_changed(*final(self), *old(self)),
    {
        let op = (instruction >> 6) & 0xF;
        let rs = reg3_of(instruction, 3);
        let rd = reg3_of(instruction, 0);
        let a = self.regs.gpr[rd];
        let b = self.regs.gpr[rs];
        let carry = self.regs.cpsr.contains(Psr::C);
        if op == 0x8 {
            // TST
            self.set_nz(a & b);
            return 1;
        } else if op == 0xA {
            // CMP
            self.set_nzcv(adc(a, !b, true));
            return 1;
        } else if op == 0xB {
            // CMN
            self.set_nzcv(adc(a, b, false));
            return 1;
        }
        let mut cycles: u32 = 1;
        let (result, new_carry, new_overflow) = if op == 0x0 {
            (a & b, carry, false)  // AND
        } else if op == 0x1 {
            (a ^ b, carry, false)  // EOR
        } else if op == 0x2 || op == 0x3 || op == 0x4 || op == 0x7 {
            // LSL / LSR / ASR / ROR by register
            let shift_type = if op == 0x2 {
                ShiftType::Lsl
            } else if op == 0x3 {
                ShiftType::Lsr
            } else if op == 0x4 {
                ShiftType::Asr
            } else {
                ShiftType::Ror
            };
            let (r, k) = register_shift(a, shift_type, b, carry);
            cycles = 2;
            (r, k, false)
        } else if op == 0x5 {
            adc(a, b, carry)  // ADC
        } else if op == 0x6 {
            adc(a, !b, carry)  // SBC
        } else if op == 0x9 {
            adc(0, !b, true)  // NEG
        } else if op == 0xC {
            (a | b, carry, false)  // ORR
        } else if op == 0xD {
            // MUL
            let result = a.wrapping_mul(b);
            cycles = 1 + multiply_cycles(a);
            (result, carry, false)
        } else if op == 0xE {
            (a & !b, carry, false)  // BIC
        } else {
            (!b, carry, false)  // MVN
        };
        self.regs.gpr[rd] = result;
        self.set_nz(result);
        if op == 0x5 || op == 0x6 || op == 0x9 {
            // Arithmetic: update C and V
            self.regs.cpsr.set(Psr::C, new_carry);
            self.regs.cpsr.set(Psr::V, new_overflow);
        } else if op != 0xD {
            // Logical shift/bitwise: update C only
            self.regs.cpsr.set(Psr::C, new_carry);
        }
        cycles
    }

    // Format 5: Hi register operations / BX
    fn thumb_hi_reg_bx(&mut self, instruction: u32) -> (c: u32)
        ensures
            1 <= c,
            final(self).regs@ == thumb_hi_reg_bx_spec(old(self).regs@, instruction).0,
            c == thumb_hi_reg_bx_spec(old(self).regs@, instruction).1,
            only_regs_changed(*final(self), *old(self)),
    {
        let op = (instruction >> 8) & 3;
        let h1: usize = if bit_set(instruction, 7) {
            8
        } else {
            0
        };
        let h2: usize = if bit_set(instruction, 6) {
            8
        } else {
            0
        };
        let rs = reg3_of(instruction, 3) + h2;
        let rd = reg3_of(instruction, 0) + h1;
        if op == 0 {
            // ADD
            self.regs.gpr[rd] = self.regs.gpr[rd].wrapping_add(self.reg_hi(rs));
            if rd == 15 {
                self.regs.set_pc(self.regs.pc() & !1);
                return 3;
            }
        } else if op == 1 {
            // CMP
            let a = self.regs.gpr[rd];
            let b = self.reg_hi(rs);
            self.set_nzcv(adc(a, !b, true));
        } else if op == 2 {
            // MOV
            self.regs.gpr[rd] = self.reg_hi(rs);
            if rd == 15 {
                self.regs.set_pc(self.regs.pc() & !1);
                return 3;
            }
        } else {
            // BX
            let addr = self.reg_hi(rs);
            if addr & 1 != 0 {
                self.regs.cpsr.insert(Psr::T);
                self.regs.set_pc(addr & !1);
            } else {
                self.regs.cpsr.remove(Psr::T);
                self.regs.set_pc(addr & !3);
            }
            return 3;
        }
        1
    }

    fn reg_hi(&self, reg: usize) -> (v: u32)
        requires
            reg < 16,
        ensures
            v == reg_hi_spec(self.regs@, reg as int),
    {
        if reg == 15 {
            self.regs.pc().wrapping_add(2)
        } else {
            self.regs.gpr[reg]
        }
    }

    // Format 6: PC-relative load
    fn thumb_pc_load<B: BusAccess>(&mut self, instruction: u32, bus: &B) -> (c: u32)
        requires
            bus@.wf(),
        ensures
            1 <= c,
            final(self).regs@ == thumb_pc_load_spec(old(self).regs@, bus@, instruction).0,
            c == thumb_pc_load_spec(old(self).regs@, bus@, instruction).1,
            only_regs_changed(*final(self), *old(self)),
    {
        proof {
            lemma_byte_fields(instruction);
        }
        let rd = reg3_of(instruction, 8);
        let offset = (instruction & 0xFF) * 4;
        let addr = (self.regs.pc().wrapping_add(2) & !3).wrapping_add(offset);
        self.regs.gpr[rd] = bus.read_word(addr);
        3
    }

    // Format 7/8: Load/store with register offset
    fn thumb_load_store_reg<B: BusAccess>(&mut self, instruction: u32, bus: &mut B) -> (c: u32)
        requires
            old(bus)@.wf(),
        ensures
            1 <= c,
            (ExecResult { regs: final(self).regs@, bus: final(bus)@, cycles: c })
                == thumb_load_store_reg_spec(old(self).regs@, old(bus)@, instruction),
            final(bus)@.wf(),
            only_regs_changed(*final(self), *old(self)),
    {
        let is_format8 = bit_set(instruction, 9);
        let ro = reg3_of(instruction, 6);
        let rb = reg3_of(instruction, 3);
        let rd = reg3_of(instruction, 0);
        let addr = self.regs.gpr[rb].wrapping_add(self.regs.gpr[ro]);
        proof {
            lemma_word_bits();
        }
        if is_format8 {
            // Format 8: signed/halfword
            let op = (instruction >> 10) & 3;
            if op == 0 {
                // STRH
                bus.write_halfword(addr & !1, self.regs.gpr[rd] as u16);
                proof {
                    lemma_write_wide_wf(old(bus)@, addr & !1u32, self.regs.gpr[rd as int] as u16 as u32);
                }
                return 2;
            } else if op == 1 {
                // LDSB
                self.regs.gpr[rd] = sign_extend_byte(bus.read_byte(addr));
            } else if op == 2 {
                // LDRH
                let val = bus.read_halfword(addr & !1);
                self.regs.gpr[rd] = if addr & 1 != 0 {
                    ror(val as u32, 8)
                } else {
                    val as u32
                };
            } else {
                // LDSH
                if addr & 1 != 0 {
                    self.regs.gpr[rd] = sign_extend_byte(bus.read_byte(addr));
                } else {
                    self.regs.gpr[rd] = sign_extend_half(bus.read_halfword(addr));
                }
            }
            3
        } else {
            // Format 7: byte/word
            let load = bit_set(instruction, 11);
            let byte = bit_set(instruction, 10);
            if load {
                if byte {
                    self.regs.gpr[rd] = bus.read_byte(addr) as u32;
                } else {
                    self.regs.gpr[rd] = load_rotated(addr, bus);
                }
                3
            } else {
                if byte {
                    bus.write_byte(addr, self.regs.gpr[rd] as u8);
                    proof {
                        lemma_write_byte_wf(old(bus)@, addr, self.regs.gpr[rd as int] as u8);
                    }
                } else {
                    bus.write_word(addr & !3, self.regs.gpr[rd]);
                    proof {
                        lemma_write_wide_wf(old(bus)@, addr & !3u32, self.regs.gpr[rd as int]);
                    }
                }
                2
            }
        }
    }

    // Format 9: Load/store with immediate offset
    fn thumb_load_store_imm<B: BusAccess>(&mut self, instruction: u32, bus: &mut B) -> (c: u32)
        requires
            old(bus)@.wf(),
        ensures
            1 <= c,
            (ExecResult { regs: final(self).regs@, bus: final(bus)@, cycles: c })
                == thumb_load_store_imm_spec(old(self).regs@, old(bus)@, instruction),
            final(bus)@.wf(),
            only_regs_changed(*final(self), *old(self)),
    {
        proof {
            lemma_byte_fields(instruction);
        }
        let byte = bit_set(instruction, 12);
        let load = bit_set(instruction, 11);
        let offset = (instruction >> 6) & 0x1F;
        let rb = reg3_of(instruction, 3);
        let rd = reg3_of(instruction, 0);
        let offset = if byte {
            offset
        } else {
            offset * 4
        };
        let addr = self.regs.gpr[rb].wrapping_add(offset);
        if load {
            if byte {
                self.regs.gpr[rd] = bus.read_byte(addr) as u32;
            } else {
                self.regs.gpr[rd] = load_rotated(addr, bus);
            }
            3
        } else {
            if byte {
                bus.write_byte(addr, self.regs.gpr[rd] as u8);
                proof {
                    lemma_write_byte_wf(old(bus)@, addr, self.regs.gpr[rd as int] as u8);
                }
            } else {
                bus.write_word(addr & !3, self.regs.gpr[rd]);
                proof {
                    lemma_write_wide_wf(old(bus)@, addr & !3u32, self.regs.gpr[rd as int]);
                }
            }
            2
        }
    }

    // Format 10: Load/store halfword
    fn thumb_load_store_half<B: BusAccess>(&mut self, instruction: u32, bus: &mut B) -> (c: u32)
        requires
            old(bus)@.wf(),
        ensures
            1 <= c,
            (ExecResult { regs: final(self).regs@, bus: final(bus)@, cycles: c })
                == thumb_load_store_half_spec(old(self).regs@, old(bus)@, instruction),
            final(bus)@.wf(),
            only_regs_changed(*final(self), *old(self)),
    {
        proof {
            lemma_byte_fields(instruction);
        }
        let load = bit_set(instruction, 11);
        let offset = ((instruction >> 6) & 0x1F) * 2;
        let rb = reg3_of(instruction, 3);
        let rd = reg3_of(instruction, 0);
        let addr = self.regs.gpr[rb].wrapping_add(offset);
        if load {
            self.regs.gpr[rd] = bus.read_halfword(addr & !1) as u32;
            3
        } else {
            bus.write_halfword(addr & !1, self.regs.gpr[rd] as u16);
            proof {
                lemma_write_wide_wf(old(bus)@, addr & !1u32, self.regs.gpr[rd as int] as u16 as u32);
            }
            2
        }
    }

    // Format 11: SP-relative load/store
    fn thumb_sp_load_store<B: BusAccess>(&mut self, instruction: u32, bus: &mut B) -> (c: u32)
        requires
            old(bus)@.wf(),
        ensures
            1 <= c,
            (ExecResult { regs: final(self).regs@, bus: final(bus)@, cycles: c })
                == thumb_sp_load_store_spec(old(self).regs@, old(bus)@, instruction),
            final(bus)@.wf(),
            only_regs_changed(*final(self), *old(self)),
    {
        proof {
            lemma_byte_fields(instruction);
        }
        let load = bit_set(instruction, 11);
        let rd = reg3_of(instruction, 8);
        let offset = (instruction & 0xFF) * 4;
        let addr = self.regs.gpr[RegisterFile::SP].wrapping_add(offset);
        if load {
            self.regs.gpr[rd] = bus.read_word(addr & !3);
            3
        } else {
            bus.write_word(addr & !3, self.regs.gpr[rd]);
            proof {
                lemma_write_wide_wf(old(bus)@, addr & !3u32, self.regs.gpr[rd as int]);
            }
            2
        }
    }

    // Format 12: Load address (ADD Rd, PC/SP, #imm)
    fn thumb_load_address(&mut self, instruction: u32) -> (c: u32)
        ensures
            1 <= c,
            final(self).regs@ == thumb_load_address_spec(old(self).regs@, instruction).0,
            c == thumb_load_address_spec(old(self).regs@, instruction).1,
            only_regs_changed(*final(self), *old(self)),
    {
        proof {
            lemma_byte_fields(instruction);
        }
        let sp = bit_set(instruction, 11);
        let rd = reg3_of(instruction, 8);
        let offset = (instruction & 0xFF) * 4;
        self.regs.gpr[rd] = if sp {
            self.regs.gpr[RegisterFile::SP].wrapping_add(offset)
        } else {
            (self.regs.pc().wrapping_add(2) & !3).wrapping_add(offset)
        };
        1
    }

    // Format 13: Add offset to SP
    fn thumb_sp_offset(&mut self, instruction: u32) -> (c: u32)
        ensures
            1 <= c,
            final(self).regs@ == thumb_sp_offset_spec(old(self).regs@, instruction).0,
            c == thumb_sp_offset_spec(old(self).regs@, instruction).1,
            only_regs_changed(*final(self), *old(self)),
    {
        proof {
            lemma_byte_fields(instruction);
        }
        let negative = bit_set(instruction, 7);
        let offset = (instruction & 0x7F) * 4;
        if negative {
            self.regs.gpr[RegisterFile::SP] = self.regs.gpr[RegisterFile::SP].wrapping_sub(offset);
        } else {
            self.regs.gpr[RegisterFile::SP] = self.regs.gpr[RegisterFile::SP].wrapping_add(offset);
        }
        1
    }

    /// Load or store register `i` of a THUMB register list if the list holds it
    fn multi_transfer_register<B: BusAccess>(
        &mut self,
        bus: &mut B,
        i: u32,
        list: u32,
        load: bool,
        addr: u32,
        cycles: u32,
    ) -> (r: (u32, u32))
        requires
            i < 8,
            old(bus)@.wf(),
            cycles <= 8,
        ensures
            (crate::exec_arm::BlockState {
                regs: final(self).regs@,
                bus: final(bus)@,
                addr: r.0,
                cycles: r.1,
            }) == multi_step(
                crate::exec_arm::BlockState {
                    regs: old(self).regs@,
                    bus: old(bus)@,
                    addr,
                    cycles,
                },
                i as int,
                list,
                load,
            ),
            final(bus)@.wf(),
            r.1 <= cycles + 1,
            only_regs_changed(*final(self), *old(self)),
    {
        if (list >> i) & 1 == 1 {
            if load {
                self.regs.gpr[i as usize] = bus.read_word(addr & !3);
            } else {
                bus.write_word(addr & !3, self.regs.gpr[i as usize]);
                proof {
                    lemma_write_wide_wf(old(bus)@, addr & !3u32, self.regs.gpr[i as int]);
                }
            }
            (addr.wrapping_add(4), cycles + 1)
        } else {
            (addr, cycles)
        }
    }

    /// Registers 0..8 of a THUMB register list, starting at `addr`
    fn multi_transfer<B: BusAccess>(&mut self, bus: &mut B, list: u32, load: bool, addr: u32) -> (r: (u32, u32))
        requires
            old(bus)@.wf(),
        ensures
            (crate::exec_arm::BlockState {
                regs: final(self).regs@,
                bus: final(bus)@,
                addr: r.0,
                cycles: r.1,
            }) == multi_upto(
                crate::exec_arm::BlockState {
                    regs: old(self).regs@,
                    bus: old(bus)@,
                    addr,
                    cycles: 0,
                },
                8,
                list,
                load,
            ),
            final(bus)@.wf(),
            r.1 <= 8,
            only_regs_changed(*final(self), *old(self)),
    {
        let ghost st0 = crate::exec_arm::BlockState {
            regs: self.regs@,
            bus: bus@,
            addr,
            cycles: 0,
        };
        let mut addr = addr;
        let mut cycles: u32 = 0;
        let mut i: u32 = 0;
        while i < 8
            invariant
                i <= 8,
                (crate::exec_arm::BlockState { regs: self.regs@, bus: bus@, addr, cycles })
                    == multi_upto(st0, i as int, list, load),
                bus@.wf(),
                cycles <= i,
                only_regs_changed(*self, *old(self)),
            decreases 8 - i,
        {
            let (a, c) = self.multi_transfer_register(bus, i, list, load, addr, cycles);
            addr = a;
            cycles = c;
            i = i + 1;
        }
        (addr, cycles)
    }

    // Format 14: Push/Pop registers
    fn thumb_push_pop<B: BusAccess>(&mut self, instruction: u32, bus: &mut B) -> (c: u32)
        requires
            old(bus)@.wf(),
        ensures
            1 <= c,
            (ExecResult { regs: final(self).regs@, bus: final(bus)@, cycles: c })
                == thumb_push_pop_spec(old(self).regs@, old(bus)@, instruction),
            final(bus)@.wf(),
            c <= 12,
            only_regs_changed(*final(self), *old(self)),
    {
        if bit_set(instruction, 11) {
            self.thumb_pop(instruction, bus)
        } else {
            self.thumb_push(instruction, bus)
        }
    }

    /// POP {Rlist} (with PC when bit 8 is set)
    fn thumb_pop<B: BusAccess>(&mut self, instruction: u32, bus: &mut B) -> (c: u32)
        requires
            old(bus)@.wf(),
            bit(instruction, 11),
        ensures
            1 <= c,
            (ExecResult { regs: final(self).regs@, bus: final(bus)@, cycles: c })
                == thumb_push_pop_spec(old(self).regs@, old(bus)@, instruction),
            final(bus)@.wf(),
            c <= 12,
            only_regs_changed(*final(self), *old(self)),
    {
        let pc_lr = bit_set(instruction, 8);
        let reg_list = instruction & 0xFF;
        let (addr, cycles) = self.multi_transfer(bus, reg_list, true, self.regs.gpr[RegisterFile::SP]);
        proof {
            lemma_multi_load_keeps_bus(
                crate::exec_arm::BlockState {
                    regs: old(self).regs@,
                    bus: old(bus)@,
                    addr: old(self).regs@.gpr[13],
                    cycles: 0,
                },
                8,
                reg_list,
            );
        }
        if pc_lr {
            let val = bus.read_word(addr & !3);
            self.regs.set_pc(val & !1);
            self.regs.gpr[RegisterFile::SP] = addr.wrapping_add(4);
            cycles + 3  // branch penalty
        } else {
            self.regs.gpr[RegisterFile::SP] = addr;
            cycles + 1
        }
    }

    /// PUSH {Rlist} (with LR when bit 8 is set)
    fn thumb_push<B: BusAccess>(&mut self, instruction: u32, bus: &mut B) -> (c: u32)
        requires
            old(bus)@.wf(),
            !bit(instruction, 11),
        ensures
            1 <= c,
            (ExecResult { regs: final(self).regs@, bus: final(bus)@, cycles: c })
                == thumb_push_pop_spec(old(self).regs@, old(bus)@, instruction),
            final(bus)@.wf(),
            c <= 12,
            only_regs_changed(*final(self), *old(self)),
    {
        let pc_lr = bit_set(instruction, 8);
        let reg_list = instruction & 0xFF;
        let count = count_bits8(reg_list) + if pc_lr {
            1u32
        } else {
            0
        };
        let start = self.regs.gpr[RegisterFile::SP].wrapping_sub(count * 4);
        self.regs.gpr[RegisterFile::SP] = start;
        let (addr, cycles) = self.multi_transfer(bus, reg_list, false, start);
        if pc_lr {
            let ghost mid = bus@;
            bus.write_word(addr & !3, self.regs.gpr[RegisterFile::LR]);
            proof {
                lemma_write_wide_wf(mid, addr & !3u32, self.regs.gpr[14]);
            }
            cycles + 2
        } else {
            cycles + 1
        }
    }

    // Format 15: Multiple load/store (LDMIA/STMIA)
    fn thumb_multi_load_store<B: BusAccess>(&mut self, instruction: u32, bus: &mut B) -> (c: u32)
        requires
            old(bus)@.wf(),
        ensures
            1 <= c,
            (ExecResult { regs: final(self).regs@, bus: final(bus)@, cycles: c })
                == thumb_multi_load_store_spec(old(self).regs@, old(bus)@, instruction),
            final(bus)@.wf(),
            c <= 12,
            only_regs_changed(*final(self), *old(self)),
    {
        let load = bit_set(instruction, 11);
        let rb = reg3_of(instruction, 8);
        let reg_list = instruction & 0xFF;
        let addr = self.regs.gpr[rb];
        if reg_list == 0 {
            // Empty list: special behavior
            if load {
                let val = bus.read_word(addr & !3);
                self.regs.set_pc(val & !1);
            } else {
                bus.write_word(addr & !3, self.regs.pc().wrapping_add(2));
                proof {
                    lemma_write_wide_wf(old(bus)@, addr & !3u32, old(self).regs@.gpr[15].wrapping_add(2));
                }
            }
            self.regs.gpr[rb] = addr.wrapping_add(0x40);
            return 3;
        }
        let base_in_list = (reg_list >> (rb as u32)) & 1 == 1;
        let (end, cycles) = self.multi_transfer(bus, reg_list, load, addr);
        // Write-back (not if Rb is in the list and it's a load)
        if !load || !base_in_list {
            self.regs.gpr[rb] = end;
        }
        cycles + 1
    }

    // Format 16: Conditional branch
    fn thumb_cond_branch(&mut self, instruction: u32) -> (c: u32)
        ensures
            1 <= c,
            final(self).regs@ == thumb_cond_branch_spec(old(self).regs@, instruction).0,
            c == thumb_cond_branch_spec(old(self).regs@, instruction).1,
            only_regs_changed(*final(self), *old(self)),
    {
        proof {
            lemma_byte_fields(instruction);
        }
        let cond = (instruction >> 8) & 0xF;
        if !self.check_condition(cond) {
            return 1;
        }
        let raw = instruction & 0xFF;
        let offset: i32 = if raw >= 0x80 {
            raw as i32 - 0x100
        } else {
            raw as i32
        };
        let pc = self.regs.pc().wrapping_add(2);
        self.regs.set_pc(add_offset(pc, offset * 2));
        3
    }

    // Format 17: Software interrupt
    fn thumb_swi(&mut self, _instruction: u32) -> (c: u32)
        ensures
            1 <= c,
            final(self).regs@ == exception_entry(
                old(self).regs@,
                CpuMode::Supervisor,
                old(self).regs@.gpr[15].wrapping_sub(2),
                8,
            ),
            c == 3,
            only_regs_changed(*final(self), *old(self)),
    {
        let return_addr = self.regs.pc().wrapping_sub(2);
        self.enter_exception(CpuMode::Supervisor, return_addr, 0x0000_0008);
        3
    }

    // Format 18: Unconditional branch
    fn thumb_branch(&mut self, instruction: u32) -> (c: u32)
        ensures
            1 <= c,
            final(self).regs@ == thumb_branch_spec(old(self).regs@, instruction).0,
            c == thumb_branch_spec(old(self).regs@, instruction).1,
            only_regs_changed(*final(self), *old(self)),
    {
        proof {
            lemma_byte_fields(instruction);
        }
        let raw = instruction & 0x7FF;
        let offset: i32 = if raw >= 0x400 {
            raw as i32 - 0x800
        } else {
            raw as i32
        };
        let pc = self.regs.pc().wrapping_add(2);
        self.regs.set_pc(add_offset(pc, offset * 2));
        3
    }

    // Format 19: Long branch with link (BL — two-instruction sequence)
    fn thumb_long_branch(&mut self, instruction: u32) -> (c: u32)
        ensures
            1 <= c,
            final(self).regs@ == thumb_long_branch_spec(old(self).regs@, instruction).0,
            c == thumb_long_branch_spec(old(self).regs@, instruction).1,
            only_regs_changed(*final(self), *old(self)),
    {
        proof {
            lemma_byte_fields(instruction);
        }
        if !bit_set(instruction, 11) {
            // First instruction: LR = PC + (offset << 12)
            let raw = instruction & 0x7FF;
            let offset: i32 = if raw >= 0x400 {
                raw as i32 - 0x800
            } else {
                raw as i32
            };
            self.regs.gpr[RegisterFile::LR] = add_offset(self.regs.pc().wrapping_add(2), offset * 4096);
            1
        } else {
            // Second instruction: PC = LR + (offset << 1), LR = old PC | 1
            let offset = (instruction & 0x7FF) * 2;
            let old_pc = self.regs.pc().wrapping_sub(2);
            let target = self.regs.gpr[RegisterFile::LR].wrapping_add(offset);
            self.regs.gpr[RegisterFile::LR] = old_pc | 1;
            self.regs.set_pc(target & !1);
            3
        }
    }
}

/// `base + offset` modulo 2^32
pub fn add_offset(base: u32, offset: i32) -> (r: u32)
    requires
        offset > i32::MIN,
    ensures
        r == branch_target(base, offset as int),
{
    if offset >= 0 {
        base.wrapping_add(offset as u32)
    } else {
        base.wrapping_sub((0 - offset) as u32)
    }
}

/// A register-specified shift: amount 0 leaves value and carry alone
fn register_shift(a: u32, shift_type: ShiftType, b: u32, carry: bool) -> (r: (u32, bool))
    ensures
        r == reg_shift_spec(a, shift_type, b, carry),
{
    let shift: u32 = b & 0xFF;
    proof {
        lemma_and_bound();
    }
    if shift == 0 {
        (a, carry)
    } else {
        barrel_shift(a, shift_type, shift as u8, carry)
    }
}

/// Word load rotated so that the addressed byte comes first
fn load_rotated<B: BusAccess>(addr: u32, bus: &B) -> (v: u32)
    requires
        bus@.wf(),
    ensures
        v == load_word_rotated(bus@, addr),
{
    proof {
        lemma_and_bound();
    }
    let rotation: u32 = (addr & 3) * 8;
    ror(bus.read_word(addr & !3), rotation)
}

fn sign_extend_byte(b: u8) -> (v: u32)
    ensures
        v == sext8(b),
{
    if b >= 0x80 {
        b as u32 + 0xFFFF_FF00
    } else {
        b as u32
    }
}

fn sign_extend_half(h: u16) -> (v: u32)
    ensures
        v == sext16(h),
{
    if h >= 0x8000 {
        h as u32 + 0xFFFF_0000
    } else {
        h as u32
    }
}

/// Number of set bits of an 8-bit register list
fn count_bits8(x: u32) -> (n: u32)
    ensures
        n == popcount8(x, 8),
        n <= 8,
{
    let mut n: u32 = 0;
    let mut i: u32 = 0;
    while i < 8
        invariant
            i <= 8,
            n == popcount8(x, i as int),
            n <= i,
        decreases 8 - i,
    {
        if (x >> i) & 1 == 1 {
            n = n + 1;
        }
        i = i + 1;
    }
    n
}

} // verus!
