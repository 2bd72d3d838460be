use vstd::prelude::*;

use crate::alu::{adc, add_with_carry, barrel_shift, shift_spec};
use crate::arm::{
    bit, decode_arm, decode_arm_spec, lemma_decode_fields_in_range, ror, ror32, AluOp,
    ArmInstruction, HalfwordOffset, MsrOperand, ShifterOperand, TransferOffset,
};
use crate::bits::{lemma_and_bound, lemma_u64_halves, lemma_word_bits};
use crate::bus::{lemma_write_byte_wf, lemma_write_wide_wf, BusAccess, BusView};
use crate::cpu::{exception_entry, reg_read, Arm7Tdmi, ExecResult};
use crate::types::{
    psr_has, psr_mode, psr_with, set_spsr_spec, spsr_spec, switch_mode_spec, CpuMode, Psr,
    RegisterFile, RegsView,
};

verus! {

// =============================================================================
// Semantics of ARM instructions
// =============================================================================

pub open spec fn is_test(op: AluOp) -> bool {
    op == AluOp::Tst || op == AluOp::Teq || op == AluOp::Cmp || op == AluOp::Cmn
}

pub open spec fn is_logical(op: AluOp) -> bool {
    op == AluOp::And || op == AluOp::Eor || op == AluOp::Tst || op == AluOp::Teq || op
        == AluOp::Orr || op == AluOp::Mov || op == AluOp::Bic || op == AluOp::Mvn
}

impl AluOp {
    /// Compare/test operations do not write a result register
    pub fn is_test(self) -> (r: bool)
        ensures
            r == is_test(self),
    {
        matches!(self, AluOp::Tst) || matches!(self, AluOp::Teq) || matches!(self, AluOp::Cmp)
            || matches!(self, AluOp::Cmn)
    }

    /// Logical operations take their carry from the barrel shifter
    pub fn is_logical(self) -> (r: bool)
        ensures
            r == is_logical(self),
    {
        matches!(self, AluOp::And) || matches!(self, AluOp::Eor) || matches!(self, AluOp::Tst)
            || matches!(self, AluOp::Teq) || matches!(self, AluOp::Orr) || matches!(
            self,
            AluOp::Mov,
        ) || matches!(self, AluOp::Bic) || matches!(self, AluOp::Mvn)
    }
}

/// The ALU: result, carry out and overflow of `op` on `a` and `b`, where `shifter_carry`
/// is the carry out of the barrel shifter and `c` the current carry flag.
pub open spec fn alu_spec(op: AluOp, a: u32, b: u32, shifter_carry: bool, c: bool) -> (
    u32,
    bool,
    bool,
) {
    match op {
        AluOp::And | AluOp::Tst => (a & b, shifter_carry, false),
        AluOp::Eor | AluOp::Teq => (a ^ b, shifter_carry, false),
        AluOp::Sub | AluOp::Cmp => add_with_carry(a, !b, true),
        AluOp::Rsb => add_with_carry(b, !a, true),
        AluOp::Add | AluOp::Cmn => add_with_carry(a, b, false),
        AluOp::Adc => add_with_carry(a, b, c),
        AluOp::Sbc => add_with_carry(a, !b, c),
        AluOp::Rsc => add_with_carry(b, !a, c),
        AluOp::Orr => (a | b, shifter_carry, false),
        AluOp::Mov => (b, shifter_carry, false),
        AluOp::Bic => (a & !b, shifter_carry, false),
        AluOp::Mvn => (!b, shifter_carry, false),
    }
}

/// The CPSR with N and Z set from `result`.
pub open spec fn with_nz(cpsr: u32, result: u32) -> u32 {
    psr_with(psr_with(cpsr, Psr::N, (result >> 31) != 0), Psr::Z, result == 0)
}

/// The value and shifter carry of a data-processing second operand.
pub open spec fn operand2_spec(r: RegsView, op: ShifterOperand) -> (u32, bool) {
    let c = psr_has(r.cpsr, Psr::C);
    match op {
        ShifterOperand::Immediate { imm, rotate } => {
            let v = ror32(imm, (rotate * 2) as u32);
            (
                v,
                if rotate == 0 {
                    c
                } else {
                    bit(v, 31)
                },
            )
        },
        ShifterOperand::RegisterImm { rm, shift_type, amount } => shift_spec(
            reg_read(r, rm as int),
            shift_type,
            amount as u32,
            c,
        ),
        ShifterOperand::RegisterReg { rm, shift_type, rs } => {
            let v = if rm == 15 {
                reg_read(r, 15).wrapping_add(4)
            } else {
                r.gpr[rm as int]
            };
            let amount = r.gpr[rs as int] & 0xFF;
            if amount == 0 {
                (v, c)
            } else {
                shift_spec(v, shift_type, amount, c)
            }
        },
    }
}

/// Whether the register and rotate fields of a second operand are in range.
pub open spec fn operand2_ok(op: ShifterOperand) -> bool {
    match op {
        ShifterOperand::Immediate { rotate, .. } => rotate < 16,
        ShifterOperand::RegisterImm { rm, .. } => rm < 16,
        ShifterOperand::RegisterReg { rm, rs, .. } => rm < 16 && rs < 16,
    }
}

/// The register file with the CPSR loaded from `psr`: the registers are first banked
/// for the mode that `psr` selects (nothing moves when the mode stays), then the CPSR
/// takes the whole value.
pub open spec fn restore_cpsr(r: RegsView, psr: u32) -> RegsView {
    switch_mode_spec(r, psr_mode(psr)).with_cpsr(psr)
}

pub open spec fn exec_data_processing_spec(
    r: RegsView,
    opcode: AluOp,
    set_flags: bool,
    rn: usize,
    rd: usize,
    operand2: ShifterOperand,
) -> (RegsView, u32) {
    let (op2, shifter_carry) = operand2_spec(r, operand2);
    let op1 = reg_read(r, rn as int);
    let (result, new_carry, new_overflow) = alu_spec(
        opcode,
        op1,
        op2,
        shifter_carry,
        psr_has(r.cpsr, Psr::C),
    );
    if !is_test(opcode) && rd == 15 {
        let r1 = if set_flags {
            match spsr_spec(r) {
                Some(s) => restore_cpsr(r, s),
                None => r,
            }
        } else {
            r
        };
        (r1.with_pc(result & !3u32), 3)
    } else {
        let r1 = if !is_test(opcode) {
            r.with_reg(rd as int, result)
        } else {
            r
        };
        let r2 = if set_flags && rd != 15 {
            let c1 = psr_with(with_nz(r1.cpsr, result), Psr::C, new_carry);
            r1.with_cpsr(
                if is_logical(opcode) {
                    c1
                } else {
                    psr_with(c1, Psr::V, new_overflow)
                },
            )
        } else {
            r1
        };
        (
            r2,
            if operand2 is RegisterReg {
                2
            } else {
                1
            },
        )
    }
}

/// What a data-processing instruction with destination below R15 leaves in Rd, with `a`
/// the first operand (Rn) and `b` the second (the shifter operand) and `cin` the old
/// carry flag: AND `a & b`, EOR `a ^ b`, ORR `a | b`, BIC `a & !b`, MOV `b`, MVN `!b`,
/// SUB `a - b`, RSB `b - a`, ADD `a + b`, ADC `a + b + cin`, SBC `a - b - (1 - cin)`,
/// RSC `b - a - (1 - cin)` (arithmetic modulo 2^32); TST, TEQ, CMP and CMN keep Rd. No
/// other register changes.
pub proof fn lemma_data_processing_results(
    r: RegsView,
    opcode: AluOp,
    set_flags: bool,
    rn: usize,
    rd: usize,
    operand2: ShifterOperand,
)
    requires
        r.wf(),
        rn < 16,
        rd < 15,
    ensures
        ({
            let r2 = exec_data_processing_spec(r, opcode, set_flags, rn, rd, operand2).0;
            let a = reg_read(r, rn as int);
            let b = operand2_spec(r, operand2).0;
            let cin: int = if psr_has(r.cpsr, Psr::C) {
                1
            } else {
                0
            };
            let v = r2.gpr[rd as int];
            let md: int = 0x1_0000_0000;
            &&& opcode == AluOp::And ==> v == a & b
            &&& opcode == AluOp::Eor ==> v == a ^ b
            &&& opcode == AluOp::Orr ==> v == a | b
            &&& opcode == AluOp::Bic ==> v == a & !b
            &&& opcode == AluOp::Mov ==> v == b
            &&& opcode == AluOp::Mvn ==> v == !b
            &&& opcode == AluOp::Sub ==> v as int == (a - b) % md
            &&& opcode == AluOp::Rsb ==> v as int == (b - a) % md
            &&& opcode == AluOp::Add ==> v as int == (a + b) % md
            &&& opcode == AluOp::Adc ==> v as int == (a + b + cin) % md
            &&& opcode == AluOp::Sbc ==> v as int == (a - b - (1 - cin)) % md
            &&& opcode == AluOp::Rsc ==> v as int == (b - a - (1 - cin)) % md
            &&& is_test(opcode) ==> v == r.gpr[rd as int]
            &&& forall|j: int| 0 <= j < 16 && j != rd ==> r2.gpr[j] == r.gpr[j]
        }),
{
    let a = reg_read(r, rn as int);
    let (b, sc) = operand2_spec(r, operand2);
    let c = psr_has(r.cpsr, Psr::C);
    lemma_alu_results(opcode, a, b, sc, c);
    lemma_data_processing_writes(r, opcode, set_flags, rn, rd, operand2);
}

/// The value of each ALU operation in plain arithmetic.
proof fn lemma_alu_results(op: AluOp, a: u32, b: u32, sc: bool, c: bool)
    ensures
        ({
            let v = alu_spec(op, a, b, sc, c).0;
            let cin: int = if c {
                1
            } else {
                0
            };
            let md: int = 0x1_0000_0000;
            &&& op == AluOp::And ==> v == a & b
            &&& op == AluOp::Eor ==> v == a ^ b
            &&& op == AluOp::Orr ==> v == a | b
            &&& op == AluOp::Bic ==> v == a & !b
            &&& op == AluOp::Mov ==> v == b
            &&& op == AluOp::Mvn ==> v == !b
            &&& op == AluOp::Sub ==> v as int == (a - b) % md
            &&& op == AluOp::Rsb ==> v as int == (b - a) % md
            &&& op == AluOp::Add ==> v as int == (a + b) % md
            &&& op == AluOp::Adc ==> v as int == (a + b + cin) % md
            &&& op == AluOp::Sbc ==> v as int == (a - b - (1 - cin)) % md
            &&& op == AluOp::Rsc ==> v as int == (b - a - (1 - cin)) % md
        }),
{
    lemma_word_bits();
    assert(!a == 0xFFFF_FFFF - a);
    assert(!b == 0xFFFF_FFFF - b);
}

/// A data-processing instruction with destination below R15 writes the ALU value to Rd,
/// unless it only tests, and no other register.
proof fn lemma_data_processing_writes(
    r: RegsView,
    opcode: AluOp,
    set_flags: bool,
    rn: usize,
    rd: usize,
    operand2: ShifterOperand,
)
    requires
        r.wf(),
        rd < 15,
    ensures
        ({
            let r2 = exec_data_processing_spec(r, opcode, set_flags, rn, rd, operand2).0;
            let (b, sc) = operand2_spec(r, operand2);
            let v = alu_spec(opcode, reg_read(r, rn as int), b, sc, psr_has(r.cpsr, Psr::C)).0;
            &&& r2.gpr[rd as int] == if is_test(opcode) {
                r.gpr[rd as int]
            } else {
                v
            }
            &&& forall|j: int| 0 <= j < 16 && j != rd ==> r2.gpr[j] == r.gpr[j]
        }),
{
}

/// With S set and a destination below R15, N and Z follow the value written to Rd for
/// every instruction that writes one; CMP sets Z exactly when the operands are equal and C
/// exactly when no borrow occurs (`a >= b`); TST sets Z exactly when `a & b` is zero.
pub proof fn lemma_data_processing_flags(
    r: RegsView,
    opcode: AluOp,
    rn: usize,
    rd: usize,
    operand2: ShifterOperand,
)
    requires
        r.wf(),
        rn < 16,
        rd < 15,
    ensures
        ({
            let r2 = exec_data_processing_spec(r, opcode, true, rn, rd, operand2).0;
            let a = reg_read(r, rn as int);
            let b = operand2_spec(r, operand2).0;
            let v = r2.gpr[rd as int];
            &&& !is_test(opcode) ==> psr_has(r2.cpsr, Psr::Z) == (v == 0) && psr_has(
                r2.cpsr,
                Psr::N,
            ) == (v >= 0x8000_0000)
            &&& opcode == AluOp::Cmp ==> psr_has(r2.cpsr, Psr::Z) == (a == b) && psr_has(
                r2.cpsr,
                Psr::C,
            ) == (a >= b)
            &&& opcode == AluOp::Tst ==> psr_has(r2.cpsr, Psr::Z) == (a & b == 0)
        }),
{
    lemma_word_bits();
    let b = operand2_spec(r, operand2).0;
    assert(!b == 0xFFFF_FFFF - b);
    assert forall|x: u32, k: bool| #![trigger psr_with(x, Psr::N, k)]
        psr_has(psr_with(x, Psr::N, k), Psr::N) == k && psr_has(psr_with(x, Psr::N, k), Psr::Z)
            == psr_has(x, Psr::Z) by {
        crate::types::lemma_psr_flags(x, k);
    }
    assert forall|x: u32, k: bool| #![trigger psr_with(x, Psr::Z, k)]
        psr_has(psr_with(x, Psr::Z, k), Psr::Z) == k && psr_has(psr_with(x, Psr::Z, k), Psr::N)
            == psr_has(x, Psr::N) && psr_has(psr_with(x, Psr::Z, k), Psr::C) == psr_has(x, Psr::C) by {
        crate::types::lemma_psr_flags(x, k);
    }
    assert forall|x: u32, k: bool| #![trigger psr_with(x, Psr::C, k)]
        psr_has(psr_with(x, Psr::C, k), Psr::C) == k && psr_has(psr_with(x, Psr::C, k), Psr::Z)
            == psr_has(x, Psr::Z) && psr_has(psr_with(x, Psr::C, k), Psr::N) == psr_has(x, Psr::N) by {
        crate::types::lemma_psr_flags(x, k);
    }
    assert forall|x: u32, k: bool| #![trigger psr_with(x, Psr::V, k)]
        psr_has(psr_with(x, Psr::V, k), Psr::C) == psr_has(x, Psr::C) && psr_has(
            psr_with(x, Psr::V, k),
            Psr::Z,
        ) == psr_has(x, Psr::Z) && psr_has(psr_with(x, Psr::V, k), Psr::N) == psr_has(x, Psr::N) by {
        crate::types::lemma_psr_flags(x, k);
    }
    assert forall|v: u32| #![trigger (v >> 31u32)] ((v >> 31) != 0) == (v >= 0x8000_0000) by {
        crate::types::lemma_psr_flags(v, true);
    }
}

/// Internal cycles of a multiply, by how many top bytes of `rs` are all zeros or all ones.
pub open spec fn multiply_cycles_spec(rs: u32) -> u32 {
    if rs & 0xFFFF_FF00 == 0 || rs & 0xFFFF_FF00 == 0xFFFF_FF00 {
        1
    } else if rs & 0xFFFF_0000 == 0 || rs & 0xFFFF_0000 == 0xFFFF_0000 {
        2
    } else if rs & 0xFF00_0000 == 0 || rs & 0xFF00_0000 == 0xFF00_0000 {
        3
    } else {
        4
    }
}

pub open spec fn exec_multiply_spec(
    r: RegsView,
    accumulate: bool,
    set_flags: bool,
    rd: usize,
    rn: usize,
    rs: usize,
    rm: usize,
) -> (RegsView, u32) {
    let acc: int = if accumulate {
        r.gpr[rn as int] as int
    } else {
        0
    };
    let result = ((r.gpr[rm as int] as int * r.gpr[rs as int] as int + acc) % 0x1_0000_0000) as u32;
    let r1 = r.with_reg(rd as int, result);
    let r2 = if set_flags {
        r1.with_cpsr(with_nz(r1.cpsr, result))
    } else {
        r1
    };
    (
        r2,
        (1 + multiply_cycles_spec(r2.gpr[rs as int]) + if accumulate {
            1int
        } else {
            0
        }) as u32,
    )
}

/// A 32-bit word as an unsigned or, when `signed`, a two's-complement integer.
pub open spec fn operand_value(x: u32, signed: bool) -> int {
    if signed {
        crate::alu::signed32(x)
    } else {
        x as int
    }
}

pub open spec fn exec_multiply_long_spec(
    r: RegsView,
    signed: bool,
    accumulate: bool,
    set_flags: bool,
    rd_hi: usize,
    rd_lo: usize,
    rs: usize,
    rm: usize,
) -> (RegsView, u32) {
    let acc: int = if accumulate {
        r.gpr[rd_hi as int] as int * 0x1_0000_0000 + r.gpr[rd_lo as int] as int
    } else {
        0
    };
    let product = operand_value(r.gpr[rm as int], signed) * operand_value(r.gpr[rs as int], signed);
    let result: int = (product + acc) % 0x1_0000_0000_0000_0000;
    let r1 = r.with_reg(rd_lo as int, (result % 0x1_0000_0000) as u32).with_reg(
        rd_hi as int,
        (result / 0x1_0000_0000) as u32,
    );
    let r2 = if set_flags {
        r1.with_cpsr(
            psr_with(
                psr_with(r1.cpsr, Psr::N, result >= 0x8000_0000_0000_0000),
                Psr::Z,
                result == 0,
            ),
        )
    } else {
        r1
    };
    (
        r2,
        (2 + multiply_cycles_spec(r2.gpr[rs as int]) + if accumulate {
            1int
        } else {
            0
        }) as u32,
    )
}

/// A multiply (MUL/MLA) writes `Rm * Rs`, plus `Rn` when it accumulates, modulo 2^32
/// to Rd and leaves every other register as it was.
pub proof fn lemma_multiply_result(
    r: RegsView,
    accumulate: bool,
    set_flags: bool,
    rd: usize,
    rn: usize,
    rs: usize,
    rm: usize,
)
    requires
        r.wf(),
        rd < 16,
        rn < 16,
        rs < 16,
        rm < 16,
    ensures
        ({
            let r2 = exec_multiply_spec(r, accumulate, set_flags, rd, rn, rs, rm).0;
            let acc: int = if accumulate {
                r.gpr[rn as int] as int
            } else {
                0
            };
            &&& r2.gpr[rd as int] as int == (r.gpr[rm as int] * r.gpr[rs as int] + acc)
                % 0x1_0000_0000
            &&& forall|j: int| 0 <= j < 16 && j != rd ==> r2.gpr[j] == r.gpr[j]
        }),
{
    let acc: int = if accumulate {
        r.gpr[rn as int] as int
    } else {
        0
    };
    let v = r.gpr[rm as int] * r.gpr[rs as int] + acc;
    assert(0 <= v) by (nonlinear_arith)
        requires
            v == r.gpr[rm as int] * r.gpr[rs as int] + acc,
            0 <= acc,
    ;
    assert(0 <= v % 0x1_0000_0000 < 0x1_0000_0000);
}

/// A long multiply (UMULL/UMLAL/SMULL/SMLAL) with distinct RdLo and RdHi writes the
/// 64-bit sum of the product of Rm and Rs (both unsigned, or both two's complement) and,
/// when it accumulates, the old RdHi:RdLo, modulo 2^64: the low word goes to RdLo, the
/// high word to RdHi, and every other register is left as it was.
pub proof fn lemma_multiply_long_halves(
    r: RegsView,
    signed: bool,
    accumulate: bool,
    set_flags: bool,
    rd_hi: usize,
    rd_lo: usize,
    rs: usize,
    rm: usize,
)
    requires
        r.wf(),
        rd_hi < 16,
        rd_lo < 16,
        rs < 16,
        rm < 16,
        rd_lo != rd_hi,
    ensures
        ({
            let r2 = exec_multiply_long_spec(r, signed, accumulate, set_flags, rd_hi, rd_lo, rs, rm).0;
            let m = r.gpr[rm as int];
            let n = r.gpr[rs as int];
            let x: int = if signed && m >= 0x8000_0000 {
                m - 0x1_0000_0000
            } else {
                m as int
            };
            let y: int = if signed && n >= 0x8000_0000 {
                n - 0x1_0000_0000
            } else {
                n as int
            };
            let acc: int = if accumulate {
                r.gpr[rd_hi as int] * 0x1_0000_0000 + r.gpr[rd_lo as int]
            } else {
                0
            };
            &&& r2.gpr[rd_lo as int] + 0x1_0000_0000 * r2.gpr[rd_hi as int] == (x * y + acc)
                % 0x1_0000_0000_0000_0000
            &&& forall|j: int| 0 <= j < 16 && j != rd_lo && j != rd_hi ==> r2.gpr[j] == r.gpr[j]
        }),
{
    let acc: int = if accumulate {
        r.gpr[rd_hi as int] as int * 0x1_0000_0000 + r.gpr[rd_lo as int] as int
    } else {
        0
    };
    let product = operand_value(r.gpr[rm as int], signed) * operand_value(r.gpr[rs as int], signed);
    let result: int = (product + acc) % 0x1_0000_0000_0000_0000;
    assert(0 <= result < 0x1_0000_0000_0000_0000);
    let lo = result % 0x1_0000_0000;
    let hi = result / 0x1_0000_0000;
    assert(result == 0x1_0000_0000 * hi + lo && 0 <= lo < 0x1_0000_0000 && 0 <= hi
        < 0x1_0000_0000) by (nonlinear_arith)
        requires
            0 <= result < 0x1_0000_0000_0000_0000,
            lo == result % 0x1_0000_0000,
            hi == result / 0x1_0000_0000,
    ;
}

/// `base` plus or minus `off`, modulo 2^32.
pub open spec fn offset_addr(base: u32, off: u32, up: bool) -> u32 {
    if up {
        base.wrapping_add(off)
    } else {
        base.wrapping_sub(off)
    }
}

/// A word load from a possibly unaligned address: the aligned word rotated so that the
/// addressed byte comes first.
pub open spec fn load_word_rotated(bus: BusView, addr: u32) -> u32 {
    ror32(bus.read_word(addr & !3u32), ((addr & 3) * 8) as u32)
}

pub open spec fn exec_single_transfer_spec(
    r: RegsView,
    bus: BusView,
    load: bool,
    byte: bool,
    write_back: bool,
    up: bool,
    pre: bool,
    rn: usize,
    rd: usize,
    offset: TransferOffset,
) -> ExecResult {
    let base = reg_read(r, rn as int);
    let off = match offset {
        TransferOffset::Immediate(imm) => imm,
        TransferOffset::Register { rm, shift_type, amount } => shift_spec(
            r.gpr[rm as int],
            shift_type,
            amount as u32,
            psr_has(r.cpsr, Psr::C),
        ).0,
    };
    let oa = offset_addr(base, off, up);
    let addr = if pre {
        oa
    } else {
        base
    };
    let (r1, bus1) = if load {
        let value = if byte {
            bus.read_byte(addr) as u32
        } else {
            load_word_rotated(bus, addr)
        };
        (
            if rd == 15 {
                r.with_pc(value & !3u32)
            } else {
                r.with_reg(rd as int, value)
            },
            bus,
        )
    } else {
        let value = if rd == 15 {
            r.gpr[15].wrapping_add(4)
        } else {
            r.gpr[rd as int]
        };
        (
            r,
            if byte {
                bus.write_byte(addr, value as u8)
            } else {
                bus.write_word(addr & !3u32, value)
            },
        )
    };
    let r2 = if (!pre || write_back) && (rn != rd || !load) {
        r1.with_reg(rn as int, oa)
    } else {
        r1
    };
    ExecResult {
        regs: r2,
        bus: bus1,
        cycles: if load {
            if rd == 15 {
                5
            } else {
                3
            }
        } else {
            2
        },
    }
}

/// A byte sign-extended to 32 bits.
pub open spec fn sext8(b: u8) -> u32 {
    if b >= 0x80 {
        (b as u32 + 0xFFFF_FF00) as u32
    } else {
        b as u32
    }
}

/// A halfword sign-extended to 32 bits.
pub open spec fn sext16(h: u16) -> u32 {
    if h >= 0x8000 {
        (h as u32 + 0xFFFF_0000) as u32
    } else {
        h as u32
    }
}

/// A halfword with its two bytes swapped.
pub open spec fn swap_bytes(h: u16) -> u16 {
    ((h % 256) * 256 + h / 256) as u16
}

pub open spec fn exec_halfword_transfer_spec(
    r: RegsView,
    bus: BusView,
    load: bool,
    write_back: bool,
    up: bool,
    pre: bool,
    signed: bool,
    half: bool,
    rn: usize,
    rd: usize,
    offset: HalfwordOffset,
) -> ExecResult {
    let base = reg_read(r, rn as int);
    let off = match offset {
        HalfwordOffset::Immediate(imm) => imm,
        HalfwordOffset::Register(rm) => r.gpr[rm as int],
    };
    let oa = offset_addr(base, off, up);
    let addr = if pre {
        oa
    } else {
        base
    };
    let (r1, bus1) = if load {
        let value = if signed && !half {
            sext8(bus.read_byte(addr))
        } else if signed && half {
            if addr % 2 == 1 {
                sext8(bus.read_byte(addr))
            } else {
                sext16(bus.read_halfword(addr))
            }
        } else if addr % 2 == 1 {
            swap_bytes(bus.read_halfword(addr & !1u32)) as u32
        } else {
            bus.read_halfword(addr) as u32
        };
        (r.with_reg(rd as int, value), bus)
    } else {
        let value = if rd == 15 {
            r.gpr[15].wrapping_add(4)
        } else {
            r.gpr[rd as int]
        };
        (r, bus.write_halfword(addr & !1u32, value as u16))
    };
    let r2 = if (!pre || write_back) && (rn != rd || !load) {
        r1.with_reg(rn as int, oa)
    } else {
        r1
    };
    ExecResult {
        regs: r2,
        bus: bus1,
        cycles: if load {
            3
        } else {
            2
        },
    }
}

pub open spec fn exec_swap_spec(
    r: RegsView,
    bus: BusView,
    byte: bool,
    rn: usize,
    rd: usize,
    rm: usize,
) -> ExecResult {
    let addr = r.gpr[rn as int];
    if byte {
        ExecResult {
            regs: r.with_reg(rd as int, bus.read_byte(addr) as u32),
            bus: bus.write_byte(addr, r.gpr[rm as int] as u8),
            cycles: 4,
        }
    } else {
        ExecResult {
            regs: r.with_reg(rd as int, load_word_rotated(bus, addr)),
            bus: bus.write_word(addr & !3u32, r.gpr[rm as int]),
            cycles: 4,
        }
    }
}

pub open spec fn exec_mrs_spec(r: RegsView, spsr: bool, rd: usize) -> (RegsView, u32) {
    let value = if spsr {
        match spsr_spec(r) {
            Some(s) => s,
            None => r.cpsr,
        }
    } else {
        r.cpsr
    };
    (r.with_reg(rd as int, value), 1)
}

/// The PSR bits that an MSR field mask selects: control, extension, status, flags.
pub open spec fn msr_mask(field_mask: u8) -> u32 {
    (if field_mask & 1 != 0 {
        0x0000_00FFu32
    } else {
        0
    }) | (if field_mask & 2 != 0 {
        0x0000_FF00u32
    } else {
        0
    }) | (if field_mask & 4 != 0 {
        0x00FF_0000u32
    } else {
        0
    }) | (if field_mask & 8 != 0 {
        0xFF00_0000u32
    } else {
        0
    })
}

pub open spec fn exec_msr_spec(r: RegsView, spsr: bool, field_mask: u8, operand: MsrOperand) -> (
    RegsView,
    u32,
) {
    let value = match operand {
        MsrOperand::Immediate(imm) => imm,
        MsrOperand::Register(rm) => r.gpr[rm as int],
    };
    // User mode can only modify flags
    let mask = if r.mode() == CpuMode::User {
        msr_mask(field_mask) & 0xFF00_0000
    } else {
        msr_mask(field_mask)
    };
    let r1 = if spsr {
        match spsr_spec(r) {
            Some(old) => set_spsr_spec(r, (old & !mask) | (value & mask)),
            None => r,
        }
    } else {
        restore_cpsr(r, (r.cpsr & !mask) | (value & mask))
    };
    (r1, 1)
}

pub open spec fn exec_bx_spec(r: RegsView, rn: usize) -> (RegsView, u32) {
    let addr = r.gpr[rn as int];
    (
        if addr & 1 != 0 {
            r.with_cpsr(r.cpsr | Psr::T).with_pc(addr & !1u32)
        } else {
            r.with_cpsr(r.cpsr & !Psr::T).with_pc(addr & !3u32)
        },
        3,
    )
}

/// `pc + offset` modulo 2^32.
pub open spec fn branch_target(pc: u32, offset: int) -> u32 {
    ((pc as int + offset) % 0x1_0000_0000) as u32
}

pub open spec fn exec_branch_spec(r: RegsView, link: bool, offset: i32) -> (RegsView, u32) {
    let r1 = if link {
        r.with_reg(14, r.gpr[15].wrapping_sub(4))
    } else {
        r
    };
    (r1.with_pc(branch_target(r1.gpr[15], offset as int)), 3)
}


/// State threaded through the register loop of LDM/STM.
#[verifier::ext_equal]
pub struct BlockState {
    pub regs: RegsView,
    pub bus: BusView,
    pub addr: u32,
    pub cycles: u32,
}

/// Whether bit `i` of a register list is set.
pub open spec fn list_has(list: u16, i: int) -> bool {
    (list >> (i as u16)) & 1 == 1
}

/// Number of set bits among the lowest `n` bits of `x`.
pub open spec fn popcount16(x: u16, n: int) -> nat
    decreases n,
{
    if n <= 0 {
        0
    } else {
        popcount16(x, n - 1) + if list_has(x, n - 1) {
            1nat
        } else {
            0
        }
    }
}

/// One register of an LDM/STM: transfer register `i` if the list holds it.
pub open spec fn block_step(
    st: BlockState,
    i: int,
    list: u16,
    load: bool,
    s_bit: bool,
    user_mode: bool,
    old_mode: CpuMode,
) -> BlockState {
    if !list_has(list, i) {
        st
    } else if load {
        let val = st.bus.read_word(st.addr & !3u32);
        if i == 15 {
            let r1 = st.regs.with_pc(val & !3u32);
            let r2 = if s_bit {
                let ra = if user_mode {
                    switch_mode_spec(r1, old_mode)
                } else {
                    r1
                };
                match spsr_spec(ra) {
                    Some(s) => restore_cpsr(ra, s),
                    None => ra,
                }
            } else {
                r1
            };
            BlockState {
                regs: r2,
                bus: st.bus,
                addr: st.addr.wrapping_add(4),
                cycles: (st.cycles + 3) as u32,
            }
        } else {
            BlockState {
                regs: st.regs.with_reg(i, val),
                bus: st.bus,
                addr: st.addr.wrapping_add(4),
                cycles: (st.cycles + 1) as u32,
            }
        }
    } else {
        let val = if i == 15 {
            st.regs.gpr[15].wrapping_add(4)
        } else {
            st.regs.gpr[i]
        };
        BlockState {
            regs: st.regs,
            bus: st.bus.write_word(st.addr & !3u32, val),
            addr: st.addr.wrapping_add(4),
            cycles: (st.cycles + 1) as u32,
        }
    }
}

/// The LDM/STM state after registers 0..n.
pub open spec fn block_upto(
    st: BlockState,
    n: int,
    list: u16,
    load: bool,
    s_bit: bool,
    user_mode: bool,
    old_mode: CpuMode,
) -> BlockState
    decreases n,
{
    if n <= 0 {
        st
    } else {
        block_step(
            block_upto(st, n - 1, list, load, s_bit, user_mode, old_mode),
            n - 1,
            list,
            load,
            s_bit,
            user_mode,
            old_mode,
        )
    }
}

pub open spec fn exec_block_transfer_spec(
    r: RegsView,
    bus: BusView,
    load: bool,
    write_back: bool,
    up: bool,
    pre: bool,
    s_bit: bool,
    rn: usize,
    list: u16,
) -> ExecResult {
    let base = r.gpr[rn as int];
    let count = popcount16(list, 16);
    if count == 0 {
        // Empty register list: transfers the PC, base moves by 0x40
        let (r1, bus1) = if load {
            (r.with_pc(bus.read_word(base) & !3u32), bus)
        } else {
            (r, bus.write_word(base, r.gpr[15].wrapping_add(4)))
        };
        let r2 = if write_back {
            r1.with_reg(rn as int, offset_addr(base, 0x40, up))
        } else {
            r1
        };
        ExecResult {
            regs: r2,
            bus: bus1,
            cycles: if load {
                5
            } else {
                2
            },
        }
    } else {
        let total = (count * 4) as u32;
        let start = if up {
            if pre {
                base.wrapping_add(4)
            } else {
                base
            }
        } else if pre {
            base.wrapping_sub(total)
        } else {
            base.wrapping_sub(total).wrapping_add(4)
        };
        let user_mode = s_bit && (!load || !list_has(list, 15));
        let old_mode = r.mode();
        let r0 = if user_mode {
            switch_mode_spec(r, CpuMode::User)
        } else {
            r
        };
        let st = block_upto(
            BlockState { regs: r0, bus, addr: start, cycles: 0 },
            16,
            list,
            load,
            s_bit,
            user_mode,
            old_mode,
        );
        let r1 = if user_mode && !(s_bit && load && list_has(list, 15)) {
            switch_mode_spec(st.regs, old_mode)
        } else {
            st.regs
        };
        let r2 = if write_back {
            r1.with_reg(rn as int, offset_addr(base, total, up))
        } else {
            r1
        };
        ExecResult { regs: r2, bus: st.bus, cycles: (st.cycles + 1) as u32 }
    }
}

/// The effect of executing ARM instruction `instr` (PC already advanced past it): a
/// failed condition costs one cycle and changes nothing, otherwise the decoded
/// instruction runs.
pub open spec fn exec_arm_spec(r: RegsView, bus: BusView, instr: u32) -> ExecResult {
    if !crate::alu::condition_passed(r.cpsr, instr >> 28) {
        ExecResult { regs: r, bus, cycles: 1 }
    } else {
        match decode_arm_spec(instr) {
            ArmInstruction::BranchExchange { rn } => {
                let (r1, c) = exec_bx_spec(r, rn);
                ExecResult { regs: r1, bus, cycles: c }
            },
            ArmInstruction::Branch { link, offset } => {
                let (r1, c) = exec_branch_spec(r, link, offset);
                ExecResult { regs: r1, bus, cycles: c }
            },
            ArmInstruction::DataProcessing { opcode, set_flags, rn, rd, operand2 } => {
                let (r1, c) = exec_data_processing_spec(r, opcode, set_flags, rn, rd, operand2);
                ExecResult { regs: r1, bus, cycles: c }
            },
            ArmInstruction::Multiply { accumulate, set_flags, rd, rn, rs, rm } => {
                let (r1, c) = exec_multiply_spec(r, accumulate, set_flags, rd, rn, rs, rm);
                ExecResult { regs: r1, bus, cycles: c }
            },
            ArmInstruction::MultiplyLong {
                signed,
                accumulate,
                set_flags,
                rd_hi,
                rd_lo,
                rs,
                rm,
            } => {
                let (r1, c) = exec_multiply_long_spec(
                    r,
                    signed,
                    accumulate,
                    set_flags,
                    rd_hi,
                    rd_lo,
                    rs,
                    rm,
                );
                ExecResult { regs: r1, bus, cycles: c }
            },
            ArmInstruction::SingleTransfer { load, byte, write_back, up, pre, rn, rd, offset } =>
                exec_single_transfer_spec(r, bus, load, byte, write_back, up, pre, rn, rd, offset),
            ArmInstruction::HalfwordTransfer {
                load,
                write_back,
                up,
                pre,
                signed,
                half,
                rn,
                rd,
                offset,
            } => exec_halfword_transfer_spec(
                r,
                bus,
                load,
                write_back,
                up,
                pre,
                signed,
                half,
                rn,
                rd,
                offset,
            ),
            ArmInstruction::BlockTransfer {
                load,
                write_back,
                up,
                pre,
                s_bit,
                rn,
                register_list,
            } => exec_block_transfer_spec(
                r,
                bus,
                load,
                write_back,
                up,
                pre,
                s_bit,
                rn,
                register_list,
            ),
            ArmInstruction::Swap { byte, rn, rd, rm } => exec_swap_spec(r, bus, byte, rn, rd, rm),
            ArmInstruction::Mrs { spsr, rd } => {
                let (r1, c) = exec_mrs_spec(r, spsr, rd);
                ExecResult { regs: r1, bus, cycles: c }
            },
            ArmInstruction::Msr { spsr, field_mask, operand } => {
                let (r1, c) = exec_msr_spec(r, spsr, field_mask, operand);
                ExecResult { regs: r1, bus, cycles: c }
            },
            ArmInstruction::Swi { .. } => ExecResult {
                regs: exception_entry(r, CpuMode::Supervisor, r.gpr[15].wrapping_sub(4), 8),
                bus,
                cycles: 3,
            },
            ArmInstruction::Undefined => ExecResult {
                regs: exception_entry(r, CpuMode::Undefined, r.gpr[15].wrapping_sub(4), 4),
                bus,
                cycles: 3,
            },
        }
    }
}


// =============================================================================
// Arithmetic facts used by the multiplies
// =============================================================================

proof fn lemma_wrap_mul_add(a: u32, b: u32, c: u32)
    ensures
        a.wrapping_mul(b).wrapping_add(c) as int == (a as int * b as int + c as int) % 0x1_0000_0000,
        a.wrapping_mul(b) as int == (a as int * b as int) % 0x1_0000_0000,
{
    let m: int = 0x1_0000_0000;
    let p = a as int * b as int;
    assert(a.wrapping_mul(b) as int == p % m);
    vstd::arithmetic::div_mod::lemma_add_mod_noop(p, c as int, m);
    vstd::arithmetic::div_mod::lemma_small_mod(c as nat, m as nat);
    vstd::arithmetic::div_mod::lemma_mod_bound(p, m);
}


proof fn lemma_signed_product(a: u32, b: u32)
    ensures
        crate::alu::signed32(a) * crate::alu::signed32(b) == a as int * b as int - (if a
            >= 0x8000_0000 {
            b as int * 0x1_0000_0000
        } else {
            0
        }) - (if b >= 0x8000_0000 {
            a as int * 0x1_0000_0000
        } else {
            0
        }) + (if a >= 0x8000_0000 && b >= 0x8000_0000 {
            0x1_0000_0000_0000_0000int
        } else {
            0
        }),
{
    let m: int = 0x1_0000_0000;
    let ai = a as int;
    let bi = b as int;
    if a >= 0x8000_0000 && b >= 0x8000_0000 {
        assert((ai - m) * (bi - m) == ai * bi - bi * m - ai * m + m * m) by (nonlinear_arith);
    } else if a >= 0x8000_0000 {
        assert((ai - m) * bi == ai * bi - bi * m) by (nonlinear_arith);
    } else if b >= 0x8000_0000 {
        assert(ai * (bi - m) == ai * bi - ai * m) by (nonlinear_arith);
    }
}

// =============================================================================
// ARM instruction execution
// =============================================================================

/// Everything but the register file stays as it was.
pub open spec fn only_regs_changed(a: Arm7Tdmi, b: Arm7Tdmi) -> bool {
    a.halted == b.halted && a.pipeline == b.pipeline && a.cycles == b.cycles
}

/// Calculate multiply instruction cycle count based on Rs value
pub fn multiply_cycles(rs: u32) -> (r: u32)
    ensures
        r == multiply_cycles_spec(rs),
        1 <= r <= 4,
{
    if rs & 0xFFFF_FF00 == 0 || rs & 0xFFFF_FF00 == 0xFFFF_FF00 {
        1
    } else if rs & 0xFFFF_0000 == 0 || rs & 0xFFFF_0000 == 0xFFFF_0000 {
        2
    } else if rs & 0xFF00_0000 == 0 || rs & 0xFF00_0000 == 0xFF00_0000 {
        3
    } else {
        4
    }
}

impl Arm7Tdmi {
    /// Execute a decoded ARM instruction, returns cycles consumed
    pub fn execute_arm_instruction<B: BusAccess>(&mut self, instruction: u32, bus: &mut B) -> (c: u32)
        requires
            old(bus)@.wf(),
        ensures
            (ExecResult { regs: final(self).regs@, bus: final(bus)@, cycles: c }) == exec_arm_spec(
                old(self).regs@,
                old(bus)@,
                instruction,
            ),
            final(bus)@.wf(),
            1 <= c <= 64,
            only_regs_changed(*final(self), *old(self)),
    {
        // Check condition code
        let cond = instruction >> 28;
        proof {
            lemma_word_bits();
        }
        if !self.check_condition(cond) {
            return 1;  // 1S cycle for failed condition
        }
        let decoded = decode_arm(instruction);
        proof {
            lemma_decode_fields_in_range(instruction);
        }
        match decoded {
            ArmInstruction::BranchExchange { rn } => self.exec_bx(rn),
            ArmInstruction::Branch { link, offset } => self.exec_branch(link, offset),
            ArmInstruction::DataProcessing { opcode, set_flags, rn, rd, operand2 } => self.exec_data_processing(
                opcode,
                set_flags,
                rn,
                rd,
                operand2,
            ),
            ArmInstruction::Multiply { accumulate, set_flags, rd, rn, rs, rm } => self.exec_multiply(
                accumulate,
                set_flags,
                rd,
                rn,
                rs,
                rm,
            ),
            ArmInstruction::MultiplyLong {
                signed,
                accumulate,
                set_flags,
                rd_hi,
                rd_lo,
                rs,
                rm,
            } => self.exec_multiply_long(signed, accumulate, set_flags, rd_hi, rd_lo, rs, rm),
            ArmInstruction::SingleTransfer { load, byte, write_back, up, pre, rn, rd, offset } =>
                self.exec_single_transfer(load, byte, write_back, up, pre, rn, rd, offset, bus),
            ArmInstruction::HalfwordTransfer {
                load,
                write_back,
                up,
                pre,
                signed,
                half,
                rn,
                rd,
                offset,
            } => self.exec_halfword_transfer(
                load,
                write_back,
                up,
                pre,
                signed,
                half,
                rn,
                rd,
                offset,
                bus,
            ),
            ArmInstruction::BlockTransfer {
                load,
                write_back,
                up,
                pre,
                s_bit,
                rn,
                register_list,
            } => self.exec_block_transfer(load, write_back, up, pre, s_bit, rn, register_list, bus),
            ArmInstruction::Swap { byte, rn, rd, rm } => self.exec_swap(byte, rn, rd, rm, bus),
            ArmInstruction::Mrs { spsr, rd } => self.exec_mrs(spsr, rd),
            ArmInstruction::Msr { spsr, field_mask, operand } => self.exec_msr(
                spsr,
                field_mask,
                operand,
            ),
            ArmInstruction::Swi { comment } => self.exec_swi(comment),
            ArmInstruction::Undefined => self.exec_undefined(),
        }
    }

    // =========================================================================
    // Branch
    // =========================================================================

    fn exec_bx(&mut self, rn: usize) -> (c: u32)
        requires
            rn < 16,
        ensures
            final(self).regs@ == exec_bx_spec(old(self).regs@, rn).0,
            c == exec_bx_spec(old(self).regs@, rn).1,
            only_regs_changed(*final(self), *old(self)),
    {
        let addr = self.regs.gpr[rn];
        if addr & 1 != 0 {
            // Switch to THUMB
            self.regs.cpsr.insert(Psr::T);
            self.regs.set_pc(addr & !1);
        } else {
            self.regs.cpsr.remove(Psr::T);
            self.regs.set_pc(addr & !3);
        }
        3  // 2S + 1N
    }

    fn exec_branch(&mut self, link: bool, offset: i32) -> (c: u32)
        requires
            -0x0200_0000 <= offset < 0x0200_0000,
        ensures
            final(self).regs@ == exec_branch_spec(old(self).regs@, link, offset).0,
            c == exec_branch_spec(old(self).regs@, link, offset).1,
            only_regs_changed(*final(self), *old(self)),
    {
        if link {
            // BL: save return address
            self.regs.gpr[RegisterFile::LR] = self.regs.pc().wrapping_sub(4);
        }
        let pc = self.regs.pc();
        let target = if offset >= 0 {
            pc.wrapping_add(offset as u32)
        } else {
            pc.wrapping_sub((0 - offset) as u32)
        };
        self.regs.set_pc(target);
        3  // 2S + 1N
    }

    // =========================================================================
    // Data Processing (ALU)
    // =========================================================================

    fn resolve_operand(&self, operand2: ShifterOperand) -> (r: (u32, bool))
        requires
            operand2_ok(operand2),
        ensures
            r == operand2_spec(self.regs@, operand2),
    {
        let carry = self.regs.cpsr.contains(Psr::C);
        match operand2 {
            ShifterOperand::Immediate { imm, rotate } => {
                let value = ror(imm, rotate * 2);
                if rotate == 0 {
                    (value, carry)
                } else {
                    (value, (value >> 31) & 1 == 1)
                }
            },
            ShifterOperand::RegisterImm { rm, shift_type, amount } => {
                barrel_shift(self.reg_value(rm), shift_type, amount, carry)
            },
            ShifterOperand::RegisterReg { rm, shift_type, rs } => {
                // A register-specified shift reads the PC one more word ahead
                let value = if rm == 15 {
                    self.reg_value(15).wrapping_add(4)
                } else {
                    self.regs.gpr[rm]
                };
                let rsv: u32 = self.regs.gpr[rs];
                let amount: u32 = rsv & 0xFF;
                proof {
                    lemma_and_bound();
                }
                if amount == 0 {
                    (value, carry)
                } else {
                    barrel_shift(value, shift_type, amount as u8, carry)
                }
            },
        }
    }

    fn exec_data_processing(
        &mut self,
        opcode: AluOp,
        set_flags: bool,
        rn: usize,
        rd: usize,
        operand2: ShifterOperand,
    ) -> (c: u32)
        requires
            rn < 16,
            rd < 16,
            operand2_ok(operand2),
        ensures
            final(self).regs@ == exec_data_processing_spec(
                old(self).regs@,
                opcode,
                set_flags,
                rn,
                rd,
                operand2,
            ).0,
            c == exec_data_processing_spec(old(self).regs@, opcode, set_flags, rn, rd, operand2).1,
            only_regs_changed(*final(self), *old(self)),
    {
        let (op2, shifter_carry) = self.resolve_operand(operand2);
        let op1 = self.reg_value(rn);
        let carry = self.regs.cpsr.contains(Psr::C);

        let (result, new_carry, new_overflow) = match opcode {
            AluOp::And | AluOp::Tst => (op1 & op2, shifter_carry, false),
            AluOp::Eor | AluOp::Teq => (op1 ^ op2, shifter_carry, false),
            AluOp::Sub | AluOp::Cmp => adc(op1, !op2, true),
            AluOp::Rsb => adc(op2, !op1, true),
            AluOp::Add | AluOp::Cmn => adc(op1, op2, false),
            AluOp::Adc => adc(op1, op2, carry),
            AluOp::Sbc => adc(op1, !op2, carry),
            AluOp::Rsc => adc(op2, !op1, carry),
            AluOp::Orr => (op1 | op2, shifter_carry, false),
            AluOp::Mov => (op2, shifter_carry, false),
            AluOp::Bic => (op1 & !op2, shifter_carry, false),
            AluOp::Mvn => (!op2, shifter_carry, false),
        };

        // Write result (not for test/compare ops)
        if !opcode.is_test() {
            if rd == 15 {
                if set_flags {
                    // Restore CPSR from SPSR
                    self.restore_cpsr_from_spsr();
                }
                self.regs.set_pc(result & !3);
                return 3;  // branch penalty
            } else {
                self.regs.gpr[rd] = result;
            }
        }
        // Update flags
        if set_flags && rd != 15 {
            self.regs.cpsr.set(Psr::N, (result >> 31) != 0);
            self.regs.cpsr.set(Psr::Z, result == 0);
            self.regs.cpsr.set(Psr::C, new_carry);
            if !opcode.is_logical() {
                self.regs.cpsr.set(Psr::V, new_overflow);
            }
        }
        // Cycle counting: +1I for a register-specified shift
        let extra: u32 = if matches!(operand2, ShifterOperand::RegisterReg { .. }) {
            1
        } else {
            0
        };
        1 + extra
    }

    /// Load the CPSR from the SPSR of the current mode, if it has one.
    fn restore_cpsr_from_spsr(&mut self)
        ensures
            final(self).regs@ == match spsr_spec(old(self).regs@) {
                Some(s) => restore_cpsr(old(self).regs@, s),
                None => old(self).regs@,
            },
            only_regs_changed(*final(self), *old(self)),
    {
        if let Some(spsr) = self.regs.spsr() {
            // Bank the registers for the new mode, then load the whole CPSR
            self.regs.switch_mode(spsr.mode());
            self.regs.cpsr = spsr;
        }
    }

    // =========================================================================
    // Multiply
    // =========================================================================

    fn exec_multiply(
        &mut self,
        accumulate: bool,
        set_flags: bool,
        rd: usize,
        rn: usize,
        rs: usize,
        rm: usize,
    ) -> (c: u32)
        requires
            rd < 16,
            rn < 16,
            rs < 16,
            rm < 16,
        ensures
            final(self).regs@ == exec_multiply_spec(
                old(self).regs@,
                accumulate,
                set_flags,
                rd,
                rn,
                rs,
                rm,
            ).0,
            c == exec_multiply_spec(old(self).regs@, accumulate, set_flags, rd, rn, rs, rm).1,
            only_regs_changed(*final(self), *old(self)),
    {
        proof {
            lemma_wrap_mul_add(self.regs.gpr[rm as int], self.regs.gpr[rs as int], self.regs.gpr[rn as int]);
        }
        let result = if accumulate {
            self.regs.gpr[rm].wrapping_mul(self.regs.gpr[rs]).wrapping_add(self.regs.gpr[rn])
        } else {
            self.regs.gpr[rm].wrapping_mul(self.regs.gpr[rs])
        };
        self.regs.gpr[rd] = result;
        if set_flags {
            self.regs.cpsr.set(Psr::N, (result >> 31) != 0);
            self.regs.cpsr.set(Psr::Z, result == 0);
            // C is destroyed (unpredictable), V is unaffected
        }
        // Multiply cycles: 1S + mI (m = 1-4 based on Rs magnitude)
        let m = multiply_cycles(self.regs.gpr[rs]);
        1 + m + if accumulate {
            1
        } else {
            0
        }
    }

    fn exec_multiply_long(
        &mut self,
        signed: bool,
        accumulate: bool,
        set_flags: bool,
        rd_hi: usize,
        rd_lo: usize,
        rs: usize,
        rm: usize,
    ) -> (c: u32)
        requires
            rd_hi < 16,
            rd_lo < 16,
            rs < 16,
            rm < 16,
        ensures
            final(self).regs@ == exec_multiply_long_spec(
                old(self).regs@,
                signed,
                accumulate,
                set_flags,
                rd_hi,
                rd_lo,
                rs,
                rm,
            ).0,
            c == exec_multiply_long_spec(
                old(self).regs@,
                signed,
                accumulate,
                set_flags,
                rd_hi,
                rd_lo,
                rs,
                rm,
            ).1,
            only_regs_changed(*final(self), *old(self)),
    {
        let a = self.regs.gpr[rm];
        let b = self.regs.gpr[rs];
        let acc: u64 = (self.regs.gpr[rd_hi] as u64) * 0x1_0000_0000 + (self.regs.gpr[rd_lo] as u64);
        let result = long_product(a, b, signed, acc, accumulate);
        proof {
            lemma_u64_halves(result);
        }
        self.regs.gpr[rd_lo] = (result & 0xFFFF_FFFF) as u32;
        self.regs.gpr[rd_hi] = (result >> 32) as u32;
        if set_flags {
            self.regs.cpsr.set(Psr::N, (result >> 63) != 0);
            self.regs.cpsr.set(Psr::Z, result == 0);
        }
        let m = multiply_cycles(self.regs.gpr[rs]);
        1 + m + 1 + if accumulate {
            1
        } else {
            0
        }
    }

    // =========================================================================
    // Status Register Access (MRS/MSR)
    // =========================================================================

    fn exec_mrs(&mut self, spsr: bool, rd: usize) -> (c: u32)
        requires
            rd < 16,
        ensures
            final(self).regs@ == exec_mrs_spec(old(self).regs@, spsr, rd).0,
            c == exec_mrs_spec(old(self).regs@, spsr, rd).1,
            only_regs_changed(*final(self), *old(self)),
    {
        let value = if spsr {
            match self.regs.spsr() {
                Some(p) => p.bits(),
                None => self.regs.cpsr.bits(),
            }
        } else {
            self.regs.cpsr.bits()
        };
        self.regs.gpr[rd] = value;
        1
    }

    fn exec_msr(&mut self, spsr: bool, field_mask: u8, operand: MsrOperand) -> (c: u32)
        requires
            match operand {
                MsrOperand::Register(rm) => rm < 16,
                _ => true,
            },
        ensures
            final(self).regs@ == exec_msr_spec(old(self).regs@, spsr, field_mask, operand).0,
            c == exec_msr_spec(old(self).regs@, spsr, field_mask, operand).1,
            only_regs_changed(*final(self), *old(self)),
    {
        let value = match operand {
            MsrOperand::Immediate(imm) => imm,
            MsrOperand::Register(rm) => self.regs.gpr[rm],
        };
        // Build mask from field bits: control, extension, status, flags
        let mut mask: u32 = (if field_mask & 1 != 0 {
            0x0000_00FFu32
        } else {
            0
        }) | (if field_mask & 2 != 0 {
            0x0000_FF00u32
        } else {
            0
        }) | (if field_mask & 4 != 0 {
            0x00FF_0000u32
        } else {
            0
        }) | (if field_mask & 8 != 0 {
            0xFF00_0000u32
        } else {
            0
        });
        // User mode can only modify flags
        if self.regs.cpsr.mode() == CpuMode::User {
            mask = mask & 0xFF00_0000;
        }
        if spsr {
            if let Some(old_spsr) = self.regs.spsr() {
                let new_val = (old_spsr.bits() & !mask) | (value & mask);
                self.regs.set_spsr(Psr::from_bits_retain(new_val));
            }
        } else {
            let current = self.regs.cpsr.bits();
            let new_val = (current & !mask) | (value & mask);
            let new_psr = Psr::from_bits_retain(new_val);
            // A mode change banks the registers before the CPSR takes the new value
            self.regs.switch_mode(new_psr.mode());
            self.regs.cpsr = new_psr;
        }
        1
    }

    // =========================================================================
    // Software Interrupt / Undefined
    // =========================================================================

    fn exec_swi(&mut self, _comment: u32) -> (c: u32)
        ensures
            final(self).regs@ == exception_entry(
                old(self).regs@,
                CpuMode::Supervisor,
                old(self).regs@.gpr[15].wrapping_sub(4),
                8,
            ),
            c == 3,
            only_regs_changed(*final(self), *old(self)),
    {
        let return_addr = self.regs.pc().wrapping_sub(4);
        self.enter_exception(CpuMode::Supervisor, return_addr, 0x0000_0008);
        3
    }

    fn exec_undefined(&mut self) -> (c: u32)
        ensures
            final(self).regs@ == exception_entry(
                old(self).regs@,
                CpuMode::Undefined,
                old(self).regs@.gpr[15].wrapping_sub(4),
                4,
            ),
            c == 3,
            only_regs_changed(*final(self), *old(self)),
    {
        let return_addr = self.regs.pc().wrapping_sub(4);
        self.enter_exception(CpuMode::Undefined, return_addr, 0x0000_0004);
        3
    }

    // =========================================================================
    // Single Data Transfer (LDR/STR)
    // =========================================================================

    fn exec_single_transfer<B: BusAccess>(
        &mut self,
        load: bool,
        byte: bool,
        write_back: bool,
        up: bool,
        pre: bool,
        rn: usize,
        rd: usize,
        offset: TransferOffset,
        bus: &mut B,
    ) -> (c: u32)
        requires
            rn < 16,
            rd < 16,
            match offset {
                TransferOffset::Register { rm, .. } => rm < 16,
                _ => true,
            },
            old(bus)@.wf(),
        ensures
            (ExecResult { regs: final(self).regs@, bus: final(bus)@, cycles: c })
                == exec_single_transfer_spec(
                old(self).regs@,
                old(bus)@,
                load,
                byte,
                write_back,
                up,
                pre,
                rn,
                rd,
                offset,
            ),
            final(bus)@.wf(),
            only_regs_changed(*final(self), *old(self)),
    {
        let base = self.reg_value(rn);
        let offset_val = self.resolve_transfer_offset(offset);
        let offset_addr = if up {
            base.wrapping_add(offset_val)
        } else {
            base.wrapping_sub(offset_val)
        };
        let addr = if pre {
            offset_addr
        } else {
            base
        };
        if load {
            let value = if byte {
                bus.read_byte(addr) as u32
            } else {
                self.load_rotated_word(addr, bus)
            };
            if rd == 15 {
                self.regs.set_pc(value & !3);
            } else {
                self.regs.gpr[rd] = value;
            }
        } else {
            let value = if rd == 15 {
                self.regs.pc().wrapping_add(4)
            } else {
                self.regs.gpr[rd]
            };
            if byte {
                bus.write_byte(addr, value as u8);
                proof {
                    lemma_write_byte_wf(old(bus)@, addr, value as u8);
                }
            } else {
                bus.write_word(addr & !3, value);
                proof {
                    lemma_write_wide_wf(old(bus)@, addr & !3u32, value);
                }
            }
        }
        // Write-back (or post-indexed)
        if !pre || write_back {
            if rn != rd || !load {
                self.regs.gpr[rn] = offset_addr;
            }
        }
        if load {
            if rd == 15 {
                5
            } else {
                3
            }  // 1S + 1N + 1I (+ branch penalty)
        } else {
            2  // 2N
        }
    }

    /// Word load rotated so that the addressed byte comes first
    fn load_rotated_word<B: BusAccess>(&self, addr: u32, bus: &B) -> (v: u32)
        requires
            bus@.wf(),
        ensures
            v == load_word_rotated(bus@, addr),
    {
        let aligned = addr & !3;
        proof {
            lemma_and_bound();
        }
        let rotation: u32 = (addr & 3) * 8;
        ror(bus.read_word(aligned), rotation)
    }

    fn resolve_transfer_offset(&self, offset: TransferOffset) -> (v: u32)
        requires
            match offset {
                TransferOffset::Register { rm, .. } => rm < 16,
                _ => true,
            },
        ensures
            v == match offset {
                TransferOffset::Immediate(imm) => imm,
                TransferOffset::Register { rm, shift_type, amount } => shift_spec(
                    self.regs@.gpr[rm as int],
                    shift_type,
                    amount as u32,
                    psr_has(self.regs@.cpsr, Psr::C),
                ).0,
            },
    {
        match offset {
            TransferOffset::Immediate(imm) => imm,
            TransferOffset::Register { rm, shift_type, amount } => {
                let carry = self.regs.cpsr.contains(Psr::C);
                let (result, _) = barrel_shift(self.regs.gpr[rm], shift_type, amount, carry);
                result
            },
        }
    }

    // =========================================================================
    // Halfword / Signed Data Transfer
    // =========================================================================

    fn exec_halfword_transfer<B: BusAccess>(
        &mut self,
        load: bool,
        write_back: bool,
        up: bool,
        pre: bool,
        signed: bool,
        half: bool,
        rn: usize,
        rd: usize,
        offset: HalfwordOffset,
        bus: &mut B,
    ) -> (c: u32)
        requires
            rn < 16,
            rd < 16,
            match offset {
                HalfwordOffset::Register(rm) => rm < 16,
                _ => true,
            },
            old(bus)@.wf(),
        ensures
            (ExecResult { regs: final(self).regs@, bus: final(bus)@, cycles: c })
                == exec_halfword_transfer_spec(
                old(self).regs@,
                old(bus)@,
                load,
                write_back,
                up,
                pre,
                signed,
                half,
                rn,
                rd,
                offset,
            ),
            final(bus)@.wf(),
            only_regs_changed(*final(self), *old(self)),
    {
        let base = self.reg_value(rn);
        let offset_val = match offset {
            HalfwordOffset::Immediate(imm) => imm,
            HalfwordOffset::Register(rm) => self.regs.gpr[rm],
        };
        let offset_addr = if up {
            base.wrapping_add(offset_val)
        } else {
            base.wrapping_sub(offset_val)
        };
        let addr = if pre {
            offset_addr
        } else {
            base
        };
        proof {
            lemma_word_bits();
        }
        if load {
            let value = if signed && !half {
                // LDRSB: signed byte
                sign_extend_byte(bus.read_byte(addr))
            } else if signed && half {
                // LDRSH: signed halfword
                if addr & 1 != 0 {
                    // Misaligned LDRSH loads as signed byte
                    sign_extend_byte(bus.read_byte(addr))
                } else {
                    sign_extend_half(bus.read_halfword(addr))
                }
            } else {
                // LDRH: unsigned halfword
                if addr & 1 != 0 {
                    let val = bus.read_halfword(addr & !1);
                    rotate_half_8(val) as u32
                } else {
                    bus.read_halfword(addr) as u32
                }
            };
            self.regs.gpr[rd] = value;
        } else {
            // STRH
            let value = if rd == 15 {
                self.regs.pc().wrapping_add(4)
            } else {
                self.regs.gpr[rd]
            };
            bus.write_halfword(addr & !1, value as u16);
            proof {
                lemma_write_wide_wf(old(bus)@, addr & !1u32, value as u16 as u32);
                assert(value as u16 as u32 as u16 == value as u16);
            }
        }
        if !pre || write_back {
            if rn != rd || !load {
                self.regs.gpr[rn] = offset_addr;
            }
        }
        if load {
            3
        } else {
            2
        }
    }

    // =========================================================================
    // Block Data Transfer (LDM/STM)
    // =========================================================================

    #[verifier::rlimit(40)]
    fn exec_block_transfer<B: BusAccess>(
        &mut self,
        load: bool,
        write_back: bool,
        up: bool,
        pre: bool,
        s_bit: bool,
        rn: usize,
        register_list: u16,
        bus: &mut B,
    ) -> (c: u32)
        requires
            rn < 16,
            old(bus)@.wf(),
        ensures
            (ExecResult { regs: final(self).regs@, bus: final(bus)@, cycles: c })
                == exec_block_transfer_spec(
                old(self).regs@,
                old(bus)@,
                load,
                write_back,
                up,
                pre,
                s_bit,
                rn,
                register_list,
            ),
            final(bus)@.wf(),
            1 <= c <= 64,
            only_regs_changed(*final(self), *old(self)),
    {
        let base = self.regs.gpr[rn];
        let count = count_bits16(register_list);

        if count == 0 {
            // Empty register list: special behavior (transfers PC, base += 0x40)
            if load {
                let val = bus.read_word(base);
                self.regs.set_pc(val & !3);
            } else {
                bus.write_word(base, self.regs.pc().wrapping_add(4));
                proof {
                    lemma_write_wide_wf(old(bus)@, base, old(self).regs@.gpr[15].wrapping_add(4));
                }
            }
            if write_back {
                self.regs.gpr[rn] = if up {
                    base.wrapping_add(0x40)
                } else {
                    base.wrapping_sub(0x40)
                };
            }
            return if load {
                5
            } else {
                2
            };
        }
        // Calculate start address
        let total: u32 = count * 4;
        let mut addr = if up {
            if pre {
                base.wrapping_add(4)
            } else {
                base
            }
        } else {
            if pre {
                base.wrapping_sub(total)
            } else {
                base.wrapping_sub(total).wrapping_add(4)
            }
        };

        let user_mode = s_bit && (!load || (register_list >> 15u16) & 1 != 1);
        let old_mode = self.regs.cpsr.mode();

        if user_mode {
            self.regs.switch_mode(CpuMode::User);
        }
        let ghost st0 = BlockState { regs: self.regs@, bus: bus@, addr, cycles: 0 };
        let mut cycles: u32 = 0;
        let mut i: u16 = 0;
        while i < 16
            invariant
                0 <= i <= 16,
                (BlockState { regs: self.regs@, bus: bus@, addr, cycles }) == block_upto(
                    st0,
                    i as int,
                    register_list,
                    load,
                    s_bit,
                    user_mode,
                    old_mode,
                ),
                bus@.wf(),
                cycles <= 3 * i,
                only_regs_changed(*self, *old(self)),
            decreases 16 - i,
        {
            let (next_addr, next_cycles) = self.block_transfer_register(
                bus,
                i,
                register_list,
                load,
                s_bit,
                user_mode,
                old_mode,
                addr,
                cycles,
            );
            addr = next_addr;
            cycles = next_cycles;
            i = i + 1;
        }
        if user_mode && !(s_bit && load && (register_list >> 15u16) & 1 == 1) {
            self.regs.switch_mode(old_mode);
        }
        if write_back {
            self.regs.gpr[rn] = if up {
                base.wrapping_add(total)
            } else {
                base.wrapping_sub(total)
            };
        }
        cycles + 1  // +1 for final internal cycle
    }

    /// Transfer register `i` of an LDM/STM if the register list holds it
    fn block_transfer_register<B: BusAccess>(
        &mut self,
        bus: &mut B,
        i: u16,
        register_list: u16,
        load: bool,
        s_bit: bool,
        user_mode: bool,
        old_mode: CpuMode,
        addr: u32,
        cycles: u32,
    ) -> (r: (u32, u32))
        requires
            i < 16,
            old(bus)@.wf(),
            cycles <= 45,
        ensures
            (BlockState { regs: final(self).regs@, bus: final(bus)@, addr: r.0, cycles: r.1 })
                == block_step(
                BlockState { regs: old(self).regs@, bus: old(bus)@, addr, cycles },
                i as int,
                register_list,
                load,
                s_bit,
                user_mode,
                old_mode,
            ),
            final(bus)@.wf(),
            r.1 <= cycles + 3,
            only_regs_changed(*final(self), *old(self)),
    {
        let mut cycles = cycles;
        if (register_list >> i) & 1 == 1 {
            if load {
                let val = bus.read_word(addr & !3);
                if i == 15 {
                    self.regs.set_pc(val & !3);
                    if s_bit {
                        // Restore CPSR from SPSR
                        if user_mode {
                            self.regs.switch_mode(old_mode);
                        }
                        if let Some(spsr) = self.regs.spsr() {
                            // Bank the registers for the new mode, then load the CPSR
                            self.regs.switch_mode(spsr.mode());
                            self.regs.cpsr = spsr;
                        }
                    }
                    cycles = cycles + 2;  // branch penalty
                } else {
                    self.regs.gpr[i as usize] = val;
                }
            } else {
                let val = if i == 15 {
                    self.regs.pc().wrapping_add(4)
                } else {
                    self.regs.gpr[i as usize]
                };
                bus.write_word(addr & !3, val);
                proof {
                    lemma_write_wide_wf(old(bus)@, addr & !3u32, val);
                }
            }
            (addr.wrapping_add(4), cycles + 1)
        } else {
            (addr, cycles)
        }
    }

    // =========================================================================
    // Swap (SWP/SWPB)
    // =========================================================================

    fn exec_swap<B: BusAccess>(&mut self, byte: bool, rn: usize, rd: usize, rm: usize, bus: &mut B) -> (c: u32)
        requires
            rn < 16,
            rd < 16,
            rm < 16,
            old(bus)@.wf(),
        ensures
            (ExecResult { regs: final(self).regs@, bus: final(bus)@, cycles: c }) == exec_swap_spec(
                old(self).regs@,
                old(bus)@,
                byte,
                rn,
                rd,
                rm,
            ),
            final(bus)@.wf(),
            only_regs_changed(*final(self), *old(self)),
    {
        let addr = self.regs.gpr[rn];
        if byte {
            let prev = bus.read_byte(addr) as u32;
            bus.write_byte(addr, self.regs.gpr[rm] as u8);
            proof {
                lemma_write_byte_wf(old(bus)@, addr, self.regs.gpr[rm as int] as u8);
            }
            self.regs.gpr[rd] = prev;
        } else {
            let prev = self.load_rotated_word(addr, bus);
            bus.write_word(addr & !3, self.regs.gpr[rm]);
            proof {
                lemma_write_wide_wf(old(bus)@, addr & !3u32, self.regs.gpr[rm as int]);
            }
            self.regs.gpr[rd] = prev;
        }
        4  // 1S + 2N + 1I
    }

    // =========================================================================
    // Helpers
    // =========================================================================

    /// Get register value (PC reads as PC+8 in ARM, PC+4 in Thumb)
    pub(crate) fn reg_value(&self, reg: usize) -> (v: u32)
        requires
            reg < 16,
        ensures
            v == reg_read(self.regs@, reg as int),
    {
        if reg == 15 {
            if self.regs.cpsr.thumb() {
                self.regs.pc().wrapping_add(2)
            } else {
                self.regs.pc().wrapping_add(4)
            }
        } else {
            self.regs.gpr[reg]
        }
    }
}

/// A byte sign-extended to 32 bits
fn sign_extend_byte(b: u8) -> (v: u32)
    ensures
        v == sext8(b),
{
    if b >= 0x80 {
        b as u32 + 0xFFFF_FF00
    } else {
        b as u32
    }
}

/// A halfword sign-extended to 32 bits
fn sign_extend_half(h: u16) -> (v: u32)
    ensures
        v == sext16(h),
{
    if h >= 0x8000 {
        h as u32 + 0xFFFF_0000
    } else {
        h as u32
    }
}

/// A halfword rotated right by 8 bits (its bytes swapped)
fn rotate_half_8(h: u16) -> (v: u16)
    ensures
        v == swap_bytes(h),
{
    let v: u16 = (h >> 8) | (h << 8);
    assert(v == (h % 256) * 256 + h / 256) by (bit_vector)
        requires
            v == (h >> 8) | (h << 8),
    ;
    v
}

/// Number of set bits of a 16-bit register list
pub fn count_bits16(x: u16) -> (n: u32)
    ensures
        n == popcount16(x, 16),
        n <= 16,
{
    let mut n: u32 = 0;
    let mut i: u16 = 0;
    while i < 16
        invariant
            0 <= i <= 16,
            n == popcount16(x, i as int),
            n <= i,
        decreases 16 - i,
    {
        if (x >> i) & 1 == 1 {
            n = n + 1;
        }
        i = i + 1;
    }
    n
}

/// The 64-bit product of `a` and `b` (as signed or unsigned 32-bit values), plus `acc`
/// when accumulating, modulo 2^64
fn long_product(a: u32, b: u32, signed: bool, acc: u64, accumulate: bool) -> (r: u64)
    ensures
        r as int == (operand_value(a, signed) * operand_value(b, signed) + if accumulate {
            acc as int
        } else {
            0
        }) % 0x1_0000_0000_0000_0000,
{
    let r = signed_or_unsigned_product(a, b, signed);
    if accumulate {
        let ghost m64: int = 0x1_0000_0000_0000_0000;
        let ghost p = operand_value(a, signed) * operand_value(b, signed);
        proof {
            vstd::arithmetic::div_mod::lemma_add_mod_noop(p, acc as int, m64);
            vstd::arithmetic::div_mod::lemma_small_mod(acc as nat, m64 as nat);
            vstd::arithmetic::div_mod::lemma_mod_bound(p, m64);
        }
        r.wrapping_add(acc)
    } else {
        r
    }
}

/// The product of `a` and `b` modulo 2^64; when `signed`, of their two's-complement values
fn signed_or_unsigned_product(a: u32, b: u32, signed: bool) -> (r: u64)
    ensures
        r as int == (operand_value(a, signed) * operand_value(b, signed)) % 0x1_0000_0000_0000_0000,
{
    let ghost m64: int = 0x1_0000_0000_0000_0000;
    let ghost m32: int = 0x1_0000_0000;
    let ghost ai = a as int;
    let ghost bi = b as int;
    assert(ai * bi <= 0xFFFF_FFFE_0000_0001) by (nonlinear_arith)
        requires
            0 <= ai <= 0xFFFF_FFFF,
            0 <= bi <= 0xFFFF_FFFF,
    ;
    assert(0 <= ai * bi) by (nonlinear_arith)
        requires
            0 <= ai,
            0 <= bi,
    ;
    let unsigned: u64 = (a as u64) * (b as u64);
    proof {
        vstd::arithmetic::div_mod::lemma_small_mod((ai * bi) as nat, m64 as nat);
    }
    if !signed {
        return unsigned;
    }
    // The signed product differs from the unsigned one by a correction for each
    // negative operand (modulo 2^64).
    let ca: u64 = if a >= 0x8000_0000 {
        (b as u64) * 0x1_0000_0000
    } else {
        0
    };
    let cb: u64 = if b >= 0x8000_0000 {
        (a as u64) * 0x1_0000_0000
    } else {
        0
    };
    let r1 = unsigned.wrapping_sub(ca);
    let r = r1.wrapping_sub(cb);
    proof {
        lemma_signed_product(a, b);
        let cc: int = if a >= 0x8000_0000 && b >= 0x8000_0000 {
            m64
        } else {
            0
        };
        let p = operand_value(a, signed) * operand_value(b, signed);
        assert(p == ai * bi - ca - cb + cc);
        assert(r1 as int == (ai * bi - ca) % m64);
        vstd::arithmetic::div_mod::lemma_sub_mod_noop(ai * bi - ca, cb as int, m64);
        vstd::arithmetic::div_mod::lemma_small_mod(cb as nat, m64 as nat);
        vstd::arithmetic::div_mod::lemma_mod_twice(ai * bi - ca, m64);
        assert(r as int == (ai * bi - ca - cb) % m64);
        if cc != 0 {
            vstd::arithmetic::div_mod::lemma_mod_multiples_vanish(1, ai * bi - ca - cb, m64);
        }
    }
    r
}

} // verus!
