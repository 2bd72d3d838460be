use vstd::prelude::*;

use crate::bits::lemma_and_bound;

verus! {

// =============================================================================
// ARM instruction decoding
// =============================================================================
//
// ARM instructions are 32-bit, condition code in bits [31:28].
// Instruction format determined by bits [27:20] and [7:4].

/// Data-processing opcodes (bits 24..21)
#[derive(Debug, Clone, Copy, PartialEq, Eq, Structural)]
pub enum AluOp {
    And,
    Eor,
    Sub,
    Rsb,
    Add,
    Adc,
    Sbc,
    Rsc,
    Tst,
    Teq,
    Cmp,
    Cmn,
    Orr,
    Mov,
    Bic,
    Mvn,
}

/// Shift types of the barrel shifter (bits 6..5)
#[derive(Debug, Clone, Copy, PartialEq, Eq, Structural)]
pub enum ShiftType {
    Lsl,
    Lsr,
    Asr,
    Ror,
}

/// Second operand of a data-processing instruction
#[derive(Debug, Clone, Copy, PartialEq, Eq, Structural)]
pub enum ShifterOperand {
    /// 8-bit immediate rotated right by twice the 4-bit rotate field
    Immediate { imm: u32, rotate: u32 },
    /// Register shifted by an immediate amount
    RegisterImm { rm: usize, shift_type: ShiftType, amount: u8 },
    /// Register shifted by the bottom byte of another register
    RegisterReg { rm: usize, shift_type: ShiftType, rs: usize },
}

/// Offset of a single data transfer
#[derive(Debug, Clone, Copy, PartialEq, Eq, Structural)]
pub enum TransferOffset {
    /// 12-bit unsigned immediate
    Immediate(u32),
    /// Register shifted by an immediate amount
    Register { rm: usize, shift_type: ShiftType, amount: u8 },
}

/// Offset of a halfword / signed data transfer
#[derive(Debug, Clone, Copy, PartialEq, Eq, Structural)]
pub enum HalfwordOffset {
    /// 8-bit unsigned immediate
    Immediate(u32),
    /// Register offset
    Register(usize),
}

/// Source operand of MSR
#[derive(Debug, Clone, Copy, PartialEq, Eq, Structural)]
pub enum MsrOperand {
    /// Rotated 8-bit immediate
    Immediate(u32),
    /// Register
    Register(usize),
}

/// A decoded ARM instruction
#[derive(Debug, Clone, Copy, PartialEq, Eq, Structural)]
pub enum ArmInstruction {
    BranchExchange { rn: usize },
    Branch { link: bool, offset: i32 },
    DataProcessing {
        opcode: AluOp,
        set_flags: bool,
        rn: usize,
        rd: usize,
        operand2: ShifterOperand,
    },
    Multiply { accumulate: bool, set_flags: bool, rd: usize, rn: usize, rs: usize, rm: usize },
    MultiplyLong {
        signed: bool,
        accumulate: bool,
        set_flags: bool,
        rd_hi: usize,
        rd_lo: usize,
        rs: usize,
        rm: usize,
    },
    SingleTransfer {
        load: bool,
        byte: bool,
        write_back: bool,
        up: bool,
        pre: bool,
        rn: usize,
        rd: usize,
        offset: TransferOffset,
    },
    HalfwordTransfer {
        load: bool,
        write_back: bool,
        up: bool,
        pre: bool,
        signed: bool,
        half: bool,
        rn: usize,
        rd: usize,
        offset: HalfwordOffset,
    },
    BlockTransfer {
        load: bool,
        write_back: bool,
        up: bool,
        pre: bool,
        s_bit: bool,
        rn: usize,
        register_list: u16,
    },
    Swap { byte: bool, rn: usize, rd: usize, rm: usize },
    Mrs { spsr: bool, rd: usize },
    Msr { spsr: bool, field_mask: u8, operand: MsrOperand },
    Swi { comment: u32 },
    Undefined,
}

/// Whether bit `n` of `x` is set.
pub open spec fn bit(x: u32, n: u32) -> bool {
    (x >> n) & 1 == 1
}

/// The 4-bit register field of `x` that starts at bit `n`.
pub open spec fn reg_field(x: u32, n: u32) -> usize {
    ((x >> n) & 0xF) as usize
}

/// Rotate right by `r` (0..31) bits.
pub open spec fn ror32(x: u32, r: u32) -> u32 {
    if r == 0 {
        x
    } else {
        (x >> r) | (x << ((32 - r) as u32))
    }
}

/// A 24-bit two's-complement field, as an integer.
pub open spec fn sext24(x: u32) -> int {
    if x >= 0x80_0000 {
        x - 0x100_0000
    } else {
        x as int
    }
}

pub open spec fn alu_op_of(n: u32) -> AluOp {
    if n == 0 {
        AluOp::And
    } else if n == 1 {
        AluOp::Eor
    } else if n == 2 {
        AluOp::Sub
    } else if n == 3 {
        AluOp::Rsb
    } else if n == 4 {
        AluOp::Add
    } else if n == 5 {
        AluOp::Adc
    } else if n == 6 {
        AluOp::Sbc
    } else if n == 7 {
        AluOp::Rsc
    } else if n == 8 {
        AluOp::Tst
    } else if n == 9 {
        AluOp::Teq
    } else if n == 10 {
        AluOp::Cmp
    } else if n == 11 {
        AluOp::Cmn
    } else if n == 12 {
        AluOp::Orr
    } else if n == 13 {
        AluOp::Mov
    } else if n == 14 {
        AluOp::Bic
    } else {
        AluOp::Mvn
    }
}

pub open spec fn shift_type_of(n: u32) -> ShiftType {
    if n == 0 {
        ShiftType::Lsl
    } else if n == 1 {
        ShiftType::Lsr
    } else if n == 2 {
        ShiftType::Asr
    } else {
        ShiftType::Ror
    }
}

/// The instruction that the 32-bit word `i` encodes (condition field aside), following
/// the ARMv4T encoding table in the order: BX, B/BL, MUL/MLA, UMULL..SMLAL, SWP,
/// halfword and signed transfers, MRS, MSR, data processing, undefined, LDR/STR,
/// LDM/STM, SWI; coprocessor space decodes as undefined.
pub open spec fn decode_arm_spec(i: u32) -> ArmInstruction {
    if i & 0x0FFF_FFF0 == 0x012F_FF10 {
        ArmInstruction::BranchExchange { rn: reg_field(i, 0) }
    } else if i & 0x0E00_0000 == 0x0A00_0000 {
        ArmInstruction::Branch {
            link: bit(i, 24),
            offset: (sext24(i & 0x00FF_FFFF) * 4) as i32,
        }
    } else if i & 0x0FC0_00F0 == 0x0000_0090 {
        ArmInstruction::Multiply {
            accumulate: bit(i, 21),
            set_flags: bit(i, 20),
            rd: reg_field(i, 16),
            rn: reg_field(i, 12),
            rs: reg_field(i, 8),
            rm: reg_field(i, 0),
        }
    } else if i & 0x0F80_00F0 == 0x0080_0090 {
        ArmInstruction::MultiplyLong {
            signed: bit(i, 22),
            accumulate: bit(i, 21),
            set_flags: bit(i, 20),
            rd_hi: reg_field(i, 16),
            rd_lo: reg_field(i, 12),
            rs: reg_field(i, 8),
            rm: reg_field(i, 0),
        }
    } else if i & 0x0FB0_0FF0 == 0x0100_0090 {
        ArmInstruction::Swap {
            byte: bit(i, 22),
            rn: reg_field(i, 16),
            rd: reg_field(i, 12),
            rm: reg_field(i, 0),
        }
    } else if i & 0x0E00_0090 == 0x0000_0090 && i & 0x60 != 0 {
        ArmInstruction::HalfwordTransfer {
            load: bit(i, 20),
            write_back: bit(i, 21),
            up: bit(i, 23),
            pre: bit(i, 24),
            signed: bit(i, 6),
            half: bit(i, 5),
            rn: reg_field(i, 16),
            rd: reg_field(i, 12),
            offset: if bit(i, 22) {
                HalfwordOffset::Immediate(((i >> 4) & 0xF0) | (i & 0xF))
            } else {
                HalfwordOffset::Register(reg_field(i, 0))
            },
        }
    } else if i & 0x0FBF_0FFF == 0x010F_0000 {
        ArmInstruction::Mrs { spsr: bit(i, 22), rd: reg_field(i, 12) }
    } else if i & 0x0DB0_F000 == 0x0120_F000 {
        ArmInstruction::Msr {
            spsr: bit(i, 22),
            field_mask: ((i >> 16) & 0xF) as u8,
            operand: if bit(i, 25) {
                MsrOperand::Immediate(ror32(i & 0xFF, (((i >> 8) & 0xF) * 2) as u32))
            } else {
                MsrOperand::Register(reg_field(i, 0))
            },
        }
    } else if i & 0x0C00_0000 == 0 {
        ArmInstruction::DataProcessing {
            opcode: alu_op_of((i >> 21) & 0xF),
            set_flags: bit(i, 20),
            rn: reg_field(i, 16),
            rd: reg_field(i, 12),
            operand2: if bit(i, 25) {
                ShifterOperand::Immediate { imm: i & 0xFF, rotate: (i >> 8) & 0xF }
            } else if bit(i, 4) {
                ShifterOperand::RegisterReg {
                    rm: reg_field(i, 0),
                    shift_type: shift_type_of((i >> 5) & 3),
                    rs: reg_field(i, 8),
                }
            } else {
                ShifterOperand::RegisterImm {
                    rm: reg_field(i, 0),
                    shift_type: shift_type_of((i >> 5) & 3),
                    amount: ((i >> 7) & 0x1F) as u8,
                }
            },
        }
    } else if i & 0x0E00_0010 == 0x0600_0010 {
        ArmInstruction::Undefined
    } else if i & 0x0C00_0000 == 0x0400_0000 {
        ArmInstruction::SingleTransfer {
            load: bit(i, 20),
            byte: bit(i, 22),
            write_back: bit(i, 21),
            up: bit(i, 23),
            pre: bit(i, 24),
            rn: reg_field(i, 16),
            rd: reg_field(i, 12),
            offset: if bit(i, 25) {
                TransferOffset::Register {
                    rm: reg_field(i, 0),
                    shift_type: shift_type_of((i >> 5) & 3),
                    amount: ((i >> 7) & 0x1F) as u8,
                }
            } else {
                TransferOffset::Immediate(i & 0xFFF)
            },
        }
    } else if i & 0x0E00_0000 == 0x0800_0000 {
        ArmInstruction::BlockTransfer {
            load: bit(i, 20),
            write_back: bit(i, 21),
            up: bit(i, 23),
            pre: bit(i, 24),
            s_bit: bit(i, 22),
            rn: reg_field(i, 16),
            register_list: (i & 0xFFFF) as u16,
        }
    } else if i & 0x0F00_0000 == 0x0F00_0000 {
        ArmInstruction::Swi { comment: i & 0x00FF_FFFF }
    } else {
        ArmInstruction::Undefined
    }
}

fn bit_of(x: u32, n: u32) -> (r: bool)
    requires
        n < 32,
    ensures
        r == bit(x, n),
{
    (x >> n) & 1 == 1
}

fn reg_of(x: u32, n: u32) -> (r: usize)
    requires
        n < 32,
    ensures
        r == reg_field(x, n),
        r < 16,
{
    let v: u32 = (x >> n) & 0xF;
    proof {
        lemma_and_bound();
    }
    v as usize
}

/// Rotate right by `r` (0..31) bits.
pub fn ror(x: u32, r: u32) -> (v: u32)
    requires
        r < 32,
    ensures
        v == ror32(x, r),
{
    if r == 0 {
        x
    } else {
        (x >> r) | (x << (32 - r))
    }
}

fn alu_op_from(n: u32) -> (r: AluOp)
    ensures
        r == alu_op_of(n),
{
    if n == 0 {
        AluOp::And
    } else if n == 1 {
        AluOp::Eor
    } else if n == 2 {
        AluOp::Sub
    } else if n == 3 {
        AluOp::Rsb
    } else if n == 4 {
        AluOp::Add
    } else if n == 5 {
        AluOp::Adc
    } else if n == 6 {
        AluOp::Sbc
    } else if n == 7 {
        AluOp::Rsc
    } else if n == 8 {
        AluOp::Tst
    } else if n == 9 {
        AluOp::Teq
    } else if n == 10 {
        AluOp::Cmp
    } else if n == 11 {
        AluOp::Cmn
    } else if n == 12 {
        AluOp::Orr
    } else if n == 13 {
        AluOp::Mov
    } else if n == 14 {
        AluOp::Bic
    } else {
        AluOp::Mvn
    }
}

pub fn shift_type_from(n: u32) -> (r: ShiftType)
    ensures
        r == shift_type_of(n),
{
    if n == 0 {
        ShiftType::Lsl
    } else if n == 1 {
        ShiftType::Lsr
    } else if n == 2 {
        ShiftType::Asr
    } else {
        ShiftType::Ror
    }
}

/// Decode an ARM instruction word (the condition field is checked by the caller)
pub fn decode_arm(i: u32) -> (r: ArmInstruction)
    ensures
        r == decode_arm_spec(i),
{
    if i & 0x0FFF_FFF0 == 0x012F_FF10 {
        ArmInstruction::BranchExchange { rn: reg_of(i, 0) }
    } else if i & 0x0E00_0000 == 0x0A00_0000 {
        let raw: u32 = i & 0x00FF_FFFF;
        proof {
            lemma_and_bound();
        }
        let off: i32 = if raw >= 0x80_0000 {
            (raw as i32) - 0x100_0000
        } else {
            raw as i32
        };
        ArmInstruction::Branch { link: bit_of(i, 24), offset: off * 4 }
    } else if i & 0x0FC0_00F0 == 0x0000_0090 {
        ArmInstruction::Multiply {
            accumulate: bit_of(i, 21),
            set_flags: bit_of(i, 20),
            rd: reg_of(i, 16),
            rn: reg_of(i, 12),
            rs: reg_of(i, 8),
            rm: reg_of(i, 0),
        }
    } else if i & 0x0F80_00F0 == 0x0080_0090 {
        ArmInstruction::MultiplyLong {
            signed: bit_of(i, 22),
            accumulate: bit_of(i, 21),
            set_flags: bit_of(i, 20),
            rd_hi: reg_of(i, 16),
            rd_lo: reg_of(i, 12),
            rs: reg_of(i, 8),
            rm: reg_of(i, 0),
        }
    } else if i & 0x0FB0_0FF0 == 0x0100_0090 {
        ArmInstruction::Swap {
            byte: bit_of(i, 22),
            rn: reg_of(i, 16),
            rd: reg_of(i, 12),
            rm: reg_of(i, 0),
        }
    } else if i & 0x0E00_0090 == 0x0000_0090 && i & 0x60 != 0 {
        ArmInstruction::HalfwordTransfer {
            load: bit_of(i, 20),
            write_back: bit_of(i, 21),
            up: bit_of(i, 23),
            pre: bit_of(i, 24),
            signed: bit_of(i, 6),
            half: bit_of(i, 5),
            rn: reg_of(i, 16),
            rd: reg_of(i, 12),
            offset: if bit_of(i, 22) {
                HalfwordOffset::Immediate(((i >> 4) & 0xF0) | (i & 0xF))
            } else {
                HalfwordOffset::Register(reg_of(i, 0))
            },
        }
    } else if i & 0x0FBF_0FFF == 0x010F_0000 {
        ArmInstruction::Mrs { spsr: bit_of(i, 22), rd: reg_of(i, 12) }
    } else if i & 0x0DB0_F000 == 0x0120_F000 {
        let mask: u32 = (i >> 16) & 0xF;
        proof {
            lemma_and_bound();
        }
        let operand = if bit_of(i, 25) {
            let rot: u32 = (i >> 8) & 0xF;
            proof {
                lemma_and_bound();
            }
            MsrOperand::Immediate(ror(i & 0xFF, rot * 2))
        } else {
            MsrOperand::Register(reg_of(i, 0))
        };
        ArmInstruction::Msr { spsr: bit_of(i, 22), field_mask: mask as u8, operand }
    } else if i & 0x0C00_0000 == 0 {
        let operand2 = if bit_of(i, 25) {
            ShifterOperand::Immediate { imm: i & 0xFF, rotate: (i >> 8) & 0xF }
        } else if bit_of(i, 4) {
            ShifterOperand::RegisterReg {
                rm: reg_of(i, 0),
                shift_type: shift_type_from((i >> 5) & 3),
                rs: reg_of(i, 8),
            }
        } else {
            ShifterOperand::RegisterImm {
                rm: reg_of(i, 0),
                shift_type: shift_type_from((i >> 5) & 3),
                amount: ((i >> 7) & 0x1F) as u8,
            }
        };
        ArmInstruction::DataProcessing {
            opcode: alu_op_from((i >> 21) & 0xF),
            set_flags: bit_of(i, 20),
            rn: reg_of(i, 16),
            rd: reg_of(i, 12),
            operand2,
        }
    } else if i & 0x0E00_0010 == 0x0600_0010 {
        ArmInstruction::Undefined
    } else if i & 0x0C00_0000 == 0x0400_0000 {
        let offset = if bit_of(i, 25) {
            TransferOffset::Register {
                rm: reg_of(i, 0),
                shift_type: shift_type_from((i >> 5) & 3),
                amount: ((i >> 7) & 0x1F) as u8,
            }
        } else {
            TransferOffset::Immediate(i & 0xFFF)
        };
        ArmInstruction::SingleTransfer {
            load: bit_of(i, 20),
            byte: bit_of(i, 22),
            write_back: bit_of(i, 21),
            up: bit_of(i, 23),
            pre: bit_of(i, 24),
            rn: reg_of(i, 16),
            rd: reg_of(i, 12),
            offset,
        }
    } else if i & 0x0E00_0000 == 0x0800_0000 {
        ArmInstruction::BlockTransfer {
            load: bit_of(i, 20),
            write_back: bit_of(i, 21),
            up: bit_of(i, 23),
            pre: bit_of(i, 24),
            s_bit: bit_of(i, 22),
            rn: reg_of(i, 16),
            register_list: (i & 0xFFFF) as u16,
        }
    } else if i & 0x0F00_0000 == 0x0F00_0000 {
        ArmInstruction::Swi { comment: i & 0x00FF_FFFF }
    } else {
        ArmInstruction::Undefined
    }
}

/// Every register field that the decoder produces names one of R0..R15.
pub proof fn lemma_decode_fields_in_range(i: u32)
    ensures
        match decode_arm_spec(i) {
            ArmInstruction::BranchExchange { rn } => rn < 16,
            ArmInstruction::DataProcessing { rn, rd, operand2, .. } => rn < 16 && rd < 16 && match operand2 {
                ShifterOperand::RegisterImm { rm, .. } => rm < 16,
                ShifterOperand::RegisterReg { rm, rs, .. } => rm < 16 && rs < 16,
                ShifterOperand::Immediate { rotate, .. } => rotate < 16,
            },
            ArmInstruction::Branch { offset, .. } => -0x0200_0000 <= offset < 0x0200_0000,
            ArmInstruction::Multiply { rd, rn, rs, rm, .. } => rd < 16 && rn < 16 && rs < 16 && rm < 16,
            ArmInstruction::MultiplyLong { rd_hi, rd_lo, rs, rm, .. } => rd_hi < 16 && rd_lo < 16
                && rs < 16 && rm < 16,
            ArmInstruction::SingleTransfer { rn, rd, offset, .. } => rn < 16 && rd < 16 && match offset {
                TransferOffset::Register { rm, .. } => rm < 16,
                _ => true,
            },
            ArmInstruction::HalfwordTransfer { rn, rd, offset, .. } => rn < 16 && rd < 16 && match offset {
                HalfwordOffset::Register(rm) => rm < 16,
                _ => true,
            },
            ArmInstruction::BlockTransfer { rn, .. } => rn < 16,
            ArmInstruction::Swap { rn, rd, rm, .. } => rn < 16 && rd < 16 && rm < 16,
            ArmInstruction::Mrs { rd, .. } => rd < 16,
            ArmInstruction::Msr { operand, .. } => match operand {
                MsrOperand::Register(rm) => rm < 16,
                _ => true,
            },
            _ => true,
        },
{
    lemma_and_bound();
    assert forall|n: u32| n < 32 implies reg_field(i, n) < 16 by {
        assert((i >> n) & 0xF <= 0xF);
    }
    assert((i >> 8) & 0xF <= 0xF);
    assert(i & 0x00FF_FFFF <= 0x00FF_FFFF);
    assert(reg_field(i, 0) < 16);
    assert(reg_field(i, 8) < 16);
    assert(reg_field(i, 12) < 16);
    assert(reg_field(i, 16) < 16);
}

} // verus!
