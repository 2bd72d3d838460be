use vstd::prelude::*;

use crate::arm::{bit, ror32, ror, ShiftType};
use crate::bits::{lemma_u64_halves, lemma_word_bits};
use crate::types::{psr_has, Psr};

verus! {

// =============================================================================
// Arithmetic and the barrel shifter
// =============================================================================

/// A 32-bit word read as a two's-complement integer.
pub open spec fn signed32(x: u32) -> int {
    if x >= 0x8000_0000 {
        x - 0x1_0000_0000
    } else {
        x as int
    }
}

/// `x + y + carry_in` as the ARM adder computes it: the 32-bit result, the unsigned
/// carry out, and whether the signed sum left the 32-bit range.
pub open spec fn add_with_carry(x: u32, y: u32, carry_in: bool) -> (u32, bool, bool) {
    let ci: int = if carry_in {
        1
    } else {
        0
    };
    let unsigned_sum = x + y + ci;
    let signed_sum = signed32(x) + signed32(y) + ci;
    (
        (unsigned_sum % 0x1_0000_0000) as u32,
        unsigned_sum >= 0x1_0000_0000,
        signed_sum < -0x8000_0000 || signed_sum >= 0x8000_0000,
    )
}

proof fn lemma_overflow_bits(x: u32, y: u32, r: u32)
    by (bit_vector)
    ensures
        (((x ^ r) & (y ^ r)) >> 31 != 0) == ((x >= 0x8000_0000) == (y >= 0x8000_0000) && (r
            >= 0x8000_0000) != (x >= 0x8000_0000)),
{
}

/// The ARM adder: `x + y + carry_in` with carry out and signed overflow.
pub fn adc(x: u32, y: u32, carry_in: bool) -> (r: (u32, bool, bool))
    ensures
        r == add_with_carry(x, y, carry_in),
{
    let ci: u64 = if carry_in {
        1
    } else {
        0
    };
    let s: u64 = x as u64 + y as u64 + ci;
    let r: u32 = (s & 0xFFFF_FFFF) as u32;
    proof {
        lemma_u64_halves(s);
        lemma_overflow_bits(x, y, r);
    }
    let carry = s > 0xFFFF_FFFF;
    let overflow = ((x ^ r) & (y ^ r)) >> 31 != 0;
    (r, carry, overflow)
}

/// `x - y` with the ARM flags: the adder on `x`, `!y` and a carry in of 1 (so that the
/// carry out means "no borrow").
pub open spec fn sub_flags(x: u32, y: u32) -> (u32, bool, bool) {
    add_with_carry(x, !y, true)
}

/// Arithmetic shift right by 1..31 bits.
pub open spec fn asr32(x: u32, n: u32) -> u32 {
    if bit(x, 31) {
        (x >> n) | !(0xFFFF_FFFFu32 >> n)
    } else {
        x >> n
    }
}

/// The barrel shifter: the shifted value and the shifter carry out. Amount 0 means
/// "no shift" for LSL, a shift by 32 for LSR and ASR, and RRX for ROR; amounts past 32
/// shift everything out.
pub open spec fn shift_spec(v: u32, t: ShiftType, amount: u32, carry: bool) -> (u32, bool) {
    match t {
        ShiftType::Lsl => if amount == 0 {
            (v, carry)
        } else if amount < 32 {
            (v << amount, bit(v, (32 - amount) as u32))
        } else if amount == 32 {
            (0, bit(v, 0))
        } else {
            (0, false)
        },
        ShiftType::Lsr => if amount == 0 || amount == 32 {
            (0, bit(v, 31))
        } else if amount < 32 {
            (v >> amount, bit(v, (amount - 1) as u32))
        } else {
            (0, false)
        },
        ShiftType::Asr => if amount == 0 || amount >= 32 {
            (
                if bit(v, 31) {
                    0xFFFF_FFFF
                } else {
                    0
                },
                bit(v, 31),
            )
        } else {
            (asr32(v, amount), bit(v, (amount - 1) as u32))
        },
        ShiftType::Ror => if amount == 0 {
            (
                (if carry {
                    0x8000_0000u32
                } else {
                    0
                }) | (v >> 1),
                bit(v, 0),
            )
        } else if amount % 32 == 0 {
            (v, bit(v, 31))
        } else {
            (ror32(v, amount % 32), bit(v, ((amount % 32) - 1) as u32))
        },
    }
}

fn bit_at(x: u32, n: u32) -> (r: bool)
    requires
        n < 32,
    ensures
        r == bit(x, n),
{
    (x >> n) & 1 == 1
}

/// Shift `value` through the barrel shifter, returning the result and the shifter carry out
pub fn barrel_shift(value: u32, shift_type: ShiftType, amount: u8, carry: bool) -> (r: (u32, bool))
    ensures
        r == shift_spec(value, shift_type, amount as u32, carry),
{
    let amount: u32 = amount as u32;
    match shift_type {
        ShiftType::Lsl => {
            if amount == 0 {
                (value, carry)
            } else if amount < 32 {
                (value << amount, bit_at(value, 32 - amount))
            } else if amount == 32 {
                (0, bit_at(value, 0))
            } else {
                (0, false)
            }
        },
        ShiftType::Lsr => {
            if amount == 0 || amount == 32 {
                (0, bit_at(value, 31))
            } else if amount < 32 {
                (value >> amount, bit_at(value, amount - 1))
            } else {
                (0, false)
            }
        },
        ShiftType::Asr => {
            let sign = bit_at(value, 31);
            if amount == 0 || amount >= 32 {
                (
                    if sign {
                        0xFFFF_FFFF
                    } else {
                        0
                    },
                    sign,
                )
            } else {
                let shifted = if sign {
                    (value >> amount) | !(0xFFFF_FFFFu32 >> amount)
                } else {
                    value >> amount
                };
                (shifted, bit_at(value, amount - 1))
            }
        },
        ShiftType::Ror => {
            if amount == 0 {
                // RRX: rotate right through carry
                let top: u32 = if carry {
                    0x8000_0000
                } else {
                    0
                };
                (top | (value >> 1), bit_at(value, 0))
            } else {
                let r: u32 = amount % 32;
                if r == 0 {
                    (value, bit_at(value, 31))
                } else {
                    (ror(value, r), bit_at(value, r - 1))
                }
            }
        },
    }
}

// =============================================================================
// Condition codes
// =============================================================================

/// Whether condition `cond` (0..15) holds for the flags of `cpsr`.
pub open spec fn condition_passed(cpsr: u32, cond: u32) -> bool {
    let n = psr_has(cpsr, Psr::N);
    let z = psr_has(cpsr, Psr::Z);
    let c = psr_has(cpsr, Psr::C);
    let v = psr_has(cpsr, Psr::V);
    if cond == 0x0 {
        z  // EQ
    } else if cond == 0x1 {
        !z  // NE
    } else if cond == 0x2 {
        c  // CS/HS
    } else if cond == 0x3 {
        !c  // CC/LO
    } else if cond == 0x4 {
        n  // MI
    } else if cond == 0x5 {
        !n  // PL
    } else if cond == 0x6 {
        v  // VS
    } else if cond == 0x7 {
        !v  // VC
    } else if cond == 0x8 {
        c && !z  // HI
    } else if cond == 0x9 {
        !c || z  // LS
    } else if cond == 0xA {
        n == v  // GE
    } else if cond == 0xB {
        n != v  // LT
    } else if cond == 0xC {
        !z && n == v  // GT
    } else if cond == 0xD {
        z || n != v  // LE
    } else {
        true  // AL, and NV which ARMv4 treats as always

    }
}

// =============================================================================
// Laws of the adder
// =============================================================================

/// The carry out of a subtraction is set exactly when no borrow occurs, and its result is
/// the difference modulo 2^32.
pub proof fn lemma_sub_carry_is_no_borrow(x: u32, y: u32)
    ensures
        sub_flags(x, y).1 == (x >= y),
        sub_flags(x, y).0 as int == (x - y) % 0x1_0000_0000,
{
    lemma_word_bits();
}

/// Comparing a value with itself gives zero with carry set and no overflow.
pub proof fn lemma_sub_self(x: u32)
    ensures
        sub_flags(x, x) == (0u32, true, false),
{
    lemma_word_bits();
}

/// Addition without carry in is commutative in its result and flags.
pub proof fn lemma_add_commutes(x: u32, y: u32)
    ensures
        add_with_carry(x, y, false) == add_with_carry(y, x, false),
{
}

} // verus!
