use vstd::prelude::*;

verus! {

// =============================================================================
// Facts about bit operations shared by the decoders and the memory model
// =============================================================================

/// A mask bounds whatever passes through it.
pub proof fn lemma_and_bound()
    by (bit_vector)
    ensures
        forall|x: u8, m: u8| #[trigger] (x & m) <= m,
        forall|x: u16, m: u16| #[trigger] (x & m) <= m,
        forall|x: u32, m: u32| #[trigger] (x & m) <= m,
        forall|x: u64, m: u64| #[trigger] (x & m) <= m,
{
}

/// The low bit of a word is its remainder modulo 2; the top nibble is below 16;
/// complementing is subtracting from all ones; the power-on CPSR is Supervisor mode with
/// IRQ and FIQ disabled.
pub proof fn lemma_word_bits()
    by (bit_vector)
    ensures
        forall|x: u32| #[trigger] (x & 1) == x % 2,
        forall|x: u32| #[trigger] (x >> 28u32) < 16,
        forall|x: u32| #[trigger] !x == 0xFFFF_FFFF - x,
        0x13u32 | 0x80u32 | 0x40u32 == 0xD3u32,
{
}

/// The two halves of a doubleword, and its sign bit.
pub proof fn lemma_u64_halves(x: u64)
    by (bit_vector)
    ensures
        (x & 0xFFFF_FFFF) as u32 == x % 0x1_0000_0000,
        (x >> 32) as u32 == x / 0x1_0000_0000,
        ((x >> 63) != 0) == (x >= 0x8000_0000_0000_0000),
{
}

/// An arithmetic shift right by 8 divides by 256, rounding down, so it keeps a 25-bit
/// signed number within 17 bits.
pub proof fn lemma_shr8_bound()
    by (bit_vector)
    ensures
        forall|s: i32|
            -0x0100_0000 <= s < 0x0100_0000 ==> -0x1_0000 <= #[trigger] (s >> 8i32) < 0x1_0000,
{
}

/// Clearing a flag leaves it clear; setting a flag leaves it set.
pub proof fn lemma_half_flags()
    by (bit_vector)
    ensures
        forall|x: u16, b: u16| #[trigger] ((x & !b) & b) == 0u16,
        forall|x: u16, b: u16| #[trigger] ((x | b) & b) == b,
{
}

} // verus!
