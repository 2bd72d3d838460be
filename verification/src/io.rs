use vstd::prelude::*;

use crate::bus::{Bus, BusView};
use crate::constants::{
    REG_BG2X, REG_BG2Y, REG_BG3X, REG_BG3Y, REG_DISPSTAT, REG_FIFO_A, REG_FIFO_B, REG_IE,
    REG_IF, REG_IME, REG_KEYINPUT, REG_VCOUNT, REG_WAITCNT, TOTAL_LINES, VISIBLE_LINES,
};

verus! {

// =============================================================================
// I/O register model
// =============================================================================

impl BusView {
    /// The little-endian halfword stored at I/O offset `off` (0 past the end).
    pub open spec fn io_half(self, off: int) -> u16 {
        if 0 <= off && off + 1 < self.io.len() {
            (self.io[off] as u16) | ((self.io[off + 1] as u16) << 8)
        } else {
            0
        }
    }

    /// The bus with the halfword `x` stored at I/O offset `off` (unchanged past the end).
    pub open spec fn with_io_half(self, off: int, x: u16) -> BusView {
        if 0 <= off && off + 1 < self.io.len() {
            BusView { io: self.io.update(off, x as u8).update(off + 1, (x >> 8) as u8), ..self }
        } else {
            self
        }
    }

    /// What a 16-bit read of I/O register `off` returns: KEYINPUT and WAITCNT come from
    /// their latches, everything else from I/O memory.
    pub open spec fn io_read16(self, off: u32) -> u16 {
        if off == REG_KEYINPUT {
            self.keyinput
        } else if off == REG_WAITCNT {
            self.waitcnt
        } else {
            self.io_half(off as int)
        }
    }

    /// The bus after a 16-bit write of `x` to I/O register `off`: DISPSTAT keeps its three
    /// status bits, VCOUNT is read-only, writing IF acknowledges the written bits,
    /// WAITCNT also updates the wait-state and prefetch latches, IME keeps bit 0 only.
    pub open spec fn io_write16(self, off: u32, x: u16) -> BusView {
        if off == REG_DISPSTAT {
            self.with_io_half(off as int, (self.io_half(off as int) & 0x0007) | (x & 0xFFF8))
        } else if off == REG_VCOUNT {
            self
        } else if off == REG_IF {
            self.with_io_half(off as int, self.io_half(off as int) & !x)
        } else if off == REG_WAITCNT {
            BusView { waitcnt: x, prefetch_enabled: x & 0x4000 != 0, ..self }.with_io_half(
                off as int,
                x,
            )
        } else if off == REG_IME {
            self.with_io_half(off as int, x & 1)
        } else {
            self.with_io_half(off as int, x)
        }
    }

    /// The bus after a 32-bit write to I/O register `off`: the BG reference points and the
    /// sound FIFOs store both halves directly, other registers take two 16-bit writes.
    pub open spec fn io_write32(self, off: u32, x: u32) -> BusView {
        if off == REG_BG2X || off == REG_BG2Y || off == REG_BG3X || off == REG_BG3Y
            || off == REG_FIFO_A || off == REG_FIFO_B {
            self.with_io_half(off as int, x as u16).with_io_half(off + 2, (x >> 16) as u16)
        } else {
            self.io_write16(off, x as u16).io_write16((off + 2) as u32, (x >> 16) as u16)
        }
    }

    /// The bus with the bits of `irq` raised in IF.
    pub open spec fn request_interrupt(self, irq: u16) -> BusView {
        self.with_io_half(REG_IF as int, self.io_half(REG_IF as int) | irq)
    }

    /// Whether IME is set and some interrupt is both enabled in IE and raised in IF.
    pub open spec fn has_pending_irq(self) -> bool {
        self.io_half(REG_IME as int) & 1 != 0 && self.io_half(REG_IE as int) & self.io_half(
            REG_IF as int,
        ) != 0
    }

    /// The bus with VCOUNT set to `vcount` and the three DISPSTAT status bits recomputed:
    /// bit 0 VBlank (lines 160..228), bit 1 HBlank, bit 2 V-counter match.
    pub open spec fn update_display_status(self, vcount: u16, hblank: bool) -> BusView {
        let v1 = self.with_io_half(REG_VCOUNT as int, vcount);
        let dispstat = v1.io_half(REG_DISPSTAT as int);
        let vblank_bit: u16 = if VISIBLE_LINES <= vcount < TOTAL_LINES { 1 } else { 0 };
        let hblank_bit: u16 = if hblank { 2 } else { 0 };
        let match_bit: u16 = if vcount == dispstat >> 8 { 4 } else { 0 };
        v1.with_io_half(
            REG_DISPSTAT as int,
            (dispstat & 0xFFF8) | vblank_bit | hblank_bit | match_bit,
        )
    }
}

pub proof fn lemma_half_bytes(x: u16)
    by (bit_vector)
    ensures
        ((x as u8) as u16) | (((x >> 8) as u8) as u16) << 8 == x,
{
}

/// Or-ing in nothing changes nothing; a raised enabled bit stays raised; clearing bits
/// leaves none of them set.
proof fn lemma_flag_bits()
    by (bit_vector)
    ensures
        forall|x: u16| #[trigger] (x | 0u16) == x,
        forall|e: u16, i: u16, q: u16| e & q != 0 ==> #[trigger] (e & (i | q)) != 0,
        forall|i: u16, q: u16| #[trigger] ((i & !q) & q) == 0,
{
}

// =============================================================================
// I/O register read/write with side effects
// =============================================================================

impl Bus {
    /// Read a 16-bit I/O register with proper behavior
    pub fn io_read16(&self, offset: u32) -> (r: u16)
        ensures
            r == self@.io_read16(offset),
    {
        if offset == REG_KEYINPUT {
            self.keyinput
        } else if offset == REG_WAITCNT {
            self.waitcnt
        } else {
            // VCOUNT, DISPSTAT, IE, IF, IME and the timer counters read their stored value.
            self.io_read16_raw(offset)
        }
    }

    /// Write a 16-bit I/O register with side effects
    pub fn io_write16(&mut self, offset: u32, value: u16)
        ensures
            final(self)@ == old(self)@.io_write16(offset, value),
    {
        if offset == REG_DISPSTAT {
            // Only bits 3-15 are writable (VCount setting, IRQ enables)
            let old_val = self.io_read16_raw(offset);
            let new_val = (old_val & 0x0007) | (value & 0xFFF8);
            self.io_write16_raw(offset, new_val);
        } else if offset == REG_VCOUNT {
            // Read-only
        } else if offset == REG_IF {
            // Writing 1 to a bit acknowledges (clears) that interrupt
            let current = self.io_read16_raw(REG_IF);
            self.io_write16_raw(REG_IF, current & !value);
        } else if offset == REG_WAITCNT {
            self.waitcnt = value;
            self.prefetch_enabled = value & 0x4000 != 0;
            self.io_write16_raw(offset, value);
        } else if offset == REG_IME {
            self.io_write16_raw(offset, value & 1);
        } else {
            // Display, background, window, blending, sound, DMA, timer, keypad and IE
            // registers store the written value.
            self.io_write16_raw(offset, value);
        }
    }

    /// Write a 32-bit value to I/O (for BG2X/Y, BG3X/Y, FIFO, DMA addresses)
    pub fn io_write32(&mut self, offset: u32, value: u32)
        requires
            offset + 2 <= u32::MAX,
        ensures
            final(self)@ == old(self)@.io_write32(offset, value),
    {
        if offset == REG_BG2X || offset == REG_BG2Y || offset == REG_BG3X || offset == REG_BG3Y
        {
            self.io_write16_raw(offset, value as u16);
            self.io_write16_raw(offset + 2, (value >> 16) as u16);
        } else if offset == REG_FIFO_A || offset == REG_FIFO_B {
            // 32-bit FIFO writes push 4 bytes
            self.io_write16_raw(offset, value as u16);
            self.io_write16_raw(offset + 2, (value >> 16) as u16);
        } else {
            self.io_write16(offset, value as u16);
            self.io_write16(offset + 2, (value >> 16) as u16);
        }
    }

    /// Request an interrupt
    pub fn request_interrupt(&mut self, irq: u16)
        ensures
            final(self)@ == old(self)@.request_interrupt(irq),
    {
        let current = self.io_read16_raw(REG_IF);
        self.io_write16_raw(REG_IF, current | irq);
    }

    /// Check if there are pending, enabled interrupts
    pub fn has_pending_irq(&self) -> (r: bool)
        ensures
            r == self@.has_pending_irq(),
    {
        let ime = self.io_read16_raw(REG_IME) & 1 != 0;
        if !ime {
            return false;
        }
        let ie = self.io_read16_raw(REG_IE);
        let if_ = self.io_read16_raw(REG_IF);
        ie & if_ != 0
    }

    /// Update DISPSTAT and VCOUNT registers
    pub fn update_display_status(&mut self, vcount: u16, hblank: bool)
        ensures
            final(self)@ == old(self)@.update_display_status(vcount, hblank),
    {
        self.io_write16_raw(REG_VCOUNT, vcount);

        let dispstat = self.io_read16_raw(REG_DISPSTAT);
        let vcount_setting = dispstat >> 8;

        let mut new_dispstat = dispstat & 0xFFF8;  // clear status bits

        // Bit 0: V-Blank flag
        if vcount >= VISIBLE_LINES as u16 && vcount < TOTAL_LINES as u16 {
            new_dispstat = new_dispstat | 1;
        }
        // Bit 1: H-Blank flag
        if hblank {
            new_dispstat = new_dispstat | 2;
        }
        // Bit 2: V-Counter match flag
        if vcount == vcount_setting {
            new_dispstat = new_dispstat | 4;
        }
        proof {
            let d = dispstat & 0xFFF8;
            let b0: u16 = if vcount >= 160 && vcount < 228 { 1 } else { 0 };
            let b1: u16 = if hblank { 2 } else { 0 };
            let b2: u16 = if vcount == vcount_setting { 4 } else { 0 };
            assert((d | b0) | b1 == d | b0 | b1);
            lemma_flag_bits();
            assert(b0 == 0 ==> d | b0 == d);
            assert(b1 == 0 ==> (d | b0) | b1 == d | b0);
            assert(b2 == 0 ==> (d | b0 | b1) | b2 == d | b0 | b1);
        }
        self.io_write16_raw(REG_DISPSTAT, new_dispstat);
    }

    // Raw read/write helpers (no side effects)

    pub(crate) fn io_read16_raw(&self, offset: u32) -> (r: u16)
        ensures
            r == self@.io_half(offset as int),
    {
        let idx = offset as usize;
        if idx < self.io.len() && idx + 1 < self.io.len() {
            self.io[idx] as u16 | ((self.io[idx + 1] as u16) << 8)
        } else {
            0
        }
    }

    pub(crate) fn io_write16_raw(&mut self, offset: u32, value: u16)
        ensures
            final(self)@ == old(self)@.with_io_half(offset as int, value),
    {
        let idx = offset as usize;
        if idx < self.io.len() && idx + 1 < self.io.len() {
            self.io.set(idx, value as u8);
            self.io.set(idx + 1, (value >> 8) as u8);
        }
    }
}

// =============================================================================
// Laws of the I/O registers
// =============================================================================

/// A requested interrupt that IE enables is pending when IME is set.
pub proof fn lemma_request_makes_pending(v: BusView, irq: u16)
    requires
        v.wf(),
        v.io_half(REG_IME as int) & 1 != 0,
        v.io_half(REG_IE as int) & irq != 0,
    ensures
        v.request_interrupt(irq).has_pending_irq(),
{
    let f = v.io_half(REG_IF as int) | irq;
    let v2 = v.request_interrupt(irq);
    lemma_half_bytes(f);
    assert(v2.io_half(REG_IF as int) == f);
    assert(v2.io_half(REG_IME as int) == v.io_half(REG_IME as int));
    assert(v2.io_half(REG_IE as int) == v.io_half(REG_IE as int));
    let e = v.io_half(REG_IE as int);
    let i = v.io_half(REG_IF as int);
    lemma_flag_bits();
    assert(e & (i | irq) != 0);
}

/// Writing bits to IF clears exactly those bits.
pub proof fn lemma_acknowledge_clears(v: BusView, irq: u16)
    requires
        v.wf(),
    ensures
        v.io_write16(REG_IF, irq).io_half(REG_IF as int) == v.io_half(REG_IF as int) & !irq,
        v.io_write16(REG_IF, irq).io_half(REG_IF as int) & irq == 0,
{
    let i = v.io_half(REG_IF as int);
    let f = i & !irq;
    lemma_half_bytes(f);
    lemma_flag_bits();
    assert((i & !irq) & irq == 0);
}

/// Without IME no interrupt is pending.
pub proof fn lemma_ime_clear_no_pending(v: BusView)
    requires
        v.io_half(REG_IME as int) & 1 == 0,
    ensures
        !v.has_pending_irq(),
{
}

/// A 16-bit write to a register that stores its value is read back unchanged.
pub proof fn lemma_io_write_read(v: BusView, off: u32, x: u16)
    requires
        v.wf(),
        off + 1 < 0x400,
        off != REG_DISPSTAT,
        off != REG_VCOUNT,
        off != REG_IF,
        off != REG_IME,
        off != REG_KEYINPUT,
    ensures
        v.io_write16(off, x).io_read16(off) == x,
{
    lemma_half_bytes(x);
}

} // verus!
