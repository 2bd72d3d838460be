use vstd::prelude::*;

use crate::constants::{
    BIOS_SIZE, EWRAM_SIZE, IO_SIZE, IWRAM_SIZE, OAM_SIZE, PALETTE_SIZE, REG_KEYINPUT, SRAM_SIZE,
    VRAM_SIZE,
};
use crate::types::{AccessType, AccessWidth};

verus! {

// =============================================================================
// Memory model
// =============================================================================

/// The contents of the memory bus as plain values.
#[verifier::ext_equal]
pub struct BusView {
    pub bios: Seq<u8>,
    pub ewram: Seq<u8>,
    pub iwram: Seq<u8>,
    pub io: Seq<u8>,
    pub palette: Seq<u8>,
    pub vram: Seq<u8>,
    pub oam: Seq<u8>,
    pub rom: Seq<u8>,
    pub sram: Seq<u8>,
    pub keyinput: u16,
    pub bios_latch: u32,
    pub waitcnt: u16,
    pub prefetch_enabled: bool,
}

/// The memory region (bits 24..32) that an address selects.
pub open spec fn region(a: u32) -> int {
    a as int / 0x100_0000
}

/// Offset into VRAM of an offset within the 128 KB VRAM window: the upper 32 KB
/// mirror the 32 KB below them.
pub open spec fn vram_index(o: int) -> int {
    if o >= 0x18000 {
        o - 0x8000
    } else {
        o
    }
}

/// The value an unmapped ROM read gives: the halfword (address >> 1), byte selected by
/// bit 0 of the address.
pub open spec fn rom_open_bus(a: u32) -> u8 {
    let h = a as int / 2;
    (if a % 2 == 0 {
        h % 256
    } else {
        (h / 256) % 256
    }) as u8
}

impl BusView {
    /// Every memory region has the size of the hardware region it models.
    pub open spec fn wf(self) -> bool {
        &&& self.bios.len() == BIOS_SIZE
        &&& self.ewram.len() == EWRAM_SIZE
        &&& self.iwram.len() == IWRAM_SIZE
        &&& self.io.len() == IO_SIZE
        &&& self.palette.len() == PALETTE_SIZE
        &&& self.vram.len() == VRAM_SIZE
        &&& self.oam.len() == OAM_SIZE
        &&& self.sram.len() == SRAM_SIZE
    }

    /// The byte that a read of address `a` returns.
    pub open spec fn read_byte(self, a: u32) -> u8 {
        let r = region(a);
        if r == 0x00 {
            let off = a as int % 0x4000;
            if off < self.bios.len() {
                self.bios[off]
            } else {
                0
            }
        } else if r == 0x02 {
            self.ewram[a as int % 0x40000]
        } else if r == 0x03 {
            self.iwram[a as int % 0x8000]
        } else if r == 0x04 {
            let off = a as int % 0x400;
            if off == 0x130 {
                (self.keyinput % 256) as u8
            } else if off == 0x131 {
                (self.keyinput / 256) as u8
            } else if off < self.io.len() {
                self.io[off]
            } else {
                0
            }
        } else if r == 0x05 {
            self.palette[a as int % 0x400]
        } else if r == 0x06 {
            self.vram[vram_index(a as int % 0x20000)]
        } else if r == 0x07 {
            self.oam[a as int % 0x400]
        } else if 0x08 <= r <= 0x0D {
            let off = a as int % 0x200_0000;
            if off < self.rom.len() {
                self.rom[off]
            } else {
                rom_open_bus(a)
            }
        } else if r == 0x0E || r == 0x0F {
            let off = a as int % 0x10000;
            if off < self.sram.len() {
                self.sram[off]
            } else {
                0
            }
        } else {
            0
        }
    }

    /// The bus after a byte write of `x` to address `a`: BIOS, OAM and ROM ignore byte
    /// writes, palette and VRAM store the byte into both halves of the halfword.
    pub open spec fn write_byte(self, a: u32, x: u8) -> BusView {
        let r = region(a);
        if r == 0x02 {
            BusView { ewram: self.ewram.update(a as int % 0x40000, x), ..self }
        } else if r == 0x03 {
            BusView { iwram: self.iwram.update(a as int % 0x8000, x), ..self }
        } else if r == 0x04 {
            let off = a as int % 0x400;
            if off < self.io.len() {
                BusView { io: self.io.update(off, x), ..self }
            } else {
                self
            }
        } else if r == 0x05 {
            let off = (a as int % 0x400) / 2 * 2;
            BusView { palette: self.palette.update(off, x).update(off + 1, x), ..self }
        } else if r == 0x06 {
            let off = vram_index((a as int % 0x20000) / 2 * 2);
            if off < self.vram.len() {
                if off + 1 < self.vram.len() {
                    BusView { vram: self.vram.update(off, x).update(off + 1, x), ..self }
                } else {
                    BusView { vram: self.vram.update(off, x), ..self }
                }
            } else {
                self
            }
        } else if r == 0x0E || r == 0x0F {
            let off = a as int % 0x10000;
            if off < self.sram.len() {
                BusView { sram: self.sram.update(off, x), ..self }
            } else {
                self
            }
        } else {
            self
        }
    }

    /// Little-endian halfword read made of two byte reads.
    pub open spec fn read_halfword(self, a: u32) -> u16 {
        (self.read_byte(a) as u16) | ((self.read_byte(a.wrapping_add(1)) as u16) << 8)
    }

    /// Little-endian word read made of two halfword reads.
    pub open spec fn read_word(self, a: u32) -> u32 {
        (self.read_halfword(a) as u32) | ((self.read_halfword(a.wrapping_add(2)) as u32) << 16)
    }

    /// Halfword write made of two byte writes, low byte first.
    pub open spec fn write_halfword(self, a: u32, x: u16) -> BusView {
        self.write_byte(a, x as u8).write_byte(a.wrapping_add(1), (x >> 8) as u8)
    }

    /// Word write made of two halfword writes, low halfword first.
    pub open spec fn write_word(self, a: u32, x: u32) -> BusView {
        self.write_halfword(a, x as u16).write_halfword(a.wrapping_add(2), (x >> 16) as u16)
    }

    /// The bus after a direct store of `x` at `a` that bypasses the width rules of
    /// `write_byte`: only EWRAM, IWRAM, palette, VRAM, OAM and SRAM take it.
    pub open spec fn poke_byte(self, a: u32, x: u8) -> BusView {
        let r = region(a);
        if r == 0x02 {
            BusView { ewram: self.ewram.update(a as int % 0x40000, x), ..self }
        } else if r == 0x03 {
            BusView { iwram: self.iwram.update(a as int % 0x8000, x), ..self }
        } else if r == 0x05 {
            BusView { palette: self.palette.update(a as int % 0x400, x), ..self }
        } else if r == 0x06 {
            let off = vram_index(a as int % 0x20000);
            if off < self.vram.len() {
                BusView { vram: self.vram.update(off, x), ..self }
            } else {
                self
            }
        } else if r == 0x07 {
            BusView { oam: self.oam.update(a as int % 0x400, x), ..self }
        } else if r == 0x0E || r == 0x0F {
            let off = a as int % 0x10000;
            if off < self.sram.len() {
                BusView { sram: self.sram.update(off, x), ..self }
            } else {
                self
            }
        } else {
            self
        }
    }
}

/// Access time in cycles of the first access of a ROM wait-state region.
pub open spec fn rom_first_access(n: int) -> u32 {
    if n == 0 {
        4
    } else if n == 1 {
        3
    } else if n == 2 {
        2
    } else {
        8
    }
}

/// Total cycles of a ROM access in a wait-state region with first-access setting `n`
/// and sequential time `s`.
pub open spec fn rom_wait(n: int, s: u32, access: AccessType, width: AccessWidth) -> u32 {
    let first = match access {
        AccessType::NonSequential => rom_first_access(n),
        AccessType::Sequential => s,
    };
    match width {
        AccessWidth::Word => (first + s + 1) as u32,
        _ => (first + 1) as u32,
    }
}

/// Cycles a memory access takes, by region, WAITCNT settings, access type and width.
pub open spec fn wait_cycles_spec(waitcnt: u16, a: u32, access: AccessType, width: AccessWidth) -> u32 {
    let r = region(a);
    let w = waitcnt as int;
    if r == 0x00 || r == 0x03 || r == 0x07 || r == 0x04 {
        1
    } else if r == 0x02 {
        match width {
            AccessWidth::Word => 6,
            _ => 3,
        }
    } else if r == 0x05 || r == 0x06 {
        match width {
            AccessWidth::Word => 2,
            _ => 1,
        }
    } else if r == 0x08 || r == 0x09 {
        rom_wait((w / 4) % 4, if (w / 16) % 2 == 1 { 1 } else { 2 }, access, width)
    } else if r == 0x0A || r == 0x0B {
        rom_wait((w / 32) % 4, if (w / 128) % 2 == 1 { 1 } else { 4 }, access, width)
    } else if r == 0x0C || r == 0x0D {
        rom_wait((w / 256) % 4, if (w / 1024) % 2 == 1 { 1 } else { 8 }, access, width)
    } else if r == 0x0E || r == 0x0F {
        (rom_first_access(w % 4) + 1) as u32
    } else {
        1
    }
}

/// The address decompositions the bus uses, in terms of division and remainder.
pub proof fn lemma_addr_bits(a: u32)
    by (bit_vector)
    ensures
        a >> 24 == a / 0x100_0000,
        a & 0x3FFF == a % 0x4000,
        a & 0x3FFFF == a % 0x40000,
        a & 0x7FFF == a % 0x8000,
        a & 0x3FF == a % 0x400,
        a & 0x1FFFF == a % 0x20000,
        a & 0x01FF_FFFF == a % 0x200_0000,
        a & 0xFFFF == a % 0x10000,
        a & 0x3FE == (a % 0x400) / 2 * 2,
        a & 0x1FFFE == (a % 0x20000) / 2 * 2,
        a & 1 == a % 2,
        a >> 1 == a / 2,
{
}

proof fn lemma_u16_byte_values(k: u16)
    by (bit_vector)
    ensures
        (k as u8) as u16 == k % 256u16,
        ((k >> 8u16) as u8) as u16 == k / 256u16,
{
}

proof fn lemma_u16_byte_casts(k: u16)
    by (bit_vector)
    ensures
        (k % 256u16) as u8 == k as u8,
        (k / 256u16) as u8 == (k >> 8u16) as u8,
{
}

/// The two bytes of a halfword as remainder and quotient by 256.
pub proof fn lemma_u16_bytes(k: u16)
    ensures
        k as u8 == k % 256,
        (k >> 8) as u8 == k / 256,
        (k % 256) as u8 == k as u8,
        (k / 256) as u8 == (k >> 8) as u8,
{
    lemma_u16_byte_values(k);
    lemma_u16_byte_casts(k);
}

/// The WAITCNT fields: the three ROM first-access selections, their sequential bits and
/// the SRAM selection.
proof fn lemma_waitcnt_fields(w: u16)
    by (bit_vector)
    ensures
        (w >> 2) & 3 == (w / 4) % 4,
        (w >> 5) & 3 == (w / 32) % 4,
        (w >> 8) & 3 == (w / 256) % 4,
        (w & 0x10u16 != 0) == ((w / 16) % 2 == 1),
        (w & 0x80u16 != 0) == ((w / 128) % 2 == 1),
        (w & 0x400u16 != 0) == ((w / 1024) % 2 == 1),
        w & 3 == w % 4,
{
}

/// The byte of the open-bus halfword that a ROM read past the end returns.
proof fn lemma_open_bus_shift(h: u32, sh: u32)
    by (bit_vector)
    ensures
        sh == 0 ==> h >> sh == h,
        sh == 8 ==> h >> sh == h / 256,
        (h >> sh) as u8 == (h >> sh) % 256,
{
}

/// A byte write keeps every region at its size.
pub proof fn lemma_write_byte_wf(v: BusView, a: u32, x: u8)
    requires
        v.wf(),
    ensures
        v.write_byte(a, x).wf(),
        v.poke_byte(a, x).wf(),
        v.write_byte(a, x).rom == v.rom,
        v.poke_byte(a, x).rom == v.rom,
{
}

/// Halfword and word writes keep every region at its size.
pub proof fn lemma_write_wide_wf(v: BusView, a: u32, x: u32)
    requires
        v.wf(),
    ensures
        v.write_halfword(a, x as u16).wf(),
        v.write_word(a, x).wf(),
        v.write_word(a, x).rom == v.rom,
{
    lemma_write_byte_wf(v, a, x as u8);
    lemma_write_byte_wf(v.write_byte(a, x as u8), a.wrapping_add(1), ((x as u16) >> 8) as u8);
    let v1 = v.write_halfword(a, x as u16);
    lemma_write_byte_wf(v1, a.wrapping_add(2), ((x >> 16) as u16) as u8);
    lemma_write_byte_wf(
        v1.write_byte(a.wrapping_add(2), ((x >> 16) as u16) as u8),
        a.wrapping_add(2).wrapping_add(1),
        (((x >> 16) as u16) >> 8) as u8,
    );
}

// =============================================================================
// Bus access trait
// =============================================================================

/// Trait for components that can be accessed via the memory bus
pub trait BusAccess: View<V = BusView> {
    /// Read a byte from the given address
    fn read_byte(&self, address: u32) -> (r: u8)
        requires
            self@.wf(),
        ensures
            r == self@.read_byte(address),
    ;

    /// Write a byte to the given address
    fn write_byte(&mut self, address: u32, value: u8)
        requires
            old(self)@.wf(),
        ensures
            final(self)@ == old(self)@.write_byte(address, value),
    ;

    /// Read a halfword (16-bit) from the given address (must be aligned to 2)
    fn read_halfword(&self, address: u32) -> (r: u16)
        requires
            self@.wf(),
        ensures
            r == self@.read_halfword(address),
    {
        let lo = self.read_byte(address) as u16;
        let hi = self.read_byte(address.wrapping_add(1)) as u16;
        lo | (hi << 8)
    }

    /// Read a word (32-bit) from the given address (must be aligned to 4)
    fn read_word(&self, address: u32) -> (r: u32)
        requires
            self@.wf(),
        ensures
            r == self@.read_word(address),
    {
        let lo = self.read_halfword(address) as u32;
        let hi = self.read_halfword(address.wrapping_add(2)) as u32;
        lo | (hi << 16)
    }

    /// Write a halfword (16-bit) to the given address (must be aligned to 2)
    fn write_halfword(&mut self, address: u32, value: u16)
        requires
            old(self)@.wf(),
        ensures
            final(self)@ == old(self)@.write_halfword(address, value),
    {
        self.write_byte(address, value as u8);
        proof {
            lemma_write_byte_wf(old(self)@, address, value as u8);
        }
        self.write_byte(address.wrapping_add(1), (value >> 8) as u8);
    }

    /// Write a word (32-bit) to the given address (must be aligned to 4)
    fn write_word(&mut self, address: u32, value: u32)
        requires
            old(self)@.wf(),
        ensures
            final(self)@ == old(self)@.write_word(address, value),
    {
        self.write_halfword(address, value as u16);
        proof {
            lemma_write_wide_wf(old(self)@, address, value);
        }
        self.write_halfword(address.wrapping_add(2), (value >> 16) as u16);
    }
}

// =============================================================================
// The GBA memory bus
// =============================================================================

/// The main GBA memory bus that dispatches reads/writes to the correct region
#[derive(Clone)]
pub struct Bus {
    pub bios: Vec<u8>,
    pub ewram: Vec<u8>,
    pub iwram: Vec<u8>,
    pub io: Vec<u8>,
    pub palette: Vec<u8>,
    pub vram: Vec<u8>,
    pub oam: Vec<u8>,
    pub rom: Vec<u8>,
    pub sram: Vec<u8>,
    /// Key input register (active-low: 0 = pressed)
    pub keyinput: u16,
    /// Tracks the last BIOS read value for open bus behavior
    pub bios_latch: u32,
    /// Wait state configuration
    pub waitcnt: u16,
    /// Prefetch buffer enabled
    pub prefetch_enabled: bool,
}

impl View for Bus {
    type V = BusView;

    open spec fn view(&self) -> BusView {
        BusView {
            bios: self.bios@,
            ewram: self.ewram@,
            iwram: self.iwram@,
            io: self.io@,
            palette: self.palette@,
            vram: self.vram@,
            oam: self.oam@,
            rom: self.rom@,
            sram: self.sram@,
            keyinput: self.keyinput,
            bios_latch: self.bios_latch,
            waitcnt: self.waitcnt,
            prefetch_enabled: self.prefetch_enabled,
        }
    }
}

fn zeroed(n: usize) -> (v: Vec<u8>)
    ensures
        v@ == Seq::new(n as nat, |i: int| 0u8),
{
    let v = vec![0u8; n];
    assert(v@ =~= Seq::new(n as nat, |i: int| 0u8));
    v
}

/// The bus at power-on: every region zero, no ROM, all keys released.
pub open spec fn bus_initial() -> BusView {
    BusView {
        bios: Seq::new(BIOS_SIZE as nat, |i: int| 0u8),
        ewram: Seq::new(EWRAM_SIZE as nat, |i: int| 0u8),
        iwram: Seq::new(IWRAM_SIZE as nat, |i: int| 0u8),
        io: Seq::new(IO_SIZE as nat, |i: int| 0u8),
        palette: Seq::new(PALETTE_SIZE as nat, |i: int| 0u8),
        vram: Seq::new(VRAM_SIZE as nat, |i: int| 0u8),
        oam: Seq::new(OAM_SIZE as nat, |i: int| 0u8),
        rom: Seq::empty(),
        sram: Seq::new(SRAM_SIZE as nat, |i: int| 0u8),
        keyinput: 0x03FF,
        bios_latch: 0,
        waitcnt: 0,
        prefetch_enabled: false,
    }
}

impl Bus {
    pub fn new() -> (b: Self)
        ensures
            b@ == bus_initial(),
            b@.wf(),
    {
        Self {
            bios: zeroed(BIOS_SIZE),
            ewram: zeroed(EWRAM_SIZE),
            iwram: zeroed(IWRAM_SIZE),
            io: zeroed(IO_SIZE),
            palette: zeroed(PALETTE_SIZE),
            vram: zeroed(VRAM_SIZE),
            oam: zeroed(OAM_SIZE),
            rom: Vec::new(),
            sram: zeroed(SRAM_SIZE),
            keyinput: 0x03FF,  // all buttons released
            bios_latch: 0,
            waitcnt: 0,
            prefetch_enabled: false,
        }
    }

    /// Load a ROM into the cartridge slot
    pub fn load_rom(&mut self, data: &[u8])
        ensures
            final(self)@ == (BusView { rom: data@, ..old(self)@ }),
    {
        self.rom = vstd::slice::slice_to_vec(data);
    }

    /// Load BIOS data
    pub fn load_bios(&mut self, data: &[u8])
        requires
            old(self)@.wf(),
        ensures
            final(self)@ == (BusView {
                bios: Seq::new(
                    BIOS_SIZE as nat,
                    |i: int| if i < data@.len() { data@[i] } else { old(self)@.bios[i] },
                ),
                ..old(self)@
            }),
    {
        let len: usize = if data.len() < BIOS_SIZE { data.len() } else { BIOS_SIZE };
        let mut i: usize = 0;
        while i < len
            invariant
                len <= BIOS_SIZE,
                len <= data@.len(),
                len == data@.len() || len == BIOS_SIZE,
                i <= len,
                self.bios@.len() == BIOS_SIZE,
                forall|k: int| 0 <= k < i ==> self.bios@[k] == data@[k],
                forall|k: int| i <= k < BIOS_SIZE ==> self.bios@[k] == old(self)@.bios[k],
                self@ == (BusView { bios: self.bios@, ..old(self)@ }),
            decreases len - i,
        {
            self.bios.set(i, data[i]);
            i = i + 1;
        }
        assert(self.bios@ =~= Seq::new(
            BIOS_SIZE as nat,
            |i: int| if i < data@.len() { data@[i] } else { old(self)@.bios[i] },
        ));
    }

    /// Calculate wait states for a memory access
    pub fn wait_cycles(&self, address: u32, access: AccessType, width: AccessWidth) -> (r: u32)
        ensures
            r == wait_cycles_spec(self.waitcnt, address, access, width),
    {
        proof {
            lemma_addr_bits(address);
        }
        let w: u16 = self.waitcnt;
        let firsts: [u32; 4] = [4, 3, 2, 8];
        let region: u32 = address >> 24;
        if region == 0x00 || region == 0x03 || region == 0x07 {
            // BIOS, IWRAM, OAM: 0 wait states
            1
        } else if region == 0x02 {
            // EWRAM: 2 wait states (16-bit bus)
            match width {
                AccessWidth::Word => 6,
                _ => 3,
            }
        } else if region == 0x04 {
            // I/O: 0 wait states
            1
        } else if region == 0x05 || region == 0x06 {
            // Palette, VRAM
            match width {
                AccessWidth::Word => 2,
                _ => 1,
            }
        } else if region == 0x08 || region == 0x09 || region == 0x0A || region == 0x0B
            || region == 0x0C || region == 0x0D {
            // ROM wait states 0, 1 and 2
            let (n, s): (u16, u32) = if region == 0x08 || region == 0x09 {
                ((w >> 2) & 3, if w & 0x10 != 0 { 1 } else { 2 })
            } else if region == 0x0A || region == 0x0B {
                ((w >> 5) & 3, if w & 0x80 != 0 { 1 } else { 4 })
            } else {
                ((w >> 8) & 3, if w & 0x400 != 0 { 1 } else { 8 })
            };
            proof {
                lemma_waitcnt_fields(w);
            }
            let first: u32 = match access {
                AccessType::NonSequential => firsts[n as usize],
                AccessType::Sequential => s,
            };
            match width {
                AccessWidth::Word => first + s + 1,
                _ => first + 1,
            }
        } else if region == 0x0E || region == 0x0F {
            // SRAM: 8-bit bus, slow
            let n: u16 = w & 3;
            proof {
                lemma_waitcnt_fields(w);
            }
            firsts[n as usize] + 1
        } else {
            1
        }
    }

    /// Read a byte for memory inspection (no side effects)
    pub fn peek_byte(&self, address: u32) -> (r: u8)
        requires
            self@.wf(),
        ensures
            r == self@.read_byte(address),
    {
        self.read_byte(address)
    }

    /// Write a byte for memory manipulation (bypasses I/O side effects)
    pub fn poke_byte(&mut self, address: u32, value: u8)
        requires
            old(self)@.wf(),
        ensures
            final(self)@ == old(self)@.poke_byte(address, value),
    {
        proof {
            lemma_addr_bits(address);
        }
        let region: u32 = address >> 24;
        if region == 0x02 {
            let offset = (address & 0x3FFFF) as usize;
            if offset < self.ewram.len() {
                self.ewram.set(offset, value);
            }
        } else if region == 0x03 {
            let offset = (address & 0x7FFF) as usize;
            if offset < self.iwram.len() {
                self.iwram.set(offset, value);
            }
        } else if region == 0x05 {
            let offset = (address & 0x3FF) as usize;
            if offset < self.palette.len() {
                self.palette.set(offset, value);
            }
        } else if region == 0x06 {
            let offset = (address & 0x1FFFF) as usize;
            let offset = if offset >= VRAM_SIZE {
                offset - 0x8000
            } else {
                offset
            };
            if offset < self.vram.len() {
                self.vram.set(offset, value);
            }
        } else if region == 0x07 {
            let offset = (address & 0x3FF) as usize;
            if offset < self.oam.len() {
                self.oam.set(offset, value);
            }
        } else if region == 0x0E || region == 0x0F {
            let offset = (address & 0xFFFF) as usize;
            if offset < self.sram.len() {
                self.sram.set(offset, value);
            }
        }
    }
}

impl Default for Bus {
    fn default() -> (b: Self)
        ensures
            b@ == bus_initial(),
    {
        Self::new()
    }
}

impl BusAccess for Bus {
    fn read_byte(&self, address: u32) -> (r: u8) {
        proof {
            lemma_addr_bits(address);
        }
        let region: u32 = address >> 24;
        if region == 0x00 {
            // BIOS
            let offset = (address & 0x3FFF) as usize;
            if offset < self.bios.len() {
                let r = self.bios[offset];
                assert(r == self@.read_byte(address));
                r
            } else {
                assert(0 == self@.read_byte(address));
                0
            }
        } else if region == 0x02 {
            // EWRAM (mirrored every 256KB)
            let offset = (address & 0x3FFFF) as usize;
            let r = self.ewram[offset % self.ewram.len()];
            assert(r == self@.read_byte(address));
            r
        } else if region == 0x03 {
            // IWRAM (mirrored every 32KB)
            let offset = (address & 0x7FFF) as usize;
            assert(offset as int == address as int % 0x8000);
            proof {
                vstd::arithmetic::div_mod::lemma_small_mod(offset as nat, self.iwram@.len());
            }
            let r = self.iwram[offset % self.iwram.len()];
            assert(r == self@.read_byte(address));
            r
        } else if region == 0x04 {
            // I/O registers
            let offset = (address & 0x3FF) as usize;
            proof {
                lemma_u16_bytes(self.keyinput);
            }
            if offset == REG_KEYINPUT as usize {
                assert(address as int % 0x400 == 0x130);
                assert(address as int / 0x100_0000 == 4);
                assert(self@.read_byte(address) == (self.keyinput % 256) as u8);
                assert(self.keyinput as u8 == self@.read_byte(address));
                self.keyinput as u8
            } else if offset == (REG_KEYINPUT + 1) as usize {
                assert(((self.keyinput >> 8) as u8) == self@.read_byte(address));
                (self.keyinput >> 8) as u8
            } else if offset < self.io.len() {
                let r = self.io[offset];
                assert(r == self@.read_byte(address));
                r
            } else {
                assert(0 == self@.read_byte(address));
                0
            }
        } else if region == 0x05 {
            // Palette RAM (mirrored every 1KB)
            let offset = (address & 0x3FF) as usize;
            let r = self.palette[offset];
            assert(r == self@.read_byte(address));
            r
        } else if region == 0x06 {
            // VRAM (mirrored, with 96KB -> 128KB mapping)
            let offset = (address & 0x1FFFF) as usize;
            let offset = if offset >= VRAM_SIZE {
                offset - 0x8000
            } else {
                offset
            };
            let r = self.vram[offset % self.vram.len()];
            assert(r == self@.read_byte(address));
            r
        } else if region == 0x07 {
            // OAM (mirrored every 1KB)
            let offset = (address & 0x3FF) as usize;
            let r = self.oam[offset];
            assert(r == self@.read_byte(address));
            r
        } else if 0x08 <= region && region <= 0x0D {
            // ROM (mirrored across 3 wait state regions)
            let offset = (address & 0x01FF_FFFF) as usize;
            if offset < self.rom.len() {
                let r = self.rom[offset];
                assert(r == self@.read_byte(address));
                r
            } else {
                // Open bus: return (address >> 1) for 16-bit reads
                let h: u32 = address >> 1;
                let sh: u32 = (address & 1) * 8;
                let r: u8 = (h >> sh) as u8;
                proof {
                    lemma_open_bus_shift(h, sh);
                    assert(r == self@.read_byte(address));
                }
                r
            }
        } else if region == 0x0E || region == 0x0F {
            // SRAM (8-bit only)
            let offset = (address & 0xFFFF) as usize;
            if offset < self.sram.len() {
                let r = self.sram[offset];
                assert(r == self@.read_byte(address));
                r
            } else {
                0
            }
        } else {
            // Open bus / unused
            0
        }
    }

    fn write_byte(&mut self, address: u32, value: u8) {
        proof {
            lemma_addr_bits(address);
        }
        let region: u32 = address >> 24;
        if region == 0x02 {
            let offset = (address & 0x3FFFF) as usize;
            let len = self.ewram.len();
            self.ewram.set(offset % len, value);
        } else if region == 0x03 {
            let offset = (address & 0x7FFF) as usize;
            let len = self.iwram.len();
            self.iwram.set(offset % len, value);
        } else if region == 0x04 {
            let offset = (address & 0x3FF) as usize;
            if offset < self.io.len() {
                self.io.set(offset, value);
            }
        } else if region == 0x05 {
            // Palette: byte writes write the byte to both halves of the halfword
            let offset = (address & 0x3FE) as usize;
            self.palette.set(offset, value);
            self.palette.set(offset + 1, value);
        } else if region == 0x06 {
            // VRAM: byte writes are special (write to halfword)
            let offset = (address & 0x1FFFE) as usize;
            let offset = if offset >= VRAM_SIZE {
                offset - 0x8000
            } else {
                offset
            };
            if offset < self.vram.len() {
                self.vram.set(offset, value);
                if offset + 1 < self.vram.len() {
                    self.vram.set(offset + 1, value);
                }
            }
        } else if region == 0x0E || region == 0x0F {
            let offset = (address & 0xFFFF) as usize;
            if offset < self.sram.len() {
                self.sram.set(offset, value);
            }
        }
        // BIOS and ROM are read-only, OAM ignores byte writes, other regions are unmapped.
    }
}

// =============================================================================
// Laws of the memory model
// =============================================================================

/// What a byte write to EWRAM stores, a byte read of the same address gives back.
pub proof fn lemma_ewram_write_read(v: BusView, a: u32, x: u8)
    requires
        v.wf(),
        region(a) == 0x02,
    ensures
        v.write_byte(a, x).read_byte(a) == x,
{
}

/// EWRAM is mirrored every 256 KB: two addresses 256 KB apart read the same byte.
pub proof fn lemma_ewram_mirror(v: BusView, a: u32)
    requires
        v.wf(),
        region(a) == 0x02,
        region((a + 0x40000) as u32) == 0x02,
        a + 0x40000 <= u32::MAX,
    ensures
        v.read_byte(a) == v.read_byte((a + 0x40000) as u32),
{
}

/// What a byte write to IWRAM stores, a byte read of the same address gives back.
pub proof fn lemma_iwram_write_read(v: BusView, a: u32, x: u8)
    requires
        v.wf(),
        region(a) == 0x03,
    ensures
        v.write_byte(a, x).read_byte(a) == x,
{
}

/// IWRAM is mirrored every 32 KB.
pub proof fn lemma_iwram_mirror(v: BusView, a: u32)
    requires
        v.wf(),
        region(a) == 0x03,
        region((a + 0x8000) as u32) == 0x03,
        a + 0x8000 <= u32::MAX,
    ensures
        v.read_byte(a) == v.read_byte((a + 0x8000) as u32),
{
}

/// What a byte write to SRAM stores, a byte read of the same address gives back.
pub proof fn lemma_sram_write_read(v: BusView, a: u32, x: u8)
    requires
        v.wf(),
        region(a) == 0x0E || region(a) == 0x0F,
    ensures
        v.write_byte(a, x).read_byte(a) == x,
{
}

/// The three wait-state regions show the same ROM: an address 32 MB further on reads the
/// same byte.
pub proof fn lemma_rom_mirror(v: BusView, a: u32)
    requires
        0x08 <= region(a) <= 0x0B,
    ensures
        v.read_byte(a) == v.read_byte((a + 0x200_0000) as u32),
{
    let b = (a + 0x200_0000) as u32;
    assert(region(b) == region(a) + 2);
    assert(b as int % 0x200_0000 == a as int % 0x200_0000);
    assert((b as int / 2) % 256 == (a as int / 2) % 256);
    assert(((b as int / 2) / 256) % 256 == ((a as int / 2) / 256) % 256);
}

/// BIOS, OAM and the ROM regions ignore byte writes.
pub proof fn lemma_read_only_byte_writes(v: BusView, a: u32, x: u8)
    requires
        region(a) == 0x00 || region(a) == 0x07 || (0x08 <= region(a) <= 0x0D),
    ensures
        v.write_byte(a, x) == v,
{
}

/// A byte write to one address leaves the bytes read at every address of other
/// regions unchanged (the two SRAM regions 0x0E and 0x0F are one memory).
pub proof fn lemma_write_byte_other_region(v: BusView, a: u32, x: u8, b: u32)
    requires
        v.wf(),
        region(a) != region(b),
        !((region(a) == 0x0E || region(a) == 0x0F) && (region(b) == 0x0E || region(b) == 0x0F)),
    ensures
        v.write_byte(a, x).read_byte(b) == v.read_byte(b),
{
}

proof fn lemma_word_bytes(x: u32)
    by (bit_vector)
    ensures
        (((x as u16) as u8) as u16 | ((((x as u16) >> 8) as u8) as u16) << 8) as u32
            | ((((((x >> 16) as u16) as u8) as u16 | (((((x >> 16) as u16) >> 8) as u8) as u16)
            << 8) as u32) << 16) == x,
{
}

/// A word written to a word-aligned EWRAM address is read back unchanged.
pub proof fn lemma_ewram_word_roundtrip(v: BusView, a: u32, x: u32)
    requires
        v.wf(),
        region(a) == 0x02,
        a % 4 == 0,
    ensures
        v.write_word(a, x).read_word(a) == x,
{
    let a1 = a.wrapping_add(1);
    let a2 = a.wrapping_add(2);
    let a3 = a2.wrapping_add(1);
    assert(a1 == a + 1 && a2 == a + 2 && a3 == a + 3);
    assert(region(a1) == 2 && region(a2) == 2 && region(a3) == 2);
    let v1 = v.write_byte(a, x as u16 as u8);
    let v2 = v1.write_byte(a1, ((x as u16) >> 8) as u8);
    let v3 = v2.write_byte(a2, ((x >> 16) as u16) as u8);
    let v4 = v3.write_byte(a3, (((x >> 16) as u16) >> 8) as u8);
    assert(v.write_word(a, x) == v4);
    assert(v4.read_byte(a) == x as u16 as u8);
    assert(v4.read_byte(a1) == ((x as u16) >> 8) as u8);
    assert(v4.read_byte(a2) == ((x >> 16) as u16) as u8);
    assert(v4.read_byte(a3) == (((x >> 16) as u16) >> 8) as u8);
    lemma_word_bytes(x);
}

} // verus!
