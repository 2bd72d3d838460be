use vstd::prelude::*;

use crate::constants::{
    FRAMEBUFFER_PIXELS, REG_BG2X, REG_BG2Y, REG_BG3X, REG_BG3Y, SCREEN_WIDTH, TOTAL_LINES,
    VISIBLE_LINES,
};

verus! {

// =============================================================================
// Memory helpers
// =============================================================================

/// The little-endian halfword at `off`, 0 when it does not fit in `mem`.
pub open spec fn mem16(mem: Seq<u8>, off: int) -> u16 {
    if 0 <= off && off + 1 < mem.len() {
        (mem[off] as u16) | ((mem[off + 1] as u16) << 8)
    } else {
        0
    }
}

/// The little-endian word at `off`, 0 when it does not fit in `mem`.
pub open spec fn mem32(mem: Seq<u8>, off: int) -> u32 {
    if 0 <= off && off + 3 < mem.len() {
        (mem[off] as u32) | ((mem[off + 1] as u32) << 8) | ((mem[off + 2] as u32) << 16) | ((
        mem[off + 3] as u32) << 24)
    } else {
        0
    }
}

/// The 28-bit two's-complement number in the low bits of `val`.
pub open spec fn sext28(val: u32) -> int {
    let low = (val & 0x0FFF_FFFF) as int;
    if val & 0x0800_0000 != 0 {
        low - 0x1000_0000
    } else {
        low
    }
}

pub fn read16(mem: &[u8], offset: usize) -> (r: u16)
    requires
        offset < usize::MAX,
    ensures
        r == mem16(mem@, offset as int),
{
    if offset + 1 < mem.len() {
        mem[offset] as u16 | ((mem[offset + 1] as u16) << 8)
    } else {
        0
    }
}

pub fn read32(mem: &[u8], offset: usize) -> (r: u32)
    requires
        offset + 3 <= usize::MAX,
    ensures
        r == mem32(mem@, offset as int),
{
    if offset + 3 < mem.len() {
        mem[offset] as u32 | ((mem[offset + 1] as u32) << 8) | ((mem[offset + 2] as u32) << 16)
            | ((mem[offset + 3] as u32) << 24)
    } else {
        0
    }
}

pub fn sign_extend_28(val: u32) -> (r: i32)
    ensures
        r as int == sext28(val),
        -0x0800_0000 <= r < 0x0800_0000,
{
    let low = val & 0x0FFF_FFFF;
    proof {
        lemma_sext28_bits(val);
    }
    if val & 0x0800_0000 != 0 {
        (low as i32) - 0x1000_0000
    } else {
        low as i32
    }
}

/// The 28-bit field and its sign bit.
proof fn lemma_sext28_bits(val: u32)
    by (bit_vector)
    ensures
        val & 0x0FFF_FFFF <= 0x0FFF_FFFF,
        val & 0x0800_0000 != 0 ==> val & 0x0FFF_FFFF >= 0x0800_0000,
        val & 0x0800_0000 == 0 ==> val & 0x0FFF_FFFF < 0x0800_0000,
{
}

/// A sign-extended 28-bit number lies in the 28-bit range.
pub proof fn lemma_sext28_range(val: u32)
    ensures
        -0x0800_0000 <= sext28(val) < 0x0800_0000,
{
    lemma_sext28_bits(val);
}

/// Each 5-bit channel of an RGB555 color, scaled to 8 bits, fits in a byte.
proof fn lemma_rgb555_channels(p: u16)
    by (bit_vector)
    ensures
        (p & 0x1F) << 3 <= 248,
        ((p >> 5) & 0x1F) << 3 <= 248,
        ((p >> 10) & 0x1F) << 3 <= 248,
{
}

// =============================================================================
// PPU state
// =============================================================================

/// Events emitted by the PPU
#[derive(Debug, Clone, Copy, PartialEq, Eq, Structural)]
pub enum PpuEvent {
    Draw,
    VBlankStart,
    VBlank,
    FrameStart,
}

/// PPU (Picture Processing Unit) state
#[derive(Debug, Clone)]
pub struct Ppu {
    /// Current scanline (0-227)
    pub vcount: u16,
    /// Cycle within the current scanline
    pub dot: u32,
    /// Framebuffer: 240x160 pixels, RGB555 format
    pub framebuffer: Vec<u16>,
    /// Per-scanline priority buffer (for sorting layers)
    pub priority_buffer: Vec<u8>,
    /// Frame complete flag (set when VBlank starts)
    pub frame_ready: bool,
    /// Internal BG2/BG3 reference point X (28.4 fixed-point)
    pub bg2_ref_x: i32,
    pub bg2_ref_y: i32,
    pub bg3_ref_x: i32,
    pub bg3_ref_y: i32,
}

/// The RGBA8888 bytes of an RGB555 framebuffer: each 5-bit channel shifted up by 3,
/// alpha 255.
pub open spec fn rgba_of(fb: Seq<u16>) -> Seq<u8> {
    Seq::new(
        4 * fb.len(),
        |k: int|
            {
                let p = fb[k / 4];
                let c = k % 4;
                if c == 0 {
                    ((p & 0x1F) << 3) as u8
                } else if c == 1 {
                    (((p >> 5) & 0x1F) << 3) as u8
                } else if c == 2 {
                    (((p >> 10) & 0x1F) << 3) as u8
                } else {
                    255u8
                }
            },
    )
}

/// The next scanline: line 160 starts VBlank and marks the frame ready, line 228 wraps
/// to 0 and starts a new frame, other lines are drawn (below 160) or blank.
pub open spec fn ppu_advance(vcount: u16, frame_ready: bool) -> (u16, bool, PpuEvent) {
    let v = vcount + 1;
    if v == VISIBLE_LINES {
        (v as u16, true, PpuEvent::VBlankStart)
    } else if v >= TOTAL_LINES {
        (0, false, PpuEvent::FrameStart)
    } else if v < VISIBLE_LINES {
        (v as u16, frame_ready, PpuEvent::Draw)
    } else {
        (v as u16, frame_ready, PpuEvent::VBlank)
    }
}

impl Ppu {
    pub fn new() -> (p: Self)
        ensures
            p.vcount == 0,
            p.dot == 0,
            p.framebuffer@ == Seq::new(FRAMEBUFFER_PIXELS as nat, |i: int| 0u16),
            p.priority_buffer@ == Seq::new(SCREEN_WIDTH as nat, |i: int| 4u8),
            !p.frame_ready,
            p.bg2_ref_x == 0 && p.bg2_ref_y == 0 && p.bg3_ref_x == 0 && p.bg3_ref_y == 0,
    {
        let framebuffer = vec![0u16; FRAMEBUFFER_PIXELS];
        let priority_buffer = vec![4u8; SCREEN_WIDTH as usize];
        assert(framebuffer@ =~= Seq::new(FRAMEBUFFER_PIXELS as nat, |i: int| 0u16));
        assert(priority_buffer@ =~= Seq::new(SCREEN_WIDTH as nat, |i: int| 4u8));
        Self {
            vcount: 0,
            dot: 0,
            framebuffer,
            priority_buffer,
            frame_ready: false,
            bg2_ref_x: 0,
            bg2_ref_y: 0,
            bg3_ref_x: 0,
            bg3_ref_y: 0,
        }
    }

    /// Advance PPU by one scanline
    pub fn advance_scanline(&mut self) -> (e: PpuEvent)
        requires
            old(self).vcount < u16::MAX,
        ensures
            (final(self).vcount, final(self).frame_ready, e) == ppu_advance(
                old(self).vcount,
                old(self).frame_ready,
            ),
            final(self).framebuffer == old(self).framebuffer,
            final(self).priority_buffer == old(self).priority_buffer,
            final(self).dot == old(self).dot,
            final(self).bg2_ref_x == old(self).bg2_ref_x,
            final(self).bg2_ref_y == old(self).bg2_ref_y,
            final(self).bg3_ref_x == old(self).bg3_ref_x,
            final(self).bg3_ref_y == old(self).bg3_ref_y,
    {
        self.vcount = self.vcount + 1;
        if self.vcount == VISIBLE_LINES as u16 {
            self.frame_ready = true;
            PpuEvent::VBlankStart
        } else if self.vcount >= TOTAL_LINES as u16 {
            self.vcount = 0;
            self.frame_ready = false;
            PpuEvent::FrameStart
        } else if self.vcount < VISIBLE_LINES as u16 {
            PpuEvent::Draw
        } else {
            PpuEvent::VBlank
        }
    }

    /// Latch internal reference points from I/O (called on write to BG2X/Y, BG3X/Y)
    pub fn latch_ref_points(&mut self, io: &[u8])
        ensures
            final(self).bg2_ref_x == sext28(mem32(io@, REG_BG2X as int)),
            final(self).bg2_ref_y == sext28(mem32(io@, REG_BG2Y as int)),
            final(self).bg3_ref_x == sext28(mem32(io@, REG_BG3X as int)),
            final(self).bg3_ref_y == sext28(mem32(io@, REG_BG3Y as int)),
            final(self).vcount == old(self).vcount,
            final(self).dot == old(self).dot,
            final(self).framebuffer == old(self).framebuffer,
            final(self).priority_buffer == old(self).priority_buffer,
            final(self).frame_ready == old(self).frame_ready,
    {
        self.bg2_ref_x = sign_extend_28(read32(io, REG_BG2X as usize));
        self.bg2_ref_y = sign_extend_28(read32(io, REG_BG2Y as usize));
        self.bg3_ref_x = sign_extend_28(read32(io, REG_BG3X as usize));
        self.bg3_ref_y = sign_extend_28(read32(io, REG_BG3Y as usize));
    }

    /// Get the framebuffer as RGBA8888 for display
    pub fn framebuffer_rgba(&self) -> (rgba: Vec<u8>)
        requires
            4 * self.framebuffer@.len() <= usize::MAX,
        ensures
            rgba@ == rgba_of(self.framebuffer@),
    {
        let n = self.framebuffer.len();
        let mut rgba: Vec<u8> = Vec::with_capacity(n * 4);
        let mut i: usize = 0;
        while i < n
            invariant
                n == self.framebuffer@.len(),
                4 * n <= usize::MAX,
                i <= n,
                rgba@.len() == 4 * i,
                forall|k: int| 0 <= k < 4 * i ==> rgba@[k] == #[trigger] rgba_of(self.framebuffer@)[k],
            decreases n - i,
        {
            let pixel = self.framebuffer[i];
            proof {
                lemma_rgb555_channels(pixel);
            }
            let r = ((pixel & 0x1F) << 3) as u8;
            let g = (((pixel >> 5) & 0x1F) << 3) as u8;
            let b = (((pixel >> 10) & 0x1F) << 3) as u8;
            rgba.push(r);
            rgba.push(g);
            rgba.push(b);
            rgba.push(255);
            proof {
                assert forall|k: int| 4 * i <= k < 4 * i + 4 implies rgba@[k]
                    == #[trigger] rgba_of(self.framebuffer@)[k] by {
                    assert(k / 4 == i);
                }
            }
            i = i + 1;
        }
        assert(rgba@ =~= rgba_of(self.framebuffer@));
        rgba
    }
}

impl Default for Ppu {
    fn default() -> (p: Self)
        ensures
            p.vcount == 0,
            p.framebuffer@ == Seq::new(FRAMEBUFFER_PIXELS as nat, |i: int| 0u16),
            p.priority_buffer@ == Seq::new(SCREEN_WIDTH as nat, |i: int| 4u8),
            !p.frame_ready,
    {
        Self::new()
    }
}

} // verus!
