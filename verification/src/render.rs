use vstd::prelude::*;

use crate::bits::{lemma_and_bound, lemma_shr8_bound};
use crate::constants::{
    REG_BG0CNT, REG_BG0HOFS, REG_BG0VOFS, REG_BG2PA, REG_BG3PA, REG_BLDCNT, REG_BLDY,
    REG_DISPCNT,
};
use crate::ppu::{mem16, read16, Ppu};

verus! {

// =============================================================================
// Pixels of each layer
// =============================================================================

/// What the renderer reads: I/O registers, palette RAM, VRAM, OAM and the latched affine
/// reference points of BG2 and BG3.
pub struct RenderCtx {
    pub io: Seq<u8>,
    pub palette: Seq<u8>,
    pub vram: Seq<u8>,
    pub oam: Seq<u8>,
    pub bg2_ref_x: i32,
    pub bg2_ref_y: i32,
    pub bg3_ref_x: i32,
    pub bg3_ref_y: i32,
}

/// A 4-bit pixel of a 16-color tile byte: the high nibble for odd pixels.
pub open spec fn nybble(b: u8, px: int) -> int {
    if px % 2 != 0 {
        b as int / 16
    } else {
        b as int % 16
    }
}

/// The palette entry (as a color index) of a tile pixel: `None` for color 0, which is
/// transparent. 256-color tiles take 64 bytes, 16-color tiles 32 bytes with the palette
/// bank in the high bits.
pub open spec fn tile_color_index(
    vram: Seq<u8>,
    base: int,
    tile: int,
    px: int,
    py: int,
    pal256: bool,
    bank: int,
) -> int {
    if pal256 {
        let off = base + tile * 64 + py * 8 + px;
        if off < vram.len() {
            vram[off] as int
        } else {
            0
        }
    } else {
        let off = base + tile * 32 + py * 4 + px / 2;
        if off < vram.len() {
            let n = nybble(vram[off], px);
            if n == 0 {
                0
            } else {
                bank * 16 + n
            }
        } else {
            0
        }
    }
}

/// Pixel `x` of text background `bg` on line `y`: the tile map entry (screen blocks of
/// 32x32 tiles, 2x2 blocks at most) picks tile, flips and palette bank; color 0 is
/// transparent and a map entry past VRAM shows nothing.
pub open spec fn text_bg_pixel(bg: int, y: int, x: int, c: RenderCtx) -> Option<u16> {
    let bgcnt = mem16(c.io, REG_BG0CNT + 2 * bg);
    let tile_base = ((bgcnt >> 2) & 3) as int * 0x4000;
    let pal256 = bgcnt & 0x80 != 0;
    let map_base = ((bgcnt >> 8) & 0x1F) as int * 0x800;
    let size = (bgcnt >> 14) & 3;
    let hofs = (mem16(c.io, REG_BG0HOFS + 4 * bg) & 0x1FF) as int;
    let vofs = (mem16(c.io, REG_BG0VOFS + 4 * bg) & 0x1FF) as int;
    let map_w: int = if size == 1 || size == 3 {
        512
    } else {
        256
    };
    let map_h: int = if size >= 2 {
        512
    } else {
        256
    };
    let py = (y + vofs) % map_h;
    let px = (x + hofs) % map_w;
    let tile_x = px / 8;
    let tile_y = py / 8;
    let block: int = if size == 0 {
        0
    } else if size == 1 {
        tile_x / 32
    } else if size == 2 {
        tile_y / 32
    } else {
        tile_x / 32 + (tile_y / 32) * 2
    };
    let map_offset = map_base + block * 0x800 + ((tile_y % 32) * 32 + tile_x % 32) * 2;
    if map_offset + 1 >= c.vram.len() {
        None
    } else {
        let entry = mem16(c.vram, map_offset);
        let ax = if entry & 0x400 != 0 {
            7 - px % 8
        } else {
            px % 8
        };
        let ay = if entry & 0x800 != 0 {
            7 - py % 8
        } else {
            py % 8
        };
        let ci = tile_color_index(
            c.vram,
            tile_base,
            (entry & 0x3FF) as int,
            ax,
            ay,
            pal256,
            ((entry >> 12) & 0xF) as int,
        );
        if ci == 0 {
            None
        } else {
            Some(mem16(c.palette, ci * 2))
        }
    }
}

/// The affine parameter at I/O offset `off`, a signed 8.8 fixed-point number.
pub open spec fn affine_param(io: Seq<u8>, off: int) -> int {
    mem16(io, off) as i16 as int
}

/// The side of an affine background in pixels: 128, 256, 512 or 1024.
pub open spec fn affine_size(bgcnt: u16) -> int {
    let s = (bgcnt >> 14) & 3;
    if s == 0 {
        128
    } else if s == 1 {
        256
    } else if s == 2 {
        512
    } else {
        1024
    }
}

/// Pixel `x` of affine background `bg` (2 or 3) on line `y`: the texture point is the
/// reference point moved by (pb, pd) per line and (pa, pc) per pixel, in 8.8 fixed point;
/// outside the map it is transparent unless the map wraps around; the map holds one byte
/// per 256-color tile.
pub open spec fn affine_bg_pixel(bg: int, y: int, x: int, c: RenderCtx) -> Option<u16> {
    let bgcnt = mem16(c.io, REG_BG0CNT + 2 * bg);
    let tile_base = ((bgcnt >> 2) & 3) as int * 0x4000;
    let map_base = ((bgcnt >> 8) & 0x1F) as int * 0x800;
    let wrap = bgcnt & 0x2000 != 0;
    let size = affine_size(bgcnt);
    let p = if bg == 2 {
        REG_BG2PA as int
    } else {
        REG_BG3PA as int
    };
    let pa = affine_param(c.io, p);
    let pb = affine_param(c.io, p + 2);
    let pc = affine_param(c.io, p + 4);
    let pd = affine_param(c.io, p + 6);
    let (rx, ry) = if bg == 2 {
        (c.bg2_ref_x as int, c.bg2_ref_y as int)
    } else {
        (c.bg3_ref_x as int, c.bg3_ref_y as int)
    };
    let tx = ((rx + pb * y + pa * x) as i32) >> 8;
    let ty = ((ry + pd * y + pc * x) as i32) >> 8;
    if !wrap && (tx < 0 || ty < 0 || tx >= size || ty >= size) {
        None
    } else {
        let ux = ((tx as u32) % (size as u32)) as int;
        let uy = ((ty as u32) % (size as u32)) as int;
        let map_offset = map_base + (uy / 8) * (size / 8) + ux / 8;
        if map_offset >= c.vram.len() {
            None
        } else {
            let off = tile_base + c.vram[map_offset] as int * 64 + (uy % 8) * 8 + ux % 8;
            if off >= c.vram.len() {
                None
            } else {
                let ci = c.vram[off] as int;
                if ci == 0 {
                    None
                } else {
                    Some(mem16(c.palette, ci * 2))
                }
            }
        }
    }
}

/// Width and height in pixels of a sprite of the given shape (square, wide, tall) and
/// size selection.
pub open spec fn sprite_dims(shape: u16, size: u16) -> (u32, u32) {
    if shape == 0 {
        if size == 0 {
            (8, 8)
        } else if size == 1 {
            (16, 16)
        } else if size == 2 {
            (32, 32)
        } else if size == 3 {
            (64, 64)
        } else {
            (8, 8)
        }
    } else if shape == 1 {
        if size == 0 {
            (16, 8)
        } else if size == 1 {
            (32, 8)
        } else if size == 2 {
            (32, 16)
        } else if size == 3 {
            (64, 32)
        } else {
            (8, 8)
        }
    } else if shape == 2 {
        if size == 0 {
            (8, 16)
        } else if size == 1 {
            (8, 32)
        } else if size == 2 {
            (16, 32)
        } else if size == 3 {
            (32, 64)
        } else {
            (8, 8)
        }
    } else {
        (8, 8)
    }
}

/// The texel of a sprite that screen offset (`off`, `sy`) shows, if any: affine sprites
/// map it through their matrix about the center (and may fall outside), others flip.
pub open spec fn sprite_texel(
    oam: Seq<u8>,
    attr1: u16,
    affine: bool,
    w: int,
    h: int,
    rw: int,
    rh: int,
    off: int,
    sy: int,
) -> Option<(int, int)> {
    if affine {
        let a = ((attr1 >> 9) & 0x1F) as int;
        let pa = mem16(oam, a * 32 + 6) as i16 as int;
        let pb = mem16(oam, a * 32 + 14) as i16 as int;
        let pc = mem16(oam, a * 32 + 22) as i16 as int;
        let pd = mem16(oam, a * 32 + 30) as i16 as int;
        let dx = off - rw / 2;
        let dy = sy - rh / 2;
        let tx = (((pa * dx + pb * dy) as i32) >> 8) + w / 2;
        let ty = (((pc * dx + pd * dy) as i32) >> 8) + h / 2;
        if tx < 0 || tx >= w || ty < 0 || ty >= h {
            None
        } else {
            Some((tx as int, ty as int))
        }
    } else {
        let tx = if attr1 & 0x1000 != 0 {
            w - 1 - off
        } else {
            off
        };
        let ty = if attr1 & 0x2000 != 0 {
            h - 1 - sy
        } else {
            sy
        };
        Some((tx, ty))
    }
}

/// The color of texel (`tx`, `ty`) of a sprite: tiles follow 1D or 2D mapping (DISPCNT
/// bit 6) from the sprite tile base at 0x10000, 256-color tiles count as two; color 0 is
/// transparent; the sprite palette starts at 0x200.
pub open spec fn sprite_tile_pixel(c: RenderCtx, attr0: u16, attr2: u16, w: int, tx: int, ty: int) -> Option<u16> {
    let tile_id = (attr2 & 0x3FF) as int;
    let pal256 = attr0 & 0x2000 != 0;
    let map1d = mem16(c.io, REG_DISPCNT as int) & 0x40 != 0;
    let tox = tx / 8;
    let toy = ty / 8;
    let tile = if map1d {
        if pal256 {
            tile_id + toy * (w / 8) * 2 + tox * 2
        } else {
            tile_id + toy * (w / 8) + tox
        }
    } else {
        if pal256 {
            tile_id + toy * 32 + tox * 2
        } else {
            tile_id + toy * 32 + tox
        }
    };
    let ci = if pal256 {
        let o = 0x10000 + tile * 32 + (ty % 8) * 8 + tx % 8;
        if o < c.vram.len() {
            c.vram[o] as int
        } else {
            0
        }
    } else {
        tile_color_index(c.vram, 0x10000, tile, tx % 8, ty % 8, false, ((attr2 >> 12) & 0xF) as int)
    };
    if ci == 0 {
        None
    } else {
        Some(mem16(c.palette, 0x200 + ci * 2))
    }
}

/// Pixel `x` of sprite `obj` on line `y`: sprites whose attributes do not fit in OAM or
/// that are disabled show nothing; the sprite covers its (doubled, for double-size affine
/// sprites) box placed at its 8-bit Y (wrapping past 160) and 9-bit X (negative from 240);
/// tiles follow 1D or 2D mapping (DISPCNT bit 6) from the sprite tile base at 0x10000;
/// the sprite palette starts at 0x200.
pub open spec fn sprite_pixel(obj: int, y: int, x: int, c: RenderCtx) -> Option<u16> {
    let ao = obj * 8;
    if ao + 5 >= c.oam.len() {
        None
    } else {
        let attr0 = mem16(c.oam, ao);
        let attr1 = mem16(c.oam, ao + 2);
        let attr2 = mem16(c.oam, ao + 4);
        let mode = (attr0 >> 8) & 3;
        let affine = mode == 1 || mode == 3;
        let double = mode == 3;
        let (w, h) = sprite_dims((attr0 >> 14) & 3, (attr1 >> 14) & 3);
        let obj_y = (attr0 & 0xFF) as int;
        let ox = (attr1 & 0x1FF) as int;
        let obj_x = if ox >= 240 {
            ox - 512
        } else {
            ox
        };
        let rw: int = if double {
            2 * w
        } else {
            w as int
        };
        let rh: int = if double {
            2 * h
        } else {
            h as int
        };
        let sy = if obj_y > 160 {
            y + 256 - obj_y
        } else {
            y - obj_y
        };
        let off = x - obj_x;
        if mode == 2 || sy < 0 || sy >= rh || off < 0 || off >= rw {
            None
        } else {
            match sprite_texel(c.oam, attr1, affine, w as int, h as int, rw, rh, off, sy) {
                None => None,
                Some((tx, ty)) => sprite_tile_pixel(c, attr0, attr2, w as int, tx, ty),
            }
        }
    }
}

/// The layers that go through the priority buffer.
#[derive(Debug, Clone, Copy, PartialEq, Eq, Structural)]
pub enum Layer {
    Text(usize),
    Affine(usize),
    Sprite(usize),
}

/// The layer exists on the hardware: text backgrounds 0-3, affine backgrounds 2-3,
/// sprites 0-127.
pub open spec fn layer_valid(l: Layer) -> bool {
    match l {
        Layer::Text(bg) => bg < 4,
        Layer::Affine(bg) => bg == 2 || bg == 3,
        Layer::Sprite(obj) => obj < 128,
    }
}

/// Pixel `x` of a layer on line `y`.
pub open spec fn layer_pixel(l: Layer, y: int, x: int, c: RenderCtx) -> Option<u16> {
    match l {
        Layer::Text(bg) => text_bg_pixel(bg as int, y, x, c),
        Layer::Affine(bg) => affine_bg_pixel(bg as int, y, x, c),
        Layer::Sprite(obj) => sprite_pixel(obj as int, y, x, c),
    }
}

/// The priority of a layer: bits 0-1 of BGxCNT, or bits 10-11 of a sprite's attribute 2.
pub open spec fn layer_priority(l: Layer, c: RenderCtx) -> u8 {
    match l {
        Layer::Text(bg) => (mem16(c.io, REG_BG0CNT + 2 * bg) & 3) as u8,
        Layer::Affine(bg) => (mem16(c.io, REG_BG0CNT + 2 * bg) & 3) as u8,
        Layer::Sprite(obj) => ((mem16(c.oam, obj * 8 + 4) >> 10) & 3) as u8,
    }
}

// =============================================================================
// Drawing a line
// =============================================================================

/// Framebuffer and priority buffer while a line is drawn.
#[verifier::ext_equal]
pub struct LineState {
    pub fb: Seq<u16>,
    pub prio: Seq<u8>,
}

/// Pixels 0..n of a layer with priority `p` drawn on the line that starts at `line`: a
/// pixel that the layer shows replaces what is there unless that has a smaller priority
/// number, and its priority is recorded.
pub open spec fn draw_upto(
    ls: LineState,
    line: int,
    px: spec_fn(int) -> Option<u16>,
    p: u8,
    n: int,
) -> LineState {
    LineState {
        fb: Seq::new(
            ls.fb.len(),
            |k: int|
                {
                    let x = k - line;
                    if 0 <= x < n && px(x) is Some && p <= ls.prio[x] {
                        px(x).unwrap()
                    } else {
                        ls.fb[k]
                    }
                },
        ),
        prio: Seq::new(
            ls.prio.len(),
            |x: int|
                if 0 <= x < n && px(x) is Some && p <= ls.prio[x] {
                    p
                } else {
                    ls.prio[x]
                },
        ),
    }
}

/// The pixel function of a layer on line `y`.
pub open spec fn layer_fn(l: Layer, y: int, c: RenderCtx) -> spec_fn(int) -> Option<u16> {
    |x: int| layer_pixel(l, y, x, c)
}

/// A whole layer drawn on line `y`.
pub open spec fn draw_layer(ls: LineState, l: Layer, y: int, c: RenderCtx) -> LineState {
    draw_upto(ls, y * 240, layer_fn(l, y, c), layer_priority(l, c), 240)
}

/// Drawing a layer on line `y` only changes that line of the framebuffer, never raises a
/// priority, and changes a pixel only where the layer's priority number is no greater
/// than what was there, recording that priority.
pub proof fn lemma_draw_layer_priority(ls: LineState, l: Layer, y: int, c: RenderCtx)
    requires
        0 <= y < 160,
        ls.fb.len() >= 38_400,
        ls.prio.len() >= 240,
    ensures
        ({
            let d = draw_layer(ls, l, y, c);
            let p = layer_priority(l, c);
            &&& d.fb.len() == ls.fb.len()
            &&& d.prio.len() == ls.prio.len()
            &&& forall|k: int|
                0 <= k < ls.fb.len() && !(y * 240 <= k < y * 240 + 240) ==> d.fb[k] == ls.fb[k]
            &&& forall|x: int| 240 <= x < ls.prio.len() ==> d.prio[x] == ls.prio[x]
            &&& forall|x: int|
                0 <= x < 240 ==> {
                    &&& d.prio[x] <= ls.prio[x]
                    &&& (d.fb[y * 240 + x] != ls.fb[y * 240 + x] || d.prio[x] != ls.prio[x])
                        ==> p <= ls.prio[x] && d.prio[x] == p
                }
        }),
{
}

/// Pixels 0..n of a bitmap written straight into the line, without priorities.
pub open spec fn bitmap_upto(
    ls: LineState,
    line: int,
    px: spec_fn(int) -> Option<u16>,
    n: int,
) -> LineState {
    LineState {
        fb: Seq::new(
            ls.fb.len(),
            |k: int|
                {
                    let x = k - line;
                    if 0 <= x < n && px(x) is Some {
                        px(x).unwrap()
                    } else {
                        ls.fb[k]
                    }
                },
        ),
        prio: ls.prio,
    }
}

/// Mode 3 pixel: a 240x160 16-bit bitmap at the start of VRAM.
pub open spec fn mode3_pixel(y: int, c: RenderCtx) -> spec_fn(int) -> Option<u16> {
    |x: int|
        {
            let off = (y * 240 + x) * 2;
            if off + 1 < c.vram.len() {
                Some(mem16(c.vram, off))
            } else {
                None
            }
        }
}

/// The bitmap page that DISPCNT bit 4 selects: 0 or 0xA000.
pub open spec fn page_offset(io: Seq<u8>) -> int {
    if mem16(io, REG_DISPCNT as int) & 0x10 != 0 {
        0xA000
    } else {
        0
    }
}

/// Mode 4 pixel: a 240x160 8-bit indexed bitmap; index 0 is transparent.
pub open spec fn mode4_pixel(y: int, c: RenderCtx) -> spec_fn(int) -> Option<u16> {
    |x: int|
        {
            let idx = page_offset(c.io) + y * 240 + x;
            if idx < c.vram.len() && c.vram[idx] != 0 {
                Some(mem16(c.palette, c.vram[idx] as int * 2))
            } else {
                None
            }
        }
}

/// Mode 5 pixel: a 160x128 16-bit bitmap.
pub open spec fn mode5_pixel(y: int, c: RenderCtx) -> spec_fn(int) -> Option<u16> {
    |x: int|
        {
            let off = page_offset(c.io) + (y * 160 + x) * 2;
            if off + 1 < c.vram.len() {
                Some(mem16(c.vram, off))
            } else {
                None
            }
        }
}

/// The DISPCNT bit that enables background `bg` (bits 8-11).
pub open spec fn bg_bit(bg: int) -> u16 {
    if bg == 0 {
        0x100
    } else if bg == 1 {
        0x200
    } else if bg == 2 {
        0x400
    } else {
        0x800
    }
}

/// Background `bg` drawn as a text layer if DISPCNT enables it.
pub open spec fn text_if_on(ls: LineState, bg: int, y: int, c: RenderCtx) -> LineState {
    if mem16(c.io, REG_DISPCNT as int) & bg_bit(bg) != 0 {
        draw_layer(ls, Layer::Text(bg as usize), y, c)
    } else {
        ls
    }
}

/// Background `bg` drawn as an affine layer if DISPCNT enables it.
pub open spec fn affine_if_on(ls: LineState, bg: int, y: int, c: RenderCtx) -> LineState {
    if mem16(c.io, REG_DISPCNT as int) & bg_bit(bg) != 0 {
        draw_layer(ls, Layer::Affine(bg as usize), y, c)
    } else {
        ls
    }
}

/// Text backgrounds 3 down to 4 - n, as mode 0 draws them (lowest priority first).
pub open spec fn text_down(ls: LineState, y: int, c: RenderCtx, n: int) -> LineState
    decreases n,
{
    if n <= 0 {
        ls
    } else {
        text_if_on(text_down(ls, y, c, n - 1), 4 - n, y, c)
    }
}

/// The bitmap pixels of mode 3, 4 or 5.
pub open spec fn bitmap_fn(mode: int, y: int, c: RenderCtx) -> spec_fn(int) -> Option<u16> {
    if mode == 3 {
        mode3_pixel(y, c)
    } else if mode == 4 {
        mode4_pixel(y, c)
    } else {
        mode5_pixel(y, c)
    }
}

/// The backgrounds of a mode drawn on line `y`, each only when DISPCNT enables it: mode 0
/// text BG3..BG0; mode 1 affine BG2 then text BG1, BG0; mode 2 affine BG3, BG2; modes 3-5
/// bitmaps (mode 5 only on its 128 lines, 160 pixels wide); modes 6 and 7 nothing.
pub open spec fn draw_backgrounds(ls: LineState, y: int, c: RenderCtx) -> LineState {
    let mode = mem16(c.io, REG_DISPCNT as int) & 7;
    if mode == 0 {
        text_down(ls, y, c, 4)
    } else if mode == 1 {
        text_if_on(text_if_on(affine_if_on(ls, 2, y, c), 1, y, c), 0, y, c)
    } else if mode == 2 {
        affine_if_on(affine_if_on(ls, 3, y, c), 2, y, c)
    } else if mode == 3 || mode == 4 {
        bitmap_upto(ls, y * 240, bitmap_fn(mode as int, y, c), 240)
    } else if mode == 5 {
        if y >= 128 {
            ls
        } else {
            bitmap_upto(ls, y * 240, bitmap_fn(5, y, c), 160)
        }
    } else {
        ls
    }
}

/// Sprites 127 down to 128 - n drawn on line `y` (lower numbers end up on top).
pub open spec fn sprites_upto(ls: LineState, y: int, c: RenderCtx, n: int) -> LineState
    decreases n,
{
    if n <= 0 {
        ls
    } else {
        draw_layer(sprites_upto(ls, y, c, n - 1), Layer::Sprite((128 - n) as usize), y, c)
    }
}

// =============================================================================
// Layer pixels, computed
// =============================================================================

/// The palette index of a tile pixel (0 when transparent)
fn tile_color(
    vram: &[u8],
    base: usize,
    tile: usize,
    px: usize,
    py: usize,
    pal256: bool,
    bank: usize,
) -> (ci: usize)
    requires
        base <= 0x10000,
        tile <= 0x800,
        px < 8,
        py < 8,
        bank < 16,
    ensures
        ci as int == tile_color_index(vram@, base as int, tile as int, px as int, py as int, pal256, bank as int),
        ci < 256,
{
    if pal256 {
        let offset = base + tile * 64 + py * 8 + px;
        if offset < vram.len() {
            vram[offset] as usize
        } else {
            0
        }
    } else {
        let offset = base + tile * 32 + py * 4 + px / 2;
        if offset < vram.len() {
            let byte = vram[offset];
            let nyb = if px % 2 != 0 {
                (byte / 16) as usize
            } else {
                (byte % 16) as usize
            };
            if nyb == 0 {
                0
            } else {
                bank * 16 + nyb
            }
        } else {
            0
        }
    }
}

/// Pixel `x` of text background `bg` on line `y`
#[verifier::rlimit(50)]
fn text_bg_color(bg: usize, y: u16, x: usize, io: &[u8], palette: &[u8], vram: &[u8]) -> (r:
    Option<u16>)
    requires
        bg < 4,
        y < 160,
        x < 240,
    ensures
        forall|c: RenderCtx|
            c.io == io@ && c.palette == palette@ && c.vram == vram@ ==> r == text_bg_pixel(
                bg as int,
                y as int,
                x as int,
                c,
            ),
{
    proof {
        lemma_and_bound();
    }
    let bgcnt = read16(io, REG_BG0CNT as usize + bg * 2);
    let tile_base = ((bgcnt >> 2) & 3) as usize * 0x4000;
    let pal256 = bgcnt & 0x80 != 0;
    let map_base = ((bgcnt >> 8) & 0x1F) as usize * 0x800;
    let screen_size = (bgcnt >> 14) & 3;
    let hofs = (read16(io, REG_BG0HOFS as usize + bg * 4) & 0x1FF) as usize;
    let vofs = (read16(io, REG_BG0VOFS as usize + bg * 4) & 0x1FF) as usize;
    let map_w: usize = if screen_size == 1 || screen_size == 3 {
        512
    } else {
        256
    };
    let map_h: usize = if screen_size >= 2 {
        512
    } else {
        256
    };
    let py = (y as usize + vofs) % map_h;
    let px = (x + hofs) % map_w;
    let tile_x = px / 8;
    let tile_y = py / 8;
    // Determine which screen block
    let screen_block: usize = if screen_size == 0 {
        0
    } else if screen_size == 1 {
        tile_x / 32
    } else if screen_size == 2 {
        tile_y / 32
    } else {
        (tile_x / 32) + (tile_y / 32) * 2
    };
    let map_offset = map_base + screen_block * 0x800 + ((tile_y % 32) * 32 + tile_x % 32) * 2;
    if map_offset + 1 >= vram.len() {
        return None;
    }
    let tile_entry = read16(vram, map_offset);
    let tile_id = (tile_entry & 0x3FF) as usize;
    let h_flip = tile_entry & 0x400 != 0;
    let v_flip = tile_entry & 0x800 != 0;
    let pal_bank = ((tile_entry >> 12) & 0xF) as usize;
    let actual_px = if h_flip {
        7 - px % 8
    } else {
        px % 8
    };
    let actual_py = if v_flip {
        7 - py % 8
    } else {
        py % 8
    };
    let color_idx = tile_color(vram, tile_base, tile_id, actual_px, actual_py, pal256, pal_bank);
    if color_idx != 0 {
        Some(read16(palette, color_idx * 2))
    } else {
        None
    }
}

/// DISPCNT selects mode 1 or 2, the modes with an affine background.
pub open spec fn affine_mode(io: Seq<u8>) -> bool {
    mem16(io, REG_DISPCNT as int) & 7 == 1 || mem16(io, REG_DISPCNT as int) & 7 == 2
}

/// The reference points of the affine backgrounds are 28-bit numbers, as latching makes
/// them.
pub open spec fn refs_in_range(p: Ppu) -> bool {
    &&& -0x0800_0000 <= p.bg2_ref_x < 0x0800_0000
    &&& -0x0800_0000 <= p.bg2_ref_y < 0x0800_0000
    &&& -0x0800_0000 <= p.bg3_ref_x < 0x0800_0000
    &&& -0x0800_0000 <= p.bg3_ref_y < 0x0800_0000
}

/// The context seen by a PPU reading these memories.
pub open spec fn ctx_of(p: Ppu, io: Seq<u8>, palette: Seq<u8>, vram: Seq<u8>, oam: Seq<u8>) -> RenderCtx {
    RenderCtx {
        io,
        palette,
        vram,
        oam,
        bg2_ref_x: p.bg2_ref_x,
        bg2_ref_y: p.bg2_ref_y,
        bg3_ref_x: p.bg3_ref_x,
        bg3_ref_y: p.bg3_ref_y,
    }
}

/// An affine parameter register
fn read_param(io: &[u8], offset: usize) -> (r: i32)
    requires
        offset < 0x100,
    ensures
        r as int == affine_param(io@, offset as int),
        -0x8000 <= r < 0x8000,
{
    read16(io, offset) as i16 as i32
}

impl Ppu {
    /// Pixel `x` of affine background `bg` on line `y`
    fn affine_bg_color(&self, bg: usize, y: u16, x: usize, io: &[u8], palette: &[u8], vram: &[u8]) -> (r:
        Option<u16>)
        requires
            bg == 2 || bg == 3,
            y < 160,
            x < 240,
            refs_in_range(*self),
        ensures
            forall|oam: Seq<u8>|
                r == affine_bg_pixel(
                    bg as int,
                    y as int,
                    x as int,
                    #[trigger] ctx_of(*self, io@, palette@, vram@, oam),
                ),
    {
        proof {
            lemma_and_bound();
        }
        let bgcnt = read16(io, REG_BG0CNT as usize + bg * 2);
        let tile_base = ((bgcnt >> 2) & 3) as usize * 0x4000;
        let map_base = ((bgcnt >> 8) & 0x1F) as usize * 0x800;
        let wraparound = bgcnt & 0x2000 != 0;
        let screen_size = (bgcnt >> 14) & 3;
        let size: u32 = if screen_size == 0 {
            128
        } else if screen_size == 1 {
            256
        } else if screen_size == 2 {
            512
        } else {
            1024
        };
        let tiles = (size / 8) as usize;
        // Affine parameters
        let pa_offset: usize = if bg == 2 {
            REG_BG2PA as usize
        } else {
            REG_BG3PA as usize
        };
        let pa = read_param(io, pa_offset);
        let pb = read_param(io, pa_offset + 2);
        let pc = read_param(io, pa_offset + 4);
        let pd = read_param(io, pa_offset + 6);
        let (ref_x, ref_y) = if bg == 2 {
            (self.bg2_ref_x, self.bg2_ref_y)
        } else {
            (self.bg3_ref_x, self.bg3_ref_y)
        };
        let yi = y as i32;
        let xi = x as i32;
        assert(-0x8000 * 160 <= pb * yi <= 0x8000 * 160) by (nonlinear_arith)
            requires
                -0x8000 <= pb < 0x8000,
                0 <= yi < 160,
        ;
        assert(-0x8000 * 160 <= pd * yi <= 0x8000 * 160) by (nonlinear_arith)
            requires
                -0x8000 <= pd < 0x8000,
                0 <= yi < 160,
        ;
        assert(-0x8000 * 240 <= pa * xi <= 0x8000 * 240) by (nonlinear_arith)
            requires
                -0x8000 <= pa < 0x8000,
                0 <= xi < 240,
        ;
        assert(-0x8000 * 240 <= pc * xi <= 0x8000 * 240) by (nonlinear_arith)
            requires
                -0x8000 <= pc < 0x8000,
                0 <= xi < 240,
        ;
        // Texture coordinates of this pixel, from 8.8 fixed point to pixels
        let tex_x = ref_x + pb * yi + pa * xi;
        let tex_y = ref_y + pd * yi + pc * xi;
        let px = tex_x >> 8;
        let py = tex_y >> 8;
        if !wraparound && (px < 0 || py < 0 || px >= size as i32 || py >= size as i32) {
            return None;
        }
        let ux = (px as u32) % size;
        let uy = (py as u32) % size;
        let px = ux as usize;
        let py = uy as usize;
        assert((py / 8) * tiles <= 128 * 128) by (nonlinear_arith)
            requires
                py < 1024,
                tiles <= 128,
        ;
        let map_offset = map_base + (py / 8) * tiles + px / 8;
        if map_offset >= vram.len() {
            return None;
        }
        let tile_id = vram[map_offset] as usize;
        let vram_offset = tile_base + tile_id * 64 + (py % 8) * 8 + px % 8;
        if vram_offset >= vram.len() {
            return None;
        }
        let color_idx = vram[vram_offset] as usize;
        if color_idx != 0 {
            Some(read16(palette, color_idx * 2))
        } else {
            None
        }
    }
}

// =============================================================================
// Sprite dimension lookup
// =============================================================================

pub fn sprite_dimensions(shape: u16, size: u16) -> (r: (u32, u32))
    ensures
        r == sprite_dims(shape, size),
{
    if shape == 0 {
        // Square
        if size == 0 {
            (8, 8)
        } else if size == 1 {
            (16, 16)
        } else if size == 2 {
            (32, 32)
        } else if size == 3 {
            (64, 64)
        } else {
            (8, 8)
        }
    } else if shape == 1 {
        // Horizontal
        if size == 0 {
            (16, 8)
        } else if size == 1 {
            (32, 8)
        } else if size == 2 {
            (32, 16)
        } else if size == 3 {
            (64, 32)
        } else {
            (8, 8)
        }
    } else if shape == 2 {
        // Vertical
        if size == 0 {
            (8, 16)
        } else if size == 1 {
            (8, 32)
        } else if size == 2 {
            (16, 32)
        } else if size == 3 {
            (32, 64)
        } else {
            (8, 8)
        }
    } else {
        (8, 8)
    }
}

/// Every sprite is between 8 and 64 pixels wide and high, in whole tiles.
proof fn lemma_sprite_dims_bounds(shape: u16, size: u16)
    ensures
        8 <= sprite_dims(shape, size).0 <= 64,
        8 <= sprite_dims(shape, size).1 <= 64,
        sprite_dims(shape, size).0 % 8 == 0,
        sprite_dims(shape, size).1 % 8 == 0,
{
}

/// The texel of an affine sprite at screen offset (`off`, `sy`)
fn affine_texel(oam: &[u8], attr1: u16, w: i32, h: i32, rw: i32, rh: i32, off: i32, sy: i32) -> (r:
    Option<(usize, usize)>)
    requires
        8 <= w <= 64,
        8 <= h <= 64,
        w <= rw <= 128,
        h <= rh <= 128,
        0 <= off < rw,
        0 <= sy < rh,
    ensures
        match sprite_texel(oam@, attr1, true, w as int, h as int, rw as int, rh as int, off as int, sy as int) {
            Some((tx, ty)) => r == Some((tx as usize, ty as usize)) && 0 <= tx < w && 0 <= ty < h,
            None => r is None,
        },
{
    proof {
        lemma_and_bound();
    }
    let affine_idx = ((attr1 >> 9) & 0x1F) as usize;
    let pa = read16(oam, affine_idx * 32 + 6) as i16 as i32;
    let pb = read16(oam, affine_idx * 32 + 14) as i16 as i32;
    let pc = read16(oam, affine_idx * 32 + 22) as i16 as i32;
    let pd = read16(oam, affine_idx * 32 + 30) as i16 as i32;
    let cx = rw / 2;
    let cy = rh / 2;
    let dx = off - cx;
    let dy = sy - cy;
    assert(-0x8000 * 128 <= pa * dx <= 0x8000 * 128) by (nonlinear_arith)
        requires
            -0x8000 <= pa < 0x8000,
            -128 <= dx <= 128,
    ;
    assert(-0x8000 * 128 <= pb * dy <= 0x8000 * 128) by (nonlinear_arith)
        requires
            -0x8000 <= pb < 0x8000,
            -128 <= dy <= 128,
    ;
    assert(-0x8000 * 128 <= pc * dx <= 0x8000 * 128) by (nonlinear_arith)
        requires
            -0x8000 <= pc < 0x8000,
            -128 <= dx <= 128,
    ;
    assert(-0x8000 * 128 <= pd * dy <= 0x8000 * 128) by (nonlinear_arith)
        requires
            -0x8000 <= pd < 0x8000,
            -128 <= dy <= 128,
    ;
    proof {
        lemma_shr8_bound();
    }
    let tx = ((pa * dx + pb * dy) >> 8) + (w / 2);
    let ty = ((pc * dx + pd * dy) >> 8) + (h / 2);
    if tx < 0 || tx >= w || ty < 0 || ty >= h {
        None
    } else {
        Some((tx as usize, ty as usize))
    }
}

/// Pixel `x` of sprite `obj` on line `y`
#[verifier::rlimit(50)]
fn sprite_color(obj: usize, y: u16, x: usize, io: &[u8], palette: &[u8], vram: &[u8], oam: &[u8]) -> (r:
    Option<u16>)
    requires
        obj < 128,
        y < 160,
        x < 240,
    ensures
        forall|c: RenderCtx|
            c.io == io@ && c.palette == palette@ && c.vram == vram@ && c.oam == oam@ ==> r
                == sprite_pixel(obj as int, y as int, x as int, c),
{
    proof {
        lemma_and_bound();
    }
    let attr_offset = obj * 8;
    if attr_offset + 5 >= oam.len() {
        return None;
    }
    let attr0 = read16(oam, attr_offset);
    let attr1 = read16(oam, attr_offset + 2);
    let attr2 = read16(oam, attr_offset + 4);
    // Check if sprite is disabled
    let obj_mode = (attr0 >> 8) & 3;
    if obj_mode == 2 {
        return None;
    }
    let is_affine = obj_mode == 1 || obj_mode == 3;
    let double_size = obj_mode == 3;
    let shape = (attr0 >> 14) & 3;
    let size_idx = (attr1 >> 14) & 3;
    let (width, height) = sprite_dimensions(shape, size_idx);
    proof {
        lemma_sprite_dims_bounds(shape, size_idx);
    }
    let obj_y = (attr0 & 0xFF) as i32;
    let obj_x = (attr1 & 0x1FF) as i32;
    let obj_x = if obj_x >= 240 {
        obj_x - 512
    } else {
        obj_x
    };
    let render_h = if double_size {
        height * 2
    } else {
        height
    } as i32;
    let render_w = if double_size {
        width * 2
    } else {
        width
    } as i32;
    // Check if this sprite is on the current scanline
    let sprite_y = if obj_y > 160 {
        y as i32 + (256 - obj_y)
    } else {
        y as i32 - obj_y
    };
    let screen_off_x = x as i32 - obj_x;
    if sprite_y < 0 || sprite_y >= render_h || screen_off_x < 0 || screen_off_x >= render_w {
        return None;
    }
    let texel = if is_affine {
        affine_texel(
            oam,
            attr1,
            width as i32,
            height as i32,
            render_w,
            render_h,
            screen_off_x,
            sprite_y,
        )
    } else {
        let tx = if attr1 & 0x1000 != 0 {
            width as i32 - 1 - screen_off_x
        } else {
            screen_off_x
        };
        let ty = if attr1 & 0x2000 != 0 {
            height as i32 - 1 - sprite_y
        } else {
            sprite_y
        };
        Some((tx as usize, ty as usize))
    };
    let (tex_x, tex_y) = match texel {
        Some(t) => t,
        None => {
            return None;
        },
    };
    sprite_tile_color(io, palette, vram, attr0, attr2, width as usize, tex_x, tex_y)
}

/// The color of texel (`tex_x`, `tex_y`) of a sprite
fn sprite_tile_color(
    io: &[u8],
    palette: &[u8],
    vram: &[u8],
    attr0: u16,
    attr2: u16,
    width: usize,
    tex_x: usize,
    tex_y: usize,
) -> (r: Option<u16>)
    requires
        8 <= width <= 64,
        tex_x < 64,
        tex_y < 64,
    ensures
        forall|c: RenderCtx|
            c.io == io@ && c.palette == palette@ && c.vram == vram@ ==> r == sprite_tile_pixel(
                c,
                attr0,
                attr2,
                width as int,
                tex_x as int,
                tex_y as int,
            ),
{
    proof {
        lemma_and_bound();
    }
    let tile_id = (attr2 & 0x3FF) as usize;
    let palette_bank = ((attr2 >> 12) & 0xF) as usize;
    let palette_256 = attr0 & 0x2000 != 0;
    let obj_mapping = read16(io, REG_DISPCNT as usize) & 0x40 != 0;
    let tile_offset_x = tex_x / 8;
    let tile_offset_y = tex_y / 8;
    let pixel_x = tex_x % 8;
    let pixel_y = tex_y % 8;
    let wt = width / 8;
    assert(tile_offset_y * wt <= 64) by (nonlinear_arith)
        requires
            tile_offset_y < 8,
            wt <= 8,
    ;
    let actual_tile = if obj_mapping {
        // 1D mapping
        if palette_256 {
            tile_id + tile_offset_y * wt * 2 + tile_offset_x * 2
        } else {
            tile_id + tile_offset_y * wt + tile_offset_x
        }
    } else {
        // 2D mapping (32 tiles per row)
        if palette_256 {
            tile_id + tile_offset_y * 32 + tile_offset_x * 2
        } else {
            tile_id + tile_offset_y * 32 + tile_offset_x
        }
    };
    let color_idx = if palette_256 {
        let offset = 0x10000 + actual_tile * 32 + pixel_y * 8 + pixel_x;
        if offset < vram.len() {
            vram[offset] as usize
        } else {
            0
        }
    } else {
        tile_color(vram, 0x10000, actual_tile, pixel_x, pixel_y, false, palette_bank)
    };
    if color_idx != 0 {
        // Sprite palette is at offset 0x200 in palette RAM
        Some(read16(palette, 0x200 + color_idx * 2))
    } else {
        None
    }
}

// =============================================================================
// Drawing layers
// =============================================================================

/// Everything but the framebuffer and priority buffer contents is as it was, and both
/// keep their lengths.
pub open spec fn only_line_changed(a: Ppu, b: Ppu) -> bool {
    &&& a.vcount == b.vcount
    &&& a.dot == b.dot
    &&& a.frame_ready == b.frame_ready
    &&& a.bg2_ref_x == b.bg2_ref_x
    &&& a.bg2_ref_y == b.bg2_ref_y
    &&& a.bg3_ref_x == b.bg3_ref_x
    &&& a.bg3_ref_y == b.bg3_ref_y
    &&& a.framebuffer@.len() == b.framebuffer@.len()
    &&& a.priority_buffer@.len() == b.priority_buffer@.len()
}

/// The buffers have room for the whole screen and one line of priorities.
pub open spec fn buffers_fit(p: Ppu) -> bool {
    p.framebuffer@.len() >= 38_400 && p.priority_buffer@.len() >= 240
}

/// The line state of a PPU.
pub open spec fn line_of(p: Ppu) -> LineState {
    LineState { fb: p.framebuffer@, prio: p.priority_buffer@ }
}

impl Ppu {
    /// Pixel `x` of a layer on line `y`
    fn layer_color(
        &self,
        layer: Layer,
        y: u16,
        x: usize,
        io: &[u8],
        palette: &[u8],
        vram: &[u8],
        oam: &[u8],
    ) -> (r: Option<u16>)
        requires
            layer_valid(layer),
            y < 160,
            x < 240,
            layer is Affine ==> refs_in_range(*self),
        ensures
            r == layer_pixel(layer, y as int, x as int, ctx_of(*self, io@, palette@, vram@, oam@)),
    {
        match layer {
            Layer::Text(bg) => text_bg_color(bg, y, x, io, palette, vram),
            Layer::Affine(bg) => self.affine_bg_color(bg, y, x, io, palette, vram),
            Layer::Sprite(obj) => sprite_color(obj, y, x, io, palette, vram, oam),
        }
    }

    /// Draw a whole layer on line `y`
    fn draw(&mut self, layer: Layer, y: u16, io: &[u8], palette: &[u8], vram: &[u8], oam: &[u8])
        requires
            layer_valid(layer),
            y < 160,
            layer is Affine ==> refs_in_range(*old(self)),
            buffers_fit(*old(self)),
        ensures
            line_of(*final(self)) == draw_layer(
                line_of(*old(self)),
                layer,
                y as int,
                ctx_of(*old(self), io@, palette@, vram@, oam@),
            ),
            only_line_changed(*final(self), *old(self)),
    {
        let ghost c = ctx_of(*self, io@, palette@, vram@, oam@);
        let ghost ls0 = line_of(*self);
        proof {
            lemma_and_bound();
        }
        let priority: u8 = match layer {
            Layer::Text(bg) => (read16(io, REG_BG0CNT as usize + bg * 2) & 3) as u8,
            Layer::Affine(bg) => (read16(io, REG_BG0CNT as usize + bg * 2) & 3) as u8,
            Layer::Sprite(obj) => ((read16(oam, obj * 8 + 4) >> 10) & 3) as u8,
        };
        let line_start = y as usize * 240;
        let mut x: usize = 0;
        while x < 240
            invariant
                layer_valid(layer),
                y < 160,
                line_start == y * 240,
                x <= 240,
                c == ctx_of(*self, io@, palette@, vram@, oam@),
                layer is Affine ==> refs_in_range(*self),
                buffers_fit(*self),
                only_line_changed(*self, *old(self)),
                ls0 == line_of(*old(self)),
                priority == layer_priority(layer, c),
                line_of(*self) == draw_upto(ls0, y * 240, layer_fn(layer, y as int, c), priority, x as int),
            decreases 240 - x,
        {
            let color = self.layer_color(layer, y, x, io, palette, vram, oam);
            let ghost before = line_of(*self);
            match color {
                Some(col) => {
                    if priority <= self.priority_buffer[x] {
                        self.framebuffer.set(line_start + x, col);
                        self.priority_buffer.set(x, priority);
                    }
                },
                None => {},
            }
            assert(line_of(*self) =~= draw_upto(
                ls0,
                y * 240,
                layer_fn(layer, y as int, c),
                priority,
                x + 1,
            ));
            x = x + 1;
        }
    }
}

// =============================================================================
// Background modes
// =============================================================================

/// Pixel `x` of the mode 3, 4 or 5 bitmap on line `y`
fn bitmap_color(mode: u16, y: u16, x: usize, io: &[u8], palette: &[u8], vram: &[u8]) -> (r: Option<u16>)
    requires
        3 <= mode <= 5,
        y < 160,
        x < 240,
    ensures
        forall|c: RenderCtx|
            c.io == io@ && c.palette == palette@ && c.vram == vram@ ==> r == (bitmap_fn(
                mode as int,
                y as int,
                c,
            ))(x as int),
{
    let dispcnt = read16(io, REG_DISPCNT as usize);
    let page_offset: usize = if dispcnt & 0x10 != 0 {
        0xA000
    } else {
        0
    };
    if mode == 3 {
        let vram_offset = (y as usize * 240 + x) * 2;
        if vram_offset + 1 < vram.len() {
            Some(read16(vram, vram_offset))
        } else {
            None
        }
    } else if mode == 4 {
        let idx = page_offset + y as usize * 240 + x;
        if idx < vram.len() {
            let color_idx = vram[idx] as usize;
            if color_idx != 0 {
                Some(read16(palette, color_idx * 2))
            } else {
                None
            }
        } else {
            None
        }
    } else {
        let vram_offset = page_offset + (y as usize * 160 + x) * 2;
        if vram_offset + 1 < vram.len() {
            Some(read16(vram, vram_offset))
        } else {
            None
        }
    }
}

impl Ppu {
    /// Write pixels 0..width of a bitmap mode straight into line `y`
    fn draw_bitmap(&mut self, mode: u16, width: usize, y: u16, io: &[u8], palette: &[u8], vram: &[u8])
        requires
            3 <= mode <= 5,
            width <= 240,
            y < 160,
            buffers_fit(*old(self)),
        ensures
            forall|oam: Seq<u8>|
                line_of(*final(self)) == bitmap_upto(
                    line_of(*old(self)),
                    y * 240,
                    bitmap_fn(mode as int, y as int, #[trigger] ctx_of(*old(self), io@, palette@, vram@, oam)),
                    width as int,
                ),
            only_line_changed(*final(self), *old(self)),
    {
        let ghost ls0 = line_of(*self);
        let line_start = y as usize * 240;
        let mut x: usize = 0;
        while x < width
            invariant
                3 <= mode <= 5,
                width <= 240,
                y < 160,
                line_start == y * 240,
                x <= width,
                buffers_fit(*self),
                only_line_changed(*self, *old(self)),
                ls0 == line_of(*old(self)),
                forall|oam: Seq<u8>|
                    line_of(*self) == bitmap_upto(
                        ls0,
                        y * 240,
                        bitmap_fn(mode as int, y as int, #[trigger] ctx_of(*old(self), io@, palette@, vram@, oam)),
                        x as int,
                    ),
            decreases width - x,
        {
            let color = bitmap_color(mode, y, x, io, palette, vram);
            let ghost before = line_of(*self);
            match color {
                Some(col) => {
                    self.framebuffer.set(line_start + x, col);
                },
                None => {},
            }
            assert forall|oam: Seq<u8>|
                line_of(*self) == bitmap_upto(
                    ls0,
                    y * 240,
                    bitmap_fn(mode as int, y as int, #[trigger] ctx_of(*old(self), io@, palette@, vram@, oam)),
                    x + 1,
                ) by {
                let c = ctx_of(*old(self), io@, palette@, vram@, oam);
                assert(before == bitmap_upto(ls0, y * 240, bitmap_fn(mode as int, y as int, c), x as int));
                assert(line_of(*self) =~= bitmap_upto(
                    ls0,
                    y * 240,
                    bitmap_fn(mode as int, y as int, c),
                    x + 1,
                ));
            }
            x = x + 1;
        }
    }

    /// Mode 3: Single 240x160 16-bit bitmap (full color)
    pub(crate) fn render_mode3(&mut self, y: u16, io: &[u8], palette: &[u8], vram: &[u8])
        requires
            y < 160,
            buffers_fit(*old(self)),
        ensures
            forall|oam: Seq<u8>|
                line_of(*final(self)) == bitmap_upto(
                    line_of(*old(self)),
                    y * 240,
                    bitmap_fn(3, y as int, #[trigger] ctx_of(*old(self), io@, palette@, vram@, oam)),
                    240,
                ),
            only_line_changed(*final(self), *old(self)),
    {
        self.draw_bitmap(3, 240, y, io, palette, vram);
    }

    /// Mode 4: Single 240x160 8-bit indexed bitmap (page-flipped)
    pub(crate) fn render_mode4(&mut self, y: u16, io: &[u8], palette: &[u8], vram: &[u8])
        requires
            y < 160,
            buffers_fit(*old(self)),
        ensures
            forall|oam: Seq<u8>|
                line_of(*final(self)) == bitmap_upto(
                    line_of(*old(self)),
                    y * 240,
                    bitmap_fn(4, y as int, #[trigger] ctx_of(*old(self), io@, palette@, vram@, oam)),
                    240,
                ),
            only_line_changed(*final(self), *old(self)),
    {
        self.draw_bitmap(4, 240, y, io, palette, vram);
    }

    /// Mode 5: 160x128 16-bit bitmap (page-flipped)
    pub(crate) fn render_mode5(&mut self, y: u16, io: &[u8], palette: &[u8], vram: &[u8])
        requires
            y < 160,
            buffers_fit(*old(self)),
        ensures
            y >= 128 ==> *final(self) == *old(self),
            forall|oam: Seq<u8>|
                y < 128 ==> line_of(*final(self)) == bitmap_upto(
                    line_of(*old(self)),
                    y * 240,
                    bitmap_fn(5, y as int, #[trigger] ctx_of(*old(self), io@, palette@, vram@, oam)),
                    160,
                ),
            only_line_changed(*final(self), *old(self)),
    {
        if y >= 128 {
            return;
        }
        self.draw_bitmap(5, 160, y, io, palette, vram);
    }
}

impl Ppu {
    /// Mode 0: 4 text backgrounds
    pub(crate) fn render_mode0(&mut self, y: u16, io: &[u8], palette: &[u8], vram: &[u8], oam: &[u8])
        requires
            y < 160,
            buffers_fit(*old(self)),
        ensures
            line_of(*final(self)) == text_down(
                line_of(*old(self)),
                y as int,
                ctx_of(*old(self), io@, palette@, vram@, oam@),
                4,
            ),
            only_line_changed(*final(self), *old(self)),
    {
        let ghost c = ctx_of(*self, io@, palette@, vram@, oam@);
        let ghost ls0 = line_of(*self);
        let dispcnt = read16(io, REG_DISPCNT as usize);
        // Render BG0-BG3 from lowest priority to highest
        let mut bg: usize = 4;
        while bg > 0
            invariant
                bg <= 4,
                y < 160,
                dispcnt == mem16(io@, REG_DISPCNT as int),
                c == ctx_of(*self, io@, palette@, vram@, oam@),
                buffers_fit(*self),
                only_line_changed(*self, *old(self)),
                ls0 == line_of(*old(self)),
                line_of(*self) == text_down(ls0, y as int, c, 4 - bg),
            decreases bg,
        {
            bg = bg - 1;
            let mask: u16 = if bg == 0 {
                0x100
            } else if bg == 1 {
                0x200
            } else if bg == 2 {
                0x400
            } else {
                0x800
            };
            if dispcnt & mask != 0 {
                self.draw(Layer::Text(bg), y, io, palette, vram, oam);
            }
        }
    }

    /// Mode 1: BG0, BG1 text + BG2 affine
    pub(crate) fn render_mode1(&mut self, y: u16, io: &[u8], palette: &[u8], vram: &[u8], oam: &[u8])
        requires
            y < 160,
            refs_in_range(*old(self)),
            buffers_fit(*old(self)),
        ensures
            ({
                let c = ctx_of(*old(self), io@, palette@, vram@, oam@);
                line_of(*final(self)) == text_if_on(
                    text_if_on(affine_if_on(line_of(*old(self)), 2, y as int, c), 1, y as int, c),
                    0,
                    y as int,
                    c,
                )
            }),
            only_line_changed(*final(self), *old(self)),
    {
        let dispcnt = read16(io, REG_DISPCNT as usize);
        // BG2 affine (lowest priority among enabled)
        if dispcnt & 0x400 != 0 {
            self.draw(Layer::Affine(2), y, io, palette, vram, oam);
        }
        // BG1
        if dispcnt & 0x200 != 0 {
            self.draw(Layer::Text(1), y, io, palette, vram, oam);
        }
        // BG0
        if dispcnt & 0x100 != 0 {
            self.draw(Layer::Text(0), y, io, palette, vram, oam);
        }
    }

    /// Mode 2: BG2, BG3 affine
    pub(crate) fn render_mode2(&mut self, y: u16, io: &[u8], palette: &[u8], vram: &[u8], oam: &[u8])
        requires
            y < 160,
            refs_in_range(*old(self)),
            buffers_fit(*old(self)),
        ensures
            ({
                let c = ctx_of(*old(self), io@, palette@, vram@, oam@);
                line_of(*final(self)) == affine_if_on(
                    affine_if_on(line_of(*old(self)), 3, y as int, c),
                    2,
                    y as int,
                    c,
                )
            }),
            only_line_changed(*final(self), *old(self)),
    {
        let dispcnt = read16(io, REG_DISPCNT as usize);
        if dispcnt & 0x800 != 0 {
            self.draw(Layer::Affine(3), y, io, palette, vram, oam);
        }
        if dispcnt & 0x400 != 0 {
            self.draw(Layer::Affine(2), y, io, palette, vram, oam);
        }
    }

    /// Draw the sprites on line `y`, lower numbers on top
    pub(crate) fn render_sprites(&mut self, y: u16, io: &[u8], palette: &[u8], vram: &[u8], oam: &[u8])
        requires
            y < 160,
            buffers_fit(*old(self)),
        ensures
            line_of(*final(self)) == sprites_upto(
                line_of(*old(self)),
                y as int,
                ctx_of(*old(self), io@, palette@, vram@, oam@),
                128,
            ),
            only_line_changed(*final(self), *old(self)),
    {
        let ghost c = ctx_of(*self, io@, palette@, vram@, oam@);
        let ghost ls0 = line_of(*self);
        // Iterate sprites in reverse order (lower index = higher priority)
        let mut obj: usize = 128;
        while obj > 0
            invariant
                obj <= 128,
                y < 160,
                c == ctx_of(*self, io@, palette@, vram@, oam@),
                buffers_fit(*self),
                only_line_changed(*self, *old(self)),
                ls0 == line_of(*old(self)),
                line_of(*self) == sprites_upto(ls0, y as int, c, 128 - obj),
            decreases obj,
        {
            obj = obj - 1;
            self.draw(Layer::Sprite(obj), y, io, palette, vram, oam);
        }
    }
}

// =============================================================================
// Effects (brightness)
// =============================================================================

/// The 5-bit channel of an RGB555 color that starts at bit `shift`.
pub open spec fn channel(color: u16, shift: u16) -> int {
    ((color >> shift) & 0x1F) as int
}

/// An RGB555 color from its three channels.
pub open spec fn pack_rgb(r: u16, g: u16, b: u16) -> u16 {
    (r & 0x1F) | ((g & 0x1F) << 5) | ((b & 0x1F) << 10)
}

/// Brightness increase by `evy`/16: each channel moves that far towards 31.
pub open spec fn brighten(color: u16, evy: u16) -> u16 {
    let up = |c: int| (c + (31 - c) * evy / 16) as u16;
    pack_rgb(up(channel(color, 0)), up(channel(color, 5)), up(channel(color, 10)))
}

/// Brightness decrease by `evy`/16: each channel moves that far towards 0.
pub open spec fn darken(color: u16, evy: u16) -> u16 {
    let down = |c: int| (c - c * evy / 16) as u16;
    pack_rgb(down(channel(color, 0)), down(channel(color, 5)), down(channel(color, 10)))
}

/// Brightening stays within 16 bits: every (31 - channel) * evy fits.
pub open spec fn brighten_fits(color: u16, evy: u16) -> bool {
    &&& (31 - channel(color, 0)) * evy <= 0xFFFF
    &&& (31 - channel(color, 5)) * evy <= 0xFFFF
    &&& (31 - channel(color, 10)) * evy <= 0xFFFF
}

/// Darkening stays within 16 bits: every channel * evy fits and takes at most the channel.
pub open spec fn darken_fits(color: u16, evy: u16) -> bool {
    &&& channel(color, 0) * evy <= 0xFFFF && channel(color, 0) * evy / 16 <= channel(color, 0)
    &&& channel(color, 5) * evy <= 0xFFFF && channel(color, 5) * evy / 16 <= channel(color, 5)
    &&& channel(color, 10) * evy <= 0xFFFF && channel(color, 10) * evy / 16 <= channel(color, 10)
}

/// The brightness coefficient: BLDY bits 0-4, at most 16.
pub open spec fn bldy_coefficient(io: Seq<u8>) -> u16 {
    let v = mem16(io, REG_BLDY as int) & 0x1F;
    if v < 16 {
        v
    } else {
        16
    }
}

/// The line after the color effects of BLDCNT (bits 6-7): modes 2 and 3 brighten or darken
/// every pixel of the line by the BLDY coefficient; other modes leave it.
pub open spec fn apply_effects_spec(ls: LineState, y: int, io: Seq<u8>) -> LineState {
    let mode = (mem16(io, REG_BLDCNT as int) >> 6) & 3;
    let evy = bldy_coefficient(io);
    if (mode == 2 || mode == 3) && evy != 0 {
        LineState {
            fb: Seq::new(
                ls.fb.len(),
                |k: int|
                    if y * 240 <= k < y * 240 + 240 {
                        if mode == 2 {
                            brighten(ls.fb[k], evy)
                        } else {
                            darken(ls.fb[k], evy)
                        }
                    } else {
                        ls.fb[k]
                    },
            ),
            prio: ls.prio,
        }
    } else {
        ls
    }
}

pub fn brightness_increase(color: u16, evy: u16) -> (r: u16)
    requires
        brighten_fits(color, evy),
    ensures
        r == brighten(color, evy),
{
    proof {
        lemma_and_bound();
    }
    let r = color & 0x1F;
    let g = (color >> 5) & 0x1F;
    let b = (color >> 10) & 0x1F;
    assert(color >> 0u16 == color) by {
        vstd::bits::lemma_u16_shr_is_div(color, 0);
        vstd::arithmetic::power2::lemma2_to64();
    }
    let r = r + ((31 - r) * evy / 16);
    let g = g + ((31 - g) * evy / 16);
    let b = b + ((31 - b) * evy / 16);
    (r & 0x1F) | ((g & 0x1F) << 5) | ((b & 0x1F) << 10)
}

pub fn brightness_decrease(color: u16, evy: u16) -> (r: u16)
    requires
        darken_fits(color, evy),
    ensures
        r == darken(color, evy),
{
    proof {
        lemma_and_bound();
    }
    let r = color & 0x1F;
    let g = (color >> 5) & 0x1F;
    let b = (color >> 10) & 0x1F;
    assert(color >> 0u16 == color) by {
        vstd::bits::lemma_u16_shr_is_div(color, 0);
        vstd::arithmetic::power2::lemma2_to64();
    }
    let r = r - (r * evy / 16);
    let g = g - (g * evy / 16);
    let b = b - (b * evy / 16);
    (r & 0x1F) | ((g & 0x1F) << 5) | ((b & 0x1F) << 10)
}

proof fn lemma_pack_extremes()
    by (bit_vector)
    ensures
        (31u16 & 0x1F) | ((31u16 & 0x1F) << 5) | ((31u16 & 0x1F) << 10) == 0x7FFF,
        (0u16 & 0x1F) | ((0u16 & 0x1F) << 5) | ((0u16 & 0x1F) << 10) == 0,
{
}

/// Full brightening (coefficient 16) turns every color white, full darkening turns every
/// color black.
pub proof fn lemma_brightness_extremes(color: u16)
    ensures
        brighten(color, 16) == 0x7FFF,
        darken(color, 16) == 0,
{
    lemma_and_bound();
    lemma_pack_extremes();
    assert(channel(color, 0) <= 31);
    assert(channel(color, 5) <= 31);
    assert(channel(color, 10) <= 31);
}

/// With a coefficient of at most 16 brightening and darkening stay within 16 bits.
/// The three 5-bit channels of a packed color are the low five bits of the parts, and a
/// value below 32 passes the channel mask unchanged.
proof fn lemma_pack_channels(r: u16, g: u16, b: u16)
    by (bit_vector)
    ensures
        (((r & 0x1F) | ((g & 0x1F) << 5) | ((b & 0x1F) << 10)) >> 0u16) & 0x1F == r & 0x1F,
        (((r & 0x1F) | ((g & 0x1F) << 5) | ((b & 0x1F) << 10)) >> 5u16) & 0x1F == g & 0x1F,
        (((r & 0x1F) | ((g & 0x1F) << 5) | ((b & 0x1F) << 10)) >> 10u16) & 0x1F == b & 0x1F,
        r <= 31 ==> r & 0x1F == r,
        g <= 31 ==> g & 0x1F == g,
        b <= 31 ==> b & 0x1F == b,
{
}

/// The brightened and darkened values of a channel stay within 0..=31.
proof fn lemma_channel_steps(c: int, evy: int)
    by (nonlinear_arith)
    requires
        0 <= c <= 31,
        0 <= evy <= 16,
    ensures
        0 <= (31 - c) * evy / 16 <= 31 - c,
        0 <= c * evy / 16 <= c,
{
}

/// The channels of a brightened and of a darkened color.
proof fn lemma_effect_channels(color: u16, evy: u16, s: u16)
    requires
        evy <= 16,
        s == 0 || s == 5 || s == 10,
    ensures
        ((brighten(color, evy) >> s) & 0x1F) as int == channel(color, s) + (31 - channel(color, s))
            * evy / 16,
        ((darken(color, evy) >> s) & 0x1F) as int == channel(color, s) - channel(color, s) * evy
            / 16,
{
    lemma_and_bound();
    let c0 = channel(color, 0);
    let c5 = channel(color, 5);
    let c10 = channel(color, 10);
    lemma_channel_steps(c0, evy as int);
    lemma_channel_steps(c5, evy as int);
    lemma_channel_steps(c10, evy as int);
    let up = |c: int| (c + (31 - c) * evy / 16) as u16;
    let down = |c: int| (c - c * evy / 16) as u16;
    lemma_pack_channels(up(c0), up(c5), up(c10));
    lemma_pack_channels(down(c0), down(c5), down(c10));
}

/// Brightness effects: with BLDCNT bits 6-7 equal to 2, every 5-bit channel `c` of every
/// pixel on line `y` becomes `c + (31 - c) * evy / 16`; with 3 it becomes
/// `c - c * evy / 16`, where `evy` is BLDY bits 0-4 capped at 16. So brightening never
/// lowers a channel and darkening never raises one. Pixels of other lines, the priorities,
/// and every pixel under the other modes stay as they were.
pub proof fn lemma_brightness_effect(ls: LineState, y: int, io: Seq<u8>)
    ensures
        ({
            let out = apply_effects_spec(ls, y, io);
            let mode = (mem16(io, REG_BLDCNT as int) >> 6) & 3;
            let v = mem16(io, REG_BLDY as int) & 0x1F;
            let evy: int = if v < 16 {
                v as int
            } else {
                16
            };
            &&& out.prio == ls.prio
            &&& out.fb.len() == ls.fb.len()
            &&& forall|k: int|
                0 <= k < ls.fb.len() && !(y * 240 <= k < y * 240 + 240) ==> out.fb[k] == ls.fb[k]
            &&& (mode != 2 && mode != 3) ==> out.fb == ls.fb
            &&& forall|k: int, s: u16|
                #![trigger (out.fb[k] >> s)]
                0 <= k < ls.fb.len() && y * 240 <= k < y * 240 + 240 && (s == 0 || s == 5 || s
                    == 10) ==> {
                    let c = ((ls.fb[k] >> s) & 0x1F) as int;
                    let d = ((out.fb[k] >> s) & 0x1F) as int;
                    &&& mode == 2 ==> d == c + (31 - c) * evy / 16 && d >= c
                    &&& mode == 3 ==> d == c - c * evy / 16 && d <= c
                }
        }),
{
    let out = apply_effects_spec(ls, y, io);
    let mode = (mem16(io, REG_BLDCNT as int) >> 6) & 3;
    let evy = bldy_coefficient(io);
    lemma_and_bound();
    assert forall|k: int, s: u16|
        #![trigger (out.fb[k] >> s)]
        0 <= k < ls.fb.len() && y * 240 <= k < y * 240 + 240 && (s == 0 || s == 5 || s == 10)
            implies {
        let c = ((ls.fb[k] >> s) & 0x1F) as int;
        let d = ((out.fb[k] >> s) & 0x1F) as int;
        &&& mode == 2 ==> d == c + (31 - c) * (evy as int) / 16 && d >= c
        &&& mode == 3 ==> d == c - c * (evy as int) / 16 && d <= c
    } by {
        let c = channel(ls.fb[k], s);
        assert(c == ((ls.fb[k] >> s) & 0x1F) as int);
        assert(0 <= c <= 31);
        lemma_channel_steps(c, evy as int);
        if evy != 0 && (mode == 2 || mode == 3) {
            lemma_effect_channels(ls.fb[k], evy, s);
            if mode == 2 {
                assert(out.fb[k] == brighten(ls.fb[k], evy));
            } else {
                assert(out.fb[k] == darken(ls.fb[k], evy));
            }
        } else {
            assert(out.fb[k] == ls.fb[k]);
            assert((31 - c) * (evy as int) / 16 == 0 || mode != 2);
        }
    }
}

proof fn lemma_effects_fit(color: u16, evy: u16)
    requires
        evy <= 16,
    ensures
        brighten_fits(color, evy),
        darken_fits(color, evy),
{
    lemma_and_bound();
    lemma_channel_fits(channel(color, 0), evy);
    lemma_channel_fits(channel(color, 5), evy);
    lemma_channel_fits(channel(color, 10), evy);
}

proof fn lemma_channel_fits(c: int, evy: u16)
    by (nonlinear_arith)
    requires
        0 <= c <= 31,
        evy <= 16,
    ensures
        (31 - c) * evy <= 0xFFFF,
        c * evy <= 0xFFFF,
        c * evy / 16 <= c,
{
}

impl Ppu {
    pub(crate) fn apply_effects(&mut self, y: u16, io: &[u8], palette: &[u8])
        requires
            y < 160,
            buffers_fit(*old(self)),
        ensures
            line_of(*final(self)) == apply_effects_spec(line_of(*old(self)), y as int, io@),
            only_line_changed(*final(self), *old(self)),
    {
        proof {
            lemma_and_bound();
        }
        let bldcnt = read16(io, REG_BLDCNT as usize);
        let blend_mode = (bldcnt >> 6) & 3;
        if blend_mode == 0 {
            return;  // No blending
        }
        // Brightness increase/decrease (mode 2 and 3) applied at framebuffer level
        if blend_mode == 2 || blend_mode == 3 {
            let raw = read16(io, REG_BLDY as usize) & 0x1F;
            let bldy = if raw < 16 {
                raw
            } else {
                16
            };
            if bldy == 0 {
                return;
            }
            let ghost ls0 = line_of(*self);
            let start = y as usize * 240;
            let mut x: usize = 0;
            while x < 240
                invariant
                    y < 160,
                    start == y * 240,
                    x <= 240,
                    bldy == bldy_coefficient(io@),
                    bldy <= 16,
                    blend_mode == 2 || blend_mode == 3,
                    buffers_fit(*self),
                    only_line_changed(*self, *old(self)),
                    ls0 == line_of(*old(self)),
                    self.priority_buffer@ == ls0.prio,
                    forall|k: int|
                        0 <= k < self.framebuffer@.len() ==> #[trigger] self.framebuffer@[k] == if start
                            <= k < start + x {
                            if blend_mode == 2 {
                                brighten(ls0.fb[k], bldy)
                            } else {
                                darken(ls0.fb[k], bldy)
                            }
                        } else {
                            ls0.fb[k]
                        },
                decreases 240 - x,
            {
                let color = self.framebuffer[start + x];
                proof {
                    lemma_effects_fit(color, bldy);
                }
                let new_color = if blend_mode == 2 {
                    brightness_increase(color, bldy)
                } else {
                    brightness_decrease(color, bldy)
                };
                self.framebuffer.set(start + x, new_color);
                x = x + 1;
            }
            assert(line_of(*self) =~= apply_effects_spec(ls0, y as int, io@));
        }
        // Alpha blending (mode 1) is not done: it needs the layer of each pixel
    }
}

// =============================================================================
// A whole scanline
// =============================================================================

/// Line `y` cleared before drawing: its pixels take the backdrop color (palette entry 0)
/// and every priority is 4, below all layers.
pub open spec fn cleared_line(ls: LineState, y: int, palette: Seq<u8>) -> LineState {
    LineState {
        fb: Seq::new(
            ls.fb.len(),
            |k: int|
                if y * 240 <= k < y * 240 + 240 {
                    mem16(palette, 0)
                } else {
                    ls.fb[k]
                },
        ),
        prio: Seq::new(ls.prio.len(), |x: int| 4u8),
    }
}

/// What rendering line `y` does to the framebuffer and priority buffer: clear it, draw the
/// backgrounds of the display mode, then the sprites if DISPCNT bit 12 enables them, then
/// the brightness effects. Lines past the visible 160 are not drawn.
pub open spec fn scanline_spec(ls: LineState, y: int, c: RenderCtx) -> LineState {
    if y >= 160 {
        ls
    } else {
        let bg = draw_backgrounds(cleared_line(ls, y, c.palette), y, c);
        let sp = if mem16(c.io, REG_DISPCNT as int) & 0x1000 != 0 {
            sprites_upto(bg, y, c, 128)
        } else {
            bg
        };
        apply_effects_spec(sp, y, c.io)
    }
}

impl Ppu {
    /// Render one scanline (called at the end of H-Draw)
    pub fn render_scanline(&mut self, io: &[u8], palette: &[u8], vram: &[u8], oam: &[u8])
        requires
            buffers_fit(*old(self)),
            affine_mode(io@) ==> refs_in_range(*old(self)),
        ensures
            line_of(*final(self)) == scanline_spec(
                line_of(*old(self)),
                old(self).vcount as int,
                ctx_of(*old(self), io@, palette@, vram@, oam@),
            ),
            only_line_changed(*final(self), *old(self)),
    {
        if self.vcount >= 160 {
            return;
        }
        let ghost c = ctx_of(*self, io@, palette@, vram@, oam@);
        let ghost ls0 = line_of(*self);
        let dispcnt = read16(io, REG_DISPCNT as usize);
        let mode = dispcnt & 7;
        let y = self.vcount;
        // Clear scanline
        let start = y as usize * 240;
        let backdrop = read16(palette, 0);
        let mut x: usize = 0;
        while x < 240
            invariant
                y < 160,
                start == y * 240,
                x <= 240,
                backdrop == mem16(palette@, 0),
                buffers_fit(*self),
                only_line_changed(*self, *old(self)),
                ls0 == line_of(*old(self)),
                self.priority_buffer@ == ls0.prio,
                forall|k: int|
                    0 <= k < self.framebuffer@.len() ==> #[trigger] self.framebuffer@[k] == if start
                        <= k < start + x {
                        backdrop
                    } else {
                        ls0.fb[k]
                    },
            decreases 240 - x,
        {
            self.framebuffer.set(start + x, backdrop);
            x = x + 1;
        }
        let n = self.priority_buffer.len();
        let mut i: usize = 0;
        while i < n
            invariant
                n == self.priority_buffer@.len(),
                i <= n,
                buffers_fit(*self),
                only_line_changed(*self, *old(self)),
                self.framebuffer@ == cleared_line(ls0, y as int, palette@).fb,
                forall|j: int| 0 <= j < i ==> self.priority_buffer@[j] == 4u8,
            decreases n - i,
        {
            self.priority_buffer.set(i, 4);
            i = i + 1;
        }
        assert(line_of(*self) =~= cleared_line(ls0, y as int, palette@));
        proof {
            lemma_and_bound();
        }
        let ghost cleared = cleared_line(ls0, y as int, palette@);
        if mode == 0 {
            self.render_mode0(y, io, palette, vram, oam);
        } else if mode == 1 {
            self.render_mode1(y, io, palette, vram, oam);
        } else if mode == 2 {
            self.render_mode2(y, io, palette, vram, oam);
        } else if mode == 3 {
            let ghost pre = *self;
            self.render_mode3(y, io, palette, vram);
            assert(ctx_of(pre, io@, palette@, vram@, oam@) == c);
            assert(line_of(*self) == bitmap_upto(cleared, y * 240, bitmap_fn(3, y as int, c), 240));
        } else if mode == 4 {
            let ghost pre = *self;
            self.render_mode4(y, io, palette, vram);
            assert(ctx_of(pre, io@, palette@, vram@, oam@) == c);
            assert(line_of(*self) == bitmap_upto(cleared, y * 240, bitmap_fn(4, y as int, c), 240));
        } else if mode == 5 {
            let ghost pre = *self;
            self.render_mode5(y, io, palette, vram);
            assert(ctx_of(pre, io@, palette@, vram@, oam@) == c);
        }
        // modes 6-7 are invalid
        assert(line_of(*self) == draw_backgrounds(cleared, y as int, c));
        // Render sprites on top
        let obj_enable = dispcnt & 0x1000 != 0;
        if obj_enable {
            self.render_sprites(y, io, palette, vram, oam);
        }
        // Apply windowing and blending effects
        self.apply_effects(y, io, palette);
    }
}

} // verus!
