use rgba::ppu::Ppu;
use rgba::render::{brightness_decrease, brightness_increase, sprite_dimensions};

#[test]
fn test_sprite_dimensions() {
    assert_eq!(sprite_dimensions(0, 0), (8, 8));
    assert_eq!(sprite_dimensions(0, 3), (64, 64));
    assert_eq!(sprite_dimensions(1, 2), (32, 16));
    assert_eq!(sprite_dimensions(2, 1), (8, 32));
}

#[test]
fn test_brightness_increase() {
    // White stays white
    assert_eq!(brightness_increase(0x7FFF, 16), 0x7FFF);
    // Black becomes white at max
    assert_eq!(brightness_increase(0x0000, 16), 0x7FFF);
}

#[test]
fn test_brightness_decrease() {
    // Black stays black
    assert_eq!(brightness_decrease(0x0000, 16), 0x0000);
    // White becomes black at max
    assert_eq!(brightness_decrease(0x7FFF, 16), 0x0000);
}

#[test]
fn test_mode3_render() {
    let mut ppu = Ppu::new();
    ppu.vcount = 0;

    let mut io = vec![0u8; 0x400];
    #[allow(unused_mut)]
    let mut palette = vec![0u8; 0x400];
    let mut vram = vec![0u8; 0x18000];
    let oam = vec![0u8; 0x400];

    // Set mode 3
    io[0] = 3; // DISPCNT = mode 3
    io[1] = 0;

    // Write a red pixel at (0,0)
    let red: u16 = 0x001F; // R=31 in RGB555
    vram[0] = red as u8;
    vram[1] = (red >> 8) as u8;

    ppu.render_scanline(&io, &palette, &vram, &oam);

    assert_eq!(ppu.framebuffer[0], red);
}

#[test]
fn test_mode4_render() {
    let mut ppu = Ppu::new();
    ppu.vcount = 0;

    let mut io = vec![0u8; 0x400];
    let mut palette = vec![0u8; 0x400];
    let mut vram = vec![0u8; 0x18000];
    let oam = vec![0u8; 0x400];

    // Set mode 4
    io[0] = 4;
    io[1] = 0;

    // Set palette entry 1 to green
    let green: u16 = 0x03E0;
    palette[2] = green as u8;
    palette[3] = (green >> 8) as u8;

    // Set pixel (0,0) to palette index 1
    vram[0] = 1;

    ppu.render_scanline(&io, &palette, &vram, &oam);

    assert_eq!(ppu.framebuffer[0], green);
}

#[test]
fn text_background_ignores_affine_reference_points() {
    let mut ppu = Ppu::new();
    ppu.vcount = 0;
    // Reference points outside the 28-bit range: text layers never read them
    ppu.bg2_ref_x = i32::MAX;
    ppu.bg3_ref_y = i32::MIN;

    let mut io = vec![0u8; 0x400];
    let mut palette = vec![0u8; 0x400];
    let mut vram = vec![0u8; 0x18000];
    let oam = vec![0u8; 0x400];

    // Mode 0 with BG0 on; BG0: priority 1, tiles at 0, map at screen block 31
    io[0] = 0;
    io[1] = 0x01;
    io[8] = 0x01;
    io[9] = 31;
    // Map entry (0,0) uses tile 1, whose first pixel has color 1
    vram[0xF800] = 1;
    vram[32] = 0x01;
    palette[2] = 0x1F;

    ppu.render_scanline(&io, &palette, &vram, &oam);

    assert_eq!(ppu.framebuffer[0], 0x001F);
    assert_eq!(ppu.priority_buffer[0], 1);
    // Pixel 1 shows color 0 (transparent): backdrop, priority unchanged
    assert_eq!(ppu.framebuffer[1], 0);
    assert_eq!(ppu.priority_buffer[1], 4);
}
