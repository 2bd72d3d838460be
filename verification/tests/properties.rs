use rgba::alu::adc;
use rgba::apu::FifoChannel;
use rgba::bus::{Bus, BusAccess};
use rgba::cartridge::{detect_backup_type, BackupType, Cartridge, FlashState};
use rgba::constants::{
    IRQ_DMA0, IRQ_KEYPAD, IRQ_VBLANK, REG_DMA0SAD, REG_IE, REG_IF, REG_IME, REG_KEYCNT,
    REG_TM0CNT_H, REG_TM0CNT_L,
};
use rgba::dma::{DmaController, DmaTiming};
use rgba::gba::{scan_would_overflow, Gba};
use rgba::ppu::{read16, read32, sign_extend_28, Ppu, PpuEvent};
use rgba::render::{brightness_decrease, brightness_increase};
use rgba::scheduler::{EventKind, Scheduler};
use rgba::timer::TimerController;
use rgba::types::{button_from_index, GbaButton};

fn flash_command(flash: &mut FlashState, cmd: u8) {
    flash.write(0x5555, 0xAA);
    flash.write(0x2AAA, 0x55);
    flash.write(0x5555, cmd);
}

#[test]
fn flash_fresh_chip_reads_erased() {
    let flash = FlashState::new(0x10000);
    assert_eq!(flash.read(0x0000), 0xFF);
    assert_eq!(flash.read(0xFFFF), 0xFF);
    assert_eq!(flash.chip_id, 0x1B32);
    assert_eq!(FlashState::new(0x20000).chip_id, 0x1362);
}

#[test]
fn flash_chip_id_mode_reads_id_bytes() {
    let mut flash = FlashState::new(0x10000);
    flash_command(&mut flash, 0x90);
    assert!(flash.chip_id_mode);
    assert_eq!(flash.read(0x0000), 0x32);
    assert_eq!(flash.read(0x0001), 0x1B);
    // Leave ID mode
    flash_command(&mut flash, 0xF0);
    assert!(!flash.chip_id_mode);
    assert_eq!(flash.read(0x0000), 0xFF);
}

#[test]
fn flash_broken_sequence_returns_to_ready() {
    let mut flash = FlashState::new(0x10000);
    flash.write(0x5555, 0xAA);
    flash.write(0x1234, 0x55); // wrong address
    flash.write(0x5555, 0xA0);
    flash.write(0x0000, 0x42); // not a programmed write
    assert_eq!(flash.read(0x0000), 0xFF);
}

#[test]
fn flash_program_replaces_byte() {
    let mut flash = FlashState::new(0x10000);
    flash_command(&mut flash, 0xA0);
    flash.write(0x0010, 0xF0);
    flash_command(&mut flash, 0xA0);
    flash.write(0x0010, 0x3C);
    assert_eq!(flash.read(0x0010), 0x3C);
}

#[test]
fn flash_chip_erase_clears_everything() {
    let mut flash = FlashState::new(0x10000);
    flash_command(&mut flash, 0xA0);
    flash.write(0x1234, 0x00);
    flash_command(&mut flash, 0xA0);
    flash.write(0xF000, 0x11);
    flash_command(&mut flash, 0x80);
    flash_command(&mut flash, 0x10);
    assert_eq!(flash.read(0x1234), 0xFF);
    assert_eq!(flash.read(0xF000), 0xFF);
}

#[test]
fn flash_sector_erase_keeps_other_sectors() {
    let mut flash = FlashState::new(0x10000);
    flash_command(&mut flash, 0xA0);
    flash.write(0x1000, 0x12);
    flash_command(&mut flash, 0xA0);
    flash.write(0x0005, 0x34);
    flash_command(&mut flash, 0x80);
    flash.write(0x5555, 0xAA);
    flash.write(0x2AAA, 0x55);
    flash.write(0x0000, 0x30); // erase sector 0 (0x0000-0x0FFF)
    assert_eq!(flash.read(0x0005), 0xFF);
    assert_eq!(flash.read(0x1000), 0x12);
}

#[test]
fn flash_bank_switch_on_128k() {
    let mut flash = FlashState::new(0x20000);
    flash_command(&mut flash, 0xB0);
    flash.write(0x0000, 1);
    assert_eq!(flash.bank, 1);
    flash_command(&mut flash, 0xA0);
    flash.write(0x0020, 0x77);
    assert_eq!(flash.data[0x10020], 0x77);
    assert_eq!(flash.read(0x0020), 0x77);
    flash_command(&mut flash, 0xB0);
    flash.write(0x0000, 0);
    assert_eq!(flash.read(0x0020), 0xFF);
}

#[test]
fn detect_backup_other_tags() {
    let mut rom = vec![0u8; 256];
    rom[0x40..0x40 + 8].copy_from_slice(b"EEPROM_V");
    assert_eq!(detect_backup_type(&rom), BackupType::Eeprom512);

    let mut rom = vec![0u8; 256];
    rom[0x10..0x10 + 7].copy_from_slice(b"FLASH_V");
    assert_eq!(detect_backup_type(&rom), BackupType::Flash64);

    let mut rom = vec![0u8; 256];
    rom[0x10..0x10 + 10].copy_from_slice(b"FLASH512_V");
    assert_eq!(detect_backup_type(&rom), BackupType::Flash64);

    let mut rom = vec![0u8; 256];
    rom[0x10..0x10 + 8].copy_from_slice(b"SRAM_F_V");
    assert_eq!(detect_backup_type(&rom), BackupType::Sram);

    let rom = vec![0u8; 256];
    assert_eq!(detect_backup_type(&rom), BackupType::NoBackup);

    // A tag cut off by the end of the ROM is not found
    let mut rom = vec![0u8; 16];
    rom[12..16].copy_from_slice(b"SRAM");
    assert_eq!(detect_backup_type(&rom), BackupType::NoBackup);
}

#[test]
fn detect_backup_large_eeprom() {
    let mut rom = vec![0u8; 16 * 1024 * 1024 + 1];
    rom[0x100..0x100 + 8].copy_from_slice(b"EEPROM_V");
    assert_eq!(detect_backup_type(&rom), BackupType::Eeprom8K);
}

#[test]
fn cartridge_header_and_backup_from_rom() {
    let mut rom = vec![0u8; 0x200];
    rom[0xA0..0xA4].copy_from_slice(b"ABCD");
    rom[0xAC..0xB0].copy_from_slice(b"WXYZ");
    rom[0x100..0x100 + 7].copy_from_slice(b"FLASH_V");
    let cart = Cartridge::from_rom(&rom);
    assert_eq!(cart.title, "ABCD");
    assert_eq!(cart.game_code, "WXYZ");
    assert_eq!(cart.backup_type, BackupType::Flash64);
    assert_eq!(cart.flash.as_ref().unwrap().data.len(), 0x10000);
    assert!(cart.sram.is_empty());
}

#[test]
fn cartridge_invalid_utf8_title_is_replaced() {
    let mut rom = vec![0u8; 0xB0];
    rom[0xA0] = b'A';
    rom[0xA1] = 0xFF;
    let cart = Cartridge::from_rom(&rom);
    assert_eq!(cart.title, "A\u{FFFD}");
}

#[test]
fn cartridge_sram_save_roundtrip() {
    let mut rom = vec![0u8; 0x200];
    rom[0x100..0x100 + 6].copy_from_slice(b"SRAM_V");
    let mut cart = Cartridge::from_rom(&rom);
    assert_eq!(cart.backup_type, BackupType::Sram);
    let data: Vec<u8> = (0..0x10000u32).map(|i| (i % 251) as u8).collect();
    cart.load_save_data(&data);
    assert_eq!(cart.get_save_data(), data);
}

#[test]
fn cartridge_short_save_overwrites_prefix() {
    let mut rom = vec![0u8; 0x200];
    rom[0x100..0x100 + 7].copy_from_slice(b"FLASH_V");
    let mut cart = Cartridge::from_rom(&rom);
    cart.load_save_data(&[1, 2, 3]);
    let save = cart.get_save_data();
    assert_eq!(save.len(), 0x10000);
    assert_eq!(&save[0..4], &[1, 2, 3, 0xFF]);
}

#[test]
fn cartridge_without_backup_saves_nothing() {
    let rom = vec![0u8; 0x200];
    let mut cart = Cartridge::from_rom(&rom);
    cart.load_save_data(&[1, 2, 3]);
    assert!(cart.get_save_data().is_empty());
}

#[test]
fn fifo_push_until_full() {
    let mut fifo = FifoChannel::default();
    for i in 0..40i32 {
        fifo.push(i as i8);
    }
    assert_eq!(fifo.count, 32);
    assert_eq!(fifo.write_pos, 0);
    assert_eq!(fifo.buffer[0], 0);
    assert_eq!(fifo.buffer[31], 31);
}

#[test]
fn fifo_push_wraps_write_position() {
    let mut fifo = FifoChannel::default();
    fifo.read_pos = 30;
    fifo.write_pos = 31;
    fifo.count = 1;
    fifo.push(-5);
    assert_eq!(fifo.buffer[31], -5);
    assert_eq!(fifo.write_pos, 0);
    assert_eq!(fifo.count, 2);
}

#[test]
fn brightness_half_steps() {
    // Each channel moves half way (rounded down) towards white or black
    assert_eq!(brightness_increase(0x0000, 8), 0x3DEF);
    assert_eq!(brightness_decrease(0x7FFF, 8), 0x4210);
    assert_eq!(brightness_increase(0x001F, 0), 0x001F);
    assert_eq!(brightness_decrease(0x03E0, 16), 0x0000);
}

#[test]
fn sign_extend_28_values() {
    assert_eq!(sign_extend_28(0x0000_0100), 0x100);
    assert_eq!(sign_extend_28(0x07FF_FFFF), 0x07FF_FFFF);
    assert_eq!(sign_extend_28(0x0800_0000), -0x0800_0000);
    assert_eq!(sign_extend_28(0x0FFF_FFFF), -1);
    assert_eq!(sign_extend_28(0xF000_0001), 1);
}

#[test]
fn read16_read32_little_endian() {
    let mem = [0x11u8, 0x22, 0x33, 0x44, 0x55];
    assert_eq!(read16(&mem, 0), 0x2211);
    assert_eq!(read16(&mem, 3), 0x5544);
    assert_eq!(read32(&mem, 1), 0x5544_3322);
}

#[test]
fn framebuffer_rgba_expands_channels() {
    let mut ppu = Ppu::new();
    ppu.framebuffer[0] = 0x7FFF;
    ppu.framebuffer[1] = 0x001F;
    ppu.framebuffer[2] = 0x7C00;
    let rgba = ppu.framebuffer_rgba();
    assert_eq!(rgba.len(), 240 * 160 * 4);
    assert_eq!(&rgba[0..4], &[248, 248, 248, 255]);
    assert_eq!(&rgba[4..8], &[248, 0, 0, 255]);
    assert_eq!(&rgba[8..12], &[0, 0, 248, 255]);
    assert_eq!(&rgba[12..16], &[0, 0, 0, 255]);
}

#[test]
fn ppu_scanline_sequence() {
    let mut ppu = Ppu::new();
    for line in 1..160u16 {
        assert_eq!(ppu.advance_scanline(), PpuEvent::Draw);
        assert_eq!(ppu.vcount, line);
        assert!(!ppu.frame_ready);
    }
    assert_eq!(ppu.advance_scanline(), PpuEvent::VBlankStart);
    assert!(ppu.frame_ready);
    for _ in 161..228u16 {
        assert_eq!(ppu.advance_scanline(), PpuEvent::VBlank);
    }
    assert_eq!(ppu.vcount, 227);
    assert_eq!(ppu.advance_scanline(), PpuEvent::FrameStart);
    assert_eq!(ppu.vcount, 0);
    assert!(!ppu.frame_ready);
}

#[test]
fn scheduler_orders_by_timestamp() {
    let mut sched = Scheduler::new();
    assert_eq!(sched.cycles_until_next(), u64::MAX);
    sched.schedule(EventKind::Timer1Overflow, 300);
    sched.schedule(EventKind::HBlank, 100);
    sched.schedule(EventKind::VBlank, 200);
    assert_eq!(sched.cycles_until_next(), 100);
    sched.advance(250);
    assert_eq!(sched.cycles_until_next(), 0);
    assert_eq!(sched.pop_pending().unwrap().kind, EventKind::HBlank);
    assert_eq!(sched.pop_pending().unwrap().kind, EventKind::VBlank);
    assert!(sched.pop_pending().is_none());
    assert_eq!(sched.pending_count(), 1);
    assert_eq!(sched.cycles_until_next(), 50);
}

#[test]
fn scheduler_equal_timestamps_keep_insertion_order() {
    let mut sched = Scheduler::new();
    sched.schedule(EventKind::HBlank, 10);
    sched.schedule(EventKind::VBlank, 10);
    sched.advance(10);
    assert_eq!(sched.pop_pending().unwrap().kind, EventKind::HBlank);
    assert_eq!(sched.pop_pending().unwrap().kind, EventKind::VBlank);
}

#[test]
fn timer_prescaler_256_and_reload() {
    let mut bus = Bus::new();
    let mut timers = TimerController::new();
    bus.io[REG_TM0CNT_L as usize] = 0xFE;
    bus.io[(REG_TM0CNT_L + 1) as usize] = 0xFF;
    bus.io[REG_TM0CNT_H as usize] = 0x80 | 0x02; // enabled, 256:1
    timers.update_from_io(&bus);
    assert_eq!(timers.tick(255, &mut bus), 0);
    assert_eq!(timers.timers[0].counter, 0xFFFE);
    assert_eq!(timers.tick(1, &mut bus), 0);
    assert_eq!(timers.timers[0].counter, 0xFFFF);
    assert_eq!(timers.tick(256, &mut bus), 1);
    assert_eq!(timers.timers[0].counter, 0xFFFE);
    // The counter is visible through the I/O register
    assert_eq!(bus.io_read16(REG_TM0CNT_L), 0xFFFE);
}

#[test]
fn timer_disabled_does_not_count() {
    let mut bus = Bus::new();
    let mut timers = TimerController::new();
    timers.update_from_io(&bus);
    assert_eq!(timers.tick(1000, &mut bus), 0);
    assert_eq!(timers.timers[0].counter, 0);
}

fn setup_dma0(bus: &mut Bus, src: u32, dst: u32, count: u16, ctrl: u16) {
    let base = REG_DMA0SAD as usize;
    bus.io[base..base + 4].copy_from_slice(&src.to_le_bytes());
    bus.io[base + 4..base + 8].copy_from_slice(&dst.to_le_bytes());
    bus.io[base + 8..base + 10].copy_from_slice(&count.to_le_bytes());
    bus.io[base + 10..base + 12].copy_from_slice(&ctrl.to_le_bytes());
}

#[test]
fn dma_fixed_source_fills() {
    let mut bus = Bus::new();
    let mut dma = DmaController::new();
    bus.write_word(0x0200_0000, 0xDEAD_BEEF);
    // enable, word, source fixed (bits 7-8 = 2)
    setup_dma0(&mut bus, 0x0200_0000, 0x0200_0100, 4, (1 << 15) | (1 << 10) | (2 << 7));
    dma.update_from_io(&bus);
    let cycles = dma.check_timing(DmaTiming::Immediate, &mut bus);
    assert_eq!(cycles, 8);
    for i in 0..4u32 {
        assert_eq!(bus.read_word(0x0200_0100 + 4 * i), 0xDEAD_BEEF);
    }
    // Without repeat the channel turns itself off
    assert!(!dma.channels[0].enabled);
    assert_eq!(bus.io_read16(REG_DMA0SAD + 10) & 0x8000, 0);
}

#[test]
fn dma_decrementing_destination_and_irq() {
    let mut bus = Bus::new();
    let mut dma = DmaController::new();
    bus.write_halfword(0x0200_0000, 0x1111);
    bus.write_halfword(0x0200_0002, 0x2222);
    // enable, halfword, destination decrement (bits 5-6 = 1), IRQ
    setup_dma0(&mut bus, 0x0200_0000, 0x0200_0102, 2, (1 << 15) | (1 << 14) | (1 << 5));
    dma.update_from_io(&bus);
    dma.check_timing(DmaTiming::Immediate, &mut bus);
    assert_eq!(bus.read_halfword(0x0200_0102), 0x1111);
    assert_eq!(bus.read_halfword(0x0200_0100), 0x2222);
    assert_ne!(bus.io_read16(REG_IF) & IRQ_DMA0, 0);
}

#[test]
fn dma_waits_for_its_timing() {
    let mut bus = Bus::new();
    let mut dma = DmaController::new();
    bus.write_word(0x0200_0000, 0x1234_5678);
    // enable, word, start at VBlank (bits 12-13 = 1), repeat
    setup_dma0(
        &mut bus,
        0x0200_0000,
        0x0200_0200,
        1,
        (1 << 15) | (1 << 10) | (1 << 12) | (1 << 9),
    );
    dma.update_from_io(&bus);
    assert_eq!(dma.check_timing(DmaTiming::Immediate, &mut bus), 0);
    assert_eq!(bus.read_word(0x0200_0200), 0);
    assert_eq!(dma.check_timing(DmaTiming::VBlank, &mut bus), 2);
    assert_eq!(bus.read_word(0x0200_0200), 0x1234_5678);
    // Repeat keeps the channel on
    assert!(dma.channels[0].enabled);
}

#[test]
fn interrupt_needs_master_enable() {
    let mut bus = Bus::new();
    bus.io_write16(REG_IE, IRQ_VBLANK);
    bus.request_interrupt(IRQ_VBLANK);
    assert!(!bus.has_pending_irq());
    bus.io_write16(REG_IME, 1);
    assert!(bus.has_pending_irq());
    // Writing 1 to IF acknowledges
    bus.io_write16(REG_IF, IRQ_VBLANK);
    assert!(!bus.has_pending_irq());
}

#[test]
fn adc_flags() {
    assert_eq!(adc(0xFFFF_FFFF, 1, false), (0, true, false));
    assert_eq!(adc(0x7FFF_FFFF, 1, false), (0x8000_0000, false, true));
    assert_eq!(adc(2, 3, true), (6, false, false));
}

#[test]
fn press_then_release_restores_keys() {
    let mut gba = Gba::new();
    gba.press_button(GbaButton::Start);
    gba.press_button(GbaButton::Up);
    assert_eq!(gba.keyinput, 0x03FF & !(GbaButton::Start.bit() | GbaButton::Up.bit()));
    gba.release_button(GbaButton::Up);
    gba.release_button(GbaButton::Start);
    assert_eq!(gba.keyinput, 0x03FF);
    gba.set_keyinput(0xFFFF);
    assert_eq!(gba.keyinput, 0x03FF);
}

#[test]
fn keypad_interrupt_on_press() {
    let mut gba = Gba::new();
    // Interrupt when A is pressed
    gba.bus.io_write16(REG_KEYCNT, 0x4000 | GbaButton::A.bit());
    gba.press_button(GbaButton::B);
    assert_eq!(gba.bus.io_read16(REG_IF) & IRQ_KEYPAD, 0);
    gba.press_button(GbaButton::A);
    assert_ne!(gba.bus.io_read16(REG_IF) & IRQ_KEYPAD, 0);
}

#[test]
fn poke32_then_peek_bytes() {
    let mut gba = Gba::new();
    gba.poke32(0x0300_0010, 0x1122_3344);
    assert_eq!(gba.peek32(0x0300_0010), 0x1122_3344);
    assert_eq!(gba.peek(0x0300_0010), 0x44);
    assert_eq!(gba.peek(0x0300_0013), 0x11);
    assert_eq!(gba.peek16(0x0300_0012), 0x1122);
}

#[test]
fn search_memory_wide_values() {
    let mut gba = Gba::new();
    gba.poke16(0x0200_0004, 0xBEEF);
    gba.poke32(0x0200_0010, 0xCAFE_F00D);
    assert_eq!(gba.search_memory16(0x0200_0000, 0x0200_0020, 0xBEEF), vec![0x0200_0004]);
    assert_eq!(gba.search_memory32(0x0200_0000, 0x0200_0020, 0xCAFE_F00D), vec![0x0200_0010]);
}

#[test]
fn removed_watch_reports_nothing() {
    let mut gba = Gba::new();
    let idx = gba.add_watch(0x0200_0000, "w".to_string(), rgba::types::AccessWidth::Word);
    gba.remove_watch(idx);
    gba.poke32(0x0200_0000, 5);
    assert!(gba.update_watches().is_empty());
}

#[test]
fn button_numbers_match_keyinput_bits() {
    for i in 0..10u32 {
        let b = button_from_index(i).unwrap();
        assert_eq!(b.bit(), 1u16 << i);
    }
    assert_eq!(button_from_index(0), Some(GbaButton::A));
    assert_eq!(button_from_index(9), Some(GbaButton::L));
    assert_eq!(button_from_index(10), None);
}

#[test]
fn scan_overflow_detection() {
    assert!(!scan_would_overflow(0x0200_0000, 0x0200_0030, 2));
    assert!(!scan_would_overflow(0xFFFF_FFFE, u32::MAX, 2));
    assert!(scan_would_overflow(0xFFFF_FFFF, u32::MAX, 2));
    assert!(scan_would_overflow(0xFFFF_FFF0, u32::MAX, 4) == false);
    assert!(scan_would_overflow(0xFFFF_FFF2, u32::MAX, 4));
    assert!(!scan_would_overflow(u32::MAX, u32::MAX, 1));
}

#[test]
fn run_frame_after_reset_reaches_vblank() {
    let mut gba = Gba::new();
    gba.reset();
    assert!(gba.frame_runnable());
    gba.run_frame();
    assert_eq!(gba.frame_count, 1);
    assert!(gba.ppu.frame_ready);
    assert_eq!(gba.ppu.vcount, 160);
    // VBlank starts when line 159 ends: 160 lines of 1232 cycles
    assert!(gba.scheduler.current_cycle >= 160 * 1232);
    assert!(gba.scheduler.current_cycle < 160 * 1232 + 64);
    assert!(gba.frame_runnable());
}

#[test]
fn run_frame_needs_scanline_events() {
    let gba = Gba::new();
    assert!(!gba.frame_runnable());
}

#[test]
fn rom_wait_state_mirrors() {
    let mut bus = Bus::new();
    let rom: Vec<u8> = (0..64u32).map(|i| (i * 3) as u8).collect();
    bus.load_rom(&rom);
    assert_eq!(bus.read_byte(0x0800_0010), 48);
    assert_eq!(bus.read_byte(0x0A00_0010), 48);
    assert_eq!(bus.read_byte(0x0C00_0010), 48);
    // Past the end of the ROM the bus returns the address's halfword
    assert_eq!(bus.read_byte(0x0800_0100), 0x80);
    assert_eq!(bus.read_byte(0x0A00_0100), 0x80);
}
