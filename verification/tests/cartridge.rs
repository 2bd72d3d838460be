use rgba::cartridge::{detect_backup_type, BackupType, FlashState};

#[test]
fn test_detect_sram() {
    let mut rom = vec![0u8; 256];
    rom[0xA0..0xA0 + 6].copy_from_slice(b"SRAM_V");
    assert_eq!(detect_backup_type(&rom), BackupType::Sram);
}

#[test]
fn test_detect_flash128() {
    let mut rom = vec![0u8; 256];
    rom[0xA0..0xA0 + 9].copy_from_slice(b"FLASH1M_V");
    assert_eq!(detect_backup_type(&rom), BackupType::Flash128);
}

#[test]
fn test_flash_write_read() {
    let mut flash = FlashState::new(0x10000);

    // Write byte via command sequence
    flash.write(0x5555, 0xAA); // Command 1
    flash.write(0x2AAA, 0x55); // Command 2
    flash.write(0x5555, 0xA0); // Write mode
    flash.write(0x0000, 0x42); // Write 0x42 at address 0

    assert_eq!(flash.read(0x0000), 0x42);
}

#[test]
fn test_flash_sector_erase() {
    let mut flash = FlashState::new(0x10000);

    // Write some data first
    flash.write(0x5555, 0xAA);
    flash.write(0x2AAA, 0x55);
    flash.write(0x5555, 0xA0);
    flash.write(0x0000, 0x42);

    // Sector erase
    flash.write(0x5555, 0xAA);
    flash.write(0x2AAA, 0x55);
    flash.write(0x5555, 0x80);
    flash.write(0x0000, 0x30); // erase sector 0

    assert_eq!(flash.read(0x0000), 0xFF); // erased
}
