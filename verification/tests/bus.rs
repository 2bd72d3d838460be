use rgba::bus::{Bus, BusAccess};

#[test]
fn test_bus_ewram_read_write() {
    let mut bus = Bus::new();
    bus.write_byte(0x0200_0000, 0x42);
    assert_eq!(bus.read_byte(0x0200_0000), 0x42);

    // Test mirroring
    assert_eq!(bus.read_byte(0x0204_0000), 0x42);
}

#[test]
fn test_bus_iwram_read_write() {
    let mut bus = Bus::new();
    bus.write_byte(0x0300_0000, 0xAB);
    assert_eq!(bus.read_byte(0x0300_0000), 0xAB);

    // Test mirroring
    assert_eq!(bus.read_byte(0x0300_8000), 0xAB);
}

#[test]
fn test_bus_word_access() {
    let mut bus = Bus::new();
    bus.write_word(0x0200_0000, 0xDEAD_BEEF);
    assert_eq!(bus.read_word(0x0200_0000), 0xDEAD_BEEF);
    assert_eq!(bus.read_halfword(0x0200_0000), 0xBEEF);
    assert_eq!(bus.read_halfword(0x0200_0002), 0xDEAD);
}

#[test]
fn test_bus_rom_read() {
    let mut bus = Bus::new();
    bus.load_rom(&[0x01, 0x02, 0x03, 0x04]);
    assert_eq!(bus.read_byte(0x0800_0000), 0x01);
    assert_eq!(bus.read_byte(0x0800_0003), 0x04);
}

#[test]
fn test_bus_sram() {
    let mut bus = Bus::new();
    bus.write_byte(0x0E00_0000, 0xFF);
    assert_eq!(bus.read_byte(0x0E00_0000), 0xFF);
}

#[test]
fn test_bus_bios_readonly() {
    let mut bus = Bus::new();
    bus.load_bios(&[0xAA; 16]);
    bus.write_byte(0x0000_0000, 0x55); // should be ignored
    assert_eq!(bus.read_byte(0x0000_0000), 0xAA);
}

#[test]
fn test_keyinput_default() {
    let bus = Bus::new();
    // All buttons released = all bits set
    assert_eq!(bus.keyinput, 0x03FF);
}
