use rgba::bus::Bus;
use rgba::constants::{IRQ_VBLANK, REG_DISPSTAT, REG_IE, REG_IF, REG_IME, REG_WAITCNT};

#[test]
fn test_interrupt_request_and_acknowledge() {
    let mut bus = Bus::new();

    // Enable VBlank interrupt
    bus.io_write16(REG_IE, IRQ_VBLANK);
    bus.io_write16(REG_IME, 1);

    // Request VBlank IRQ
    bus.request_interrupt(IRQ_VBLANK);
    assert!(bus.has_pending_irq());

    // Acknowledge it
    bus.io_write16(REG_IF, IRQ_VBLANK);
    assert!(!bus.has_pending_irq());
}

#[test]
fn test_ime_disable() {
    let mut bus = Bus::new();
    bus.io_write16(REG_IE, IRQ_VBLANK);
    bus.io_write16(REG_IME, 0); // disabled
    bus.request_interrupt(IRQ_VBLANK);
    assert!(!bus.has_pending_irq());
}

#[test]
fn test_dispstat_update() {
    let mut bus = Bus::new();
    bus.update_display_status(160, false); // VBlank line
    let dispstat = bus.io_read16(REG_DISPSTAT);
    assert!(dispstat & 1 != 0); // VBlank flag set

    bus.update_display_status(0, true); // HBlank
    let dispstat = bus.io_read16(REG_DISPSTAT);
    assert!(dispstat & 2 != 0); // HBlank flag set
    assert!(dispstat & 1 == 0); // No VBlank
}

#[test]
fn test_vcount_match() {
    let mut bus = Bus::new();
    // Set VCount trigger to line 100
    bus.io_write16(REG_DISPSTAT, 100 << 8);
    bus.update_display_status(100, false);
    let dispstat = bus.io_read16(REG_DISPSTAT);
    assert!(dispstat & 4 != 0); // VCount match
}

#[test]
fn test_waitcnt() {
    let mut bus = Bus::new();
    bus.io_write16(REG_WAITCNT, 0x4317);
    assert_eq!(bus.waitcnt, 0x4317);
    assert!(bus.prefetch_enabled);
}
