use rgba::gba::Gba;
use rgba::types::{AccessWidth, GbaButton};

#[test]
fn test_gba_new() {
    let gba = Gba::new();
    assert_eq!(gba.keyinput, 0x03FF);
    assert_eq!(gba.frame_count, 0);
}

#[test]
fn test_button_press_release() {
    let mut gba = Gba::new();
    gba.press_button(GbaButton::A);
    assert_eq!(gba.keyinput & GbaButton::A.bit(), 0); // pressed = bit clear
    gba.release_button(GbaButton::A);
    assert_ne!(gba.keyinput & GbaButton::A.bit(), 0); // released = bit set
}

#[test]
fn test_peek_poke() {
    let mut gba = Gba::new();
    gba.poke(0x0200_0000, 0x42);
    assert_eq!(gba.peek(0x0200_0000), 0x42);
}

#[test]
fn test_peek_poke_16() {
    let mut gba = Gba::new();
    gba.poke16(0x0200_0000, 0xABCD);
    assert_eq!(gba.peek16(0x0200_0000), 0xABCD);
}

#[test]
fn test_memory_search() {
    let mut gba = Gba::new();
    gba.poke(0x0200_0010, 0x42);
    gba.poke(0x0200_0020, 0x42);
    let results = gba.search_memory(0x0200_0000, 0x0200_0030, 0x42);
    assert_eq!(results.len(), 2);
    assert!(results.contains(&0x0200_0010));
    assert!(results.contains(&0x0200_0020));
}

#[test]
fn test_memory_watch() {
    let mut gba = Gba::new();
    gba.poke(0x0200_0000, 0x10);
    let idx = gba.add_watch(0x0200_0000, "test".into(), AccessWidth::Byte);

    // No change yet
    let changes = gba.update_watches();
    assert!(changes.is_empty());

    // Change value
    gba.poke(0x0200_0000, 0x20);
    let changes = gba.update_watches();
    assert_eq!(changes.len(), 1);
    assert_eq!(changes[0], (idx, 0x10, 0x20));
}

#[test]
fn test_dump_memory() {
    let mut gba = Gba::new();
    gba.poke(0x0200_0000, 0xAA);
    gba.poke(0x0200_0001, 0xBB);
    let data = gba.dump_memory(0x0200_0000, 2);
    assert_eq!(data, vec![0xAA, 0xBB]);
}
