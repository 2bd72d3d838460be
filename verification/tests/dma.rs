use rgba::bus::{Bus, BusAccess};
use rgba::constants::REG_DMA0SAD;
use rgba::dma::{DmaController, DmaTiming};

#[test]
fn test_dma_immediate_transfer() {
    let mut bus = Bus::new();
    let mut dma = DmaController::new();

    // Write test data to EWRAM
    for i in 0..8u32 {
        bus.write_word(0x0200_0000 + i * 4, 0x1000 + i);
    }

    // Set up DMA0: copy 8 words from 0x02000000 to 0x02001000
    let base = REG_DMA0SAD as usize;
    // Source: 0x02000000
    bus.io[base] = 0x00;
    bus.io[base + 1] = 0x00;
    bus.io[base + 2] = 0x00;
    bus.io[base + 3] = 0x02;
    // Dest: 0x02001000
    bus.io[base + 4] = 0x00;
    bus.io[base + 5] = 0x10;
    bus.io[base + 6] = 0x00;
    bus.io[base + 7] = 0x02;
    // Count: 8
    bus.io[base + 8] = 8;
    bus.io[base + 9] = 0;
    // Control: Enable, Word transfer, Immediate
    let ctrl: u16 = (1 << 15) | (1 << 10); // enable + word
    bus.io[base + 10] = ctrl as u8;
    bus.io[base + 11] = (ctrl >> 8) as u8;

    dma.update_from_io(&bus);
    assert!(dma.channels[0].enabled);

    let cycles = dma.check_timing(DmaTiming::Immediate, &mut bus);
    assert!(cycles > 0);

    // Verify data was copied
    for i in 0..8u32 {
        assert_eq!(bus.read_word(0x0200_1000 + i * 4), 0x1000 + i);
    }
}

#[test]
fn test_dma_halfword_transfer() {
    let mut bus = Bus::new();
    let mut dma = DmaController::new();

    bus.write_halfword(0x0200_0000, 0xABCD);

    let base = REG_DMA0SAD as usize;
    bus.io[base] = 0x00;
    bus.io[base + 1] = 0x00;
    bus.io[base + 2] = 0x00;
    bus.io[base + 3] = 0x02;
    bus.io[base + 4] = 0x00;
    bus.io[base + 5] = 0x10;
    bus.io[base + 6] = 0x00;
    bus.io[base + 7] = 0x02;
    bus.io[base + 8] = 1;
    bus.io[base + 9] = 0;
    // Control: Enable, Halfword transfer
    let ctrl: u16 = 1 << 15;
    bus.io[base + 10] = ctrl as u8;
    bus.io[base + 11] = (ctrl >> 8) as u8;

    dma.update_from_io(&bus);
    dma.check_timing(DmaTiming::Immediate, &mut bus);

    assert_eq!(bus.read_halfword(0x0200_1000), 0xABCD);
}
