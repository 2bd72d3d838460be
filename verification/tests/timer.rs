use rgba::bus::Bus;
use rgba::constants::{IRQ_TIMER0, REG_IE, REG_IME, REG_TM0CNT_H, REG_TM0CNT_L, REG_TM1CNT_H, REG_TM1CNT_L};
use rgba::timer::TimerController;

#[test]
fn test_timer_basic() {
    let mut bus = Bus::new();
    let mut timers = TimerController::new();

    // Set up Timer 0: prescaler 0 (1:1), enabled, no IRQ
    let cnt_h = REG_TM0CNT_H as usize;
    bus.io[cnt_h] = 0x80; // enabled
    bus.io[cnt_h + 1] = 0;

    // Reload = 0xFFF0 (overflow after 16 ticks)
    let cnt_l = REG_TM0CNT_L as usize;
    bus.io[cnt_l] = 0xF0;
    bus.io[cnt_l + 1] = 0xFF;

    timers.update_from_io(&bus);
    assert!(timers.timers[0].enabled);
    assert_eq!(timers.timers[0].counter, 0xFFF0);

    // Tick 15 cycles — should not overflow
    let overflow = timers.tick(15, &mut bus);
    assert_eq!(overflow, 0);
    assert_eq!(timers.timers[0].counter, 0xFFFF);

    // Tick 1 more — should overflow
    let overflow = timers.tick(1, &mut bus);
    assert_ne!(overflow & 1, 0);
    assert_eq!(timers.timers[0].counter, 0xFFF0); // reloaded
}

#[test]
fn test_timer_cascade() {
    let mut bus = Bus::new();
    let mut timers = TimerController::new();

    // Timer 0: prescaler 0, enabled, reload = 0xFFFF
    bus.io[REG_TM0CNT_L as usize] = 0xFF;
    bus.io[(REG_TM0CNT_L + 1) as usize] = 0xFF;
    bus.io[REG_TM0CNT_H as usize] = 0x80;

    // Timer 1: cascade mode, enabled, reload = 0
    bus.io[REG_TM1CNT_L as usize] = 0;
    bus.io[(REG_TM1CNT_L + 1) as usize] = 0;
    bus.io[REG_TM1CNT_H as usize] = 0x80 | 0x04; // enabled + cascade

    timers.update_from_io(&bus);
    assert!(timers.timers[0].enabled);
    assert!(timers.timers[1].enabled);
    assert!(timers.timers[1].cascade);

    // Timer 0 starts at 0xFFFF, tick 1 = overflow
    let overflow = timers.tick(1, &mut bus);
    assert_ne!(overflow & 1, 0); // Timer 0 overflowed
    // Timer 1 should have incremented by 1 (cascade)
    assert_eq!(timers.timers[1].counter, 1);
}

#[test]
fn test_timer_irq() {
    let mut bus = Bus::new();
    let mut timers = TimerController::new();

    // Enable Timer0 IRQ in IE
    bus.io_write16(REG_IE, IRQ_TIMER0);
    bus.io_write16(REG_IME, 1);

    // Timer 0: prescaler 0, enabled, IRQ enabled, reload = 0xFFFF
    bus.io[REG_TM0CNT_L as usize] = 0xFF;
    bus.io[(REG_TM0CNT_L + 1) as usize] = 0xFF;
    bus.io[REG_TM0CNT_H as usize] = 0x80 | 0x40; // enabled + IRQ

    timers.update_from_io(&bus);
    timers.tick(1, &mut bus); // overflow

    assert!(bus.has_pending_irq());
}

#[test]
fn test_timer_prescaler() {
    let mut bus = Bus::new();
    let mut timers = TimerController::new();

    // Timer 0: prescaler 1 (64:1), enabled, reload = 0
    bus.io[REG_TM0CNT_L as usize] = 0;
    bus.io[(REG_TM0CNT_L + 1) as usize] = 0;
    bus.io[REG_TM0CNT_H as usize] = 0x80 | 0x01; // enabled, prescaler = 1

    timers.update_from_io(&bus);

    // 63 cycles — not enough for one tick
    timers.tick(63, &mut bus);
    assert_eq!(timers.timers[0].counter, 0);

    // 1 more cycle (total 64) — should tick once
    timers.tick(1, &mut bus);
    assert_eq!(timers.timers[0].counter, 1);
}
