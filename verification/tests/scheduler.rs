use rgba::scheduler::{EventKind, Scheduler};

#[test]
fn test_schedule_and_pop() {
    let mut sched = Scheduler::new();
    sched.schedule(EventKind::HBlank, 100);
    sched.schedule(EventKind::VBlank, 50);

    // VBlank should be first (earlier)
    assert_eq!(sched.peek().unwrap().kind, EventKind::VBlank);

    // Not yet due
    assert!(sched.pop_pending().is_none());

    // Advance to 50
    sched.advance(50);
    let event = sched.pop_pending().unwrap();
    assert_eq!(event.kind, EventKind::VBlank);

    // HBlank not yet due
    assert!(sched.pop_pending().is_none());

    // Advance to 100
    sched.advance(50);
    let event = sched.pop_pending().unwrap();
    assert_eq!(event.kind, EventKind::HBlank);
}

#[test]
fn test_cancel_event() {
    let mut sched = Scheduler::new();
    sched.schedule(EventKind::Timer0Overflow, 200);
    assert!(sched.is_scheduled(EventKind::Timer0Overflow));

    sched.cancel(EventKind::Timer0Overflow);
    assert!(!sched.is_scheduled(EventKind::Timer0Overflow));
}

#[test]
fn test_schedule_relative() {
    let mut sched = Scheduler::new();
    sched.advance(1000);
    sched.schedule_relative(EventKind::ApuSample, 512);

    assert_eq!(sched.peek().unwrap().timestamp, 1512);
}

#[test]
fn test_reschedule_replaces() {
    let mut sched = Scheduler::new();
    sched.schedule(EventKind::HBlank, 100);
    sched.schedule(EventKind::HBlank, 200);

    // Should have only one HBlank event
    assert_eq!(sched.pending_count(), 1);
    assert_eq!(sched.peek().unwrap().timestamp, 200);
}
