use vstd::prelude::*;

use crate::bits::lemma_and_bound;
use crate::bus::{Bus, BusView};
use crate::constants::{IRQ_TIMER0, IRQ_TIMER1, IRQ_TIMER2, IRQ_TIMER3, REG_TM0CNT_H, REG_TM0CNT_L};

verus! {

// =============================================================================
// Timer model
// =============================================================================

/// CPU cycles per timer tick for a prescaler selection: 1, 64, 256 or 1024.
pub open spec fn prescaler_divisor(sel: u8) -> u32 {
    if sel == 0 {
        1
    } else if sel == 1 {
        64
    } else if sel == 2 {
        256
    } else {
        1024
    }
}

/// Prescaler divisors for timer clock
fn divisor_of(sel: u8) -> (d: u32)
    ensures
        d == prescaler_divisor(sel),
{
    if sel == 0 {
        1
    } else if sel == 1 {
        64
    } else if sel == 2 {
        256
    } else {
        1024
    }
}

/// Timer channel state
#[derive(Debug, Clone, Copy, PartialEq, Eq, Structural)]
pub struct TimerChannel {
    /// Current counter value
    pub counter: u16,
    /// Reload value (written to TM_CNT_L)
    pub reload: u16,
    /// Prescaler selection (0-3)
    pub prescaler: u8,
    /// Count-up timing (cascade from previous timer)
    pub cascade: bool,
    /// IRQ on overflow
    pub irq_enable: bool,
    /// Timer enabled
    pub enabled: bool,
    /// Internal cycle accumulator
    pub cycles: u32,
}

/// A stopped timer with every field zero.
pub open spec fn timer_idle() -> TimerChannel {
    TimerChannel {
        counter: 0,
        reload: 0,
        prescaler: 0,
        cascade: false,
        irq_enable: false,
        enabled: false,
        cycles: 0,
    }
}

impl Default for TimerChannel {
    fn default() -> (t: Self)
        ensures
            t == timer_idle(),
    {
        Self {
            counter: 0,
            reload: 0,
            prescaler: 0,
            cascade: false,
            irq_enable: false,
            enabled: false,
            cycles: 0,
        }
    }
}

/// Timer `i` after its reload (TMxCNT_L) and control (TMxCNT_H) registers were read:
/// prescaler in bits 0-1, count-up in bit 2 (never for timer 0), IRQ in bit 6, enable in
/// bit 7. A timer that starts counts from its reload value with an empty accumulator.
pub open spec fn timer_from_io(t: TimerChannel, i: int, reload: u16, control: u16) -> TimerChannel {
    let enabled = control & 0x80 != 0;
    let t1 = TimerChannel {
        reload,
        prescaler: (control & 3) as u8,
        cascade: i > 0 && control & 4 != 0,
        irq_enable: control & 0x40 != 0,
        enabled,
        ..t
    };
    if enabled && !t.enabled {
        TimerChannel { counter: reload, cycles: 0, ..t1 }
    } else {
        t1
    }
}

/// I/O offset of the reload/counter register of timer `i`.
pub open spec fn tm_cnt_l(i: int) -> int {
    REG_TM0CNT_L + 4 * i
}

/// All four timers after `update_from_io` on a bus with I/O memory `bus`.
pub open spec fn timers_from_io(ts: Seq<TimerChannel>, bus: BusView) -> Seq<TimerChannel> {
    Seq::new(
        4,
        |i: int|
            timer_from_io(
                ts[i],
                i,
                bus.io_half(tm_cnt_l(i)),
                bus.io_half(REG_TM0CNT_H + 4 * i),
            ),
    )
}

/// The interrupt flag of timer `i`.
pub open spec fn timer_irq(i: int) -> u16 {
    if i == 0 {
        IRQ_TIMER0
    } else if i == 1 {
        IRQ_TIMER1
    } else if i == 2 {
        IRQ_TIMER2
    } else if i == 3 {
        IRQ_TIMER3
    } else {
        0
    }
}

/// Timers, bus and overflow mask while the timers advance.
#[verifier::ext_equal]
pub struct TickState {
    pub timers: Seq<TimerChannel>,
    pub bus: BusView,
    pub mask: u8,
}

/// Overflow of timer `i`: it reloads, its bit joins the mask and, if it asks for one,
/// its interrupt is raised.
pub open spec fn overflow(st: TickState, i: int) -> TickState {
    let t = st.timers[i];
    TickState {
        timers: st.timers.update(i, TimerChannel { counter: t.reload, ..t }),
        bus: if t.irq_enable {
            st.bus.request_interrupt(timer_irq(i))
        } else {
            st.bus
        },
        mask: st.mask | (1u8 << (i as u8)),
    }
}

/// Timer `i` counts once; past 0xFFFF it overflows.
pub open spec fn count_once(st: TickState, i: int) -> TickState {
    let t = st.timers[i];
    if t.counter == 0xFFFF {
        overflow(st, i)
    } else {
        TickState {
            timers: st.timers.update(i, TimerChannel { counter: (t.counter + 1) as u16, ..t }),
            ..st
        }
    }
}

/// One prescaler tick of timer `i`: it counts, and an overflow makes an enabled
/// count-up timer `i + 1` count once.
pub open spec fn tick_once(st: TickState, i: int) -> TickState {
    let st1 = count_once(st, i);
    if st.timers[i].counter == 0xFFFF && i < 3 && st1.timers[i + 1].cascade
        && st1.timers[i + 1].enabled {
        count_once(st1, i + 1)
    } else {
        st1
    }
}

/// `n` prescaler ticks of timer `i`.
pub open spec fn ticks(st: TickState, i: int, n: nat) -> TickState
    decreases n,
{
    if n == 0 {
        st
    } else {
        tick_once(ticks(st, i, (n - 1) as nat), i)
    }
}

/// Timer `i` after `cpu_cycles` CPU cycles: a stopped or count-up timer is left alone;
/// otherwise its accumulator gains the cycles, every full prescaler period is one tick,
/// the rest stays in the accumulator and the counter is written back to TMxCNT_L.
pub open spec fn channel_tick(st: TickState, i: int, cpu_cycles: u32) -> TickState {
    let t = st.timers[i];
    if !t.enabled || t.cascade {
        st
    } else {
        let d = prescaler_divisor(t.prescaler);
        let total = t.cycles + cpu_cycles;
        let st1 = ticks(st, i, (total / (d as int)) as nat);
        let t1 = st1.timers[i];
        TickState {
            timers: st1.timers.update(i, TimerChannel { cycles: (total % (d as int)) as u32, ..t1 }),
            bus: st1.bus.with_io_half(tm_cnt_l(i), t1.counter),
            mask: st1.mask,
        }
    }
}

/// Timers 0..n after `cpu_cycles` CPU cycles, in order.
pub open spec fn tick_upto(st: TickState, n: int, cpu_cycles: u32) -> TickState
    decreases n,
{
    if n <= 0 {
        st
    } else {
        channel_tick(tick_upto(st, n - 1, cpu_cycles), n - 1, cpu_cycles)
    }
}

/// Timers, bus and overflow mask after `tick`.
pub open spec fn tick_spec(ts: Seq<TimerChannel>, bus: BusView, cpu_cycles: u32) -> TickState {
    tick_upto(TickState { timers: ts, bus, mask: 0 }, 4, cpu_cycles)
}

/// The two timers agree on everything but the counter.
pub open spec fn same_setup(a: TimerChannel, b: TimerChannel) -> bool {
    &&& a.reload == b.reload
    &&& a.prescaler == b.prescaler
    &&& a.cascade == b.cascade
    &&& a.irq_enable == b.irq_enable
    &&& a.enabled == b.enabled
    &&& a.cycles == b.cycles
}

/// Ticking changes counters only, and keeps the bus well formed.
pub proof fn lemma_ticks_keep_setup(st: TickState, i: int, n: nat)
    requires
        0 <= i < 4,
        st.timers.len() == 4,
        st.bus.wf(),
    ensures
        ticks(st, i, n).timers.len() == 4,
        ticks(st, i, n).bus.wf(),
        forall|j: int| 0 <= j < 4 ==> same_setup(#[trigger] ticks(st, i, n).timers[j], st.timers[j]),
    decreases n,
{
    if n > 0 {
        lemma_ticks_keep_setup(st, i, (n - 1) as nat);
    }
}

/// Ticks of timer `j` touch only timer `j` and, when it counts up, timer `j + 1`.
proof fn lemma_ticks_frame(st: TickState, j: int, n: nat, k: int)
    requires
        0 <= j < 4,
        0 <= k < 4,
        st.timers.len() == 4,
        k != j,
        k == j + 1 ==> !st.timers[k].cascade,
    ensures
        ticks(st, j, n).timers.len() == 4,
        ticks(st, j, n).timers[k] == st.timers[k],
    decreases n,
{
    if n > 0 {
        lemma_ticks_frame(st, j, (n - 1) as nat, k);
    }
}

proof fn lemma_ticks_len(st: TickState, j: int, n: nat)
    requires
        0 <= j < 4,
        st.timers.len() == 4,
    ensures
        ticks(st, j, n).timers.len() == 4,
    decreases n,
{
    if n > 0 {
        lemma_ticks_len(st, j, (n - 1) as nat);
    }
}

/// Ticks of a timer that cannot overflow count it up by one each, and leave its setup.
proof fn lemma_ticks_count(st: TickState, i: int, n: nat)
    requires
        0 <= i < 4,
        st.timers.len() == 4,
        st.timers[i].counter + n <= 0xFFFF,
    ensures
        ticks(st, i, n).timers.len() == 4,
        ticks(st, i, n).timers[i] == (TimerChannel {
            counter: (st.timers[i].counter + n) as u16,
            ..st.timers[i]
        }),
    decreases n,
{
    if n > 0 {
        lemma_ticks_count(st, i, (n - 1) as nat);
    }
}

/// Channels `i + 1` up to `n` leave timer `i` alone.
proof fn lemma_tick_upto_after(st: TickState, n: int, i: int, cpu_cycles: u32)
    requires
        0 <= i < n <= 4,
        st.timers.len() == 4,
    ensures
        tick_upto(st, n, cpu_cycles).timers.len() == 4,
        tick_upto(st, n, cpu_cycles).timers[i] == tick_upto(st, i + 1, cpu_cycles).timers[i],
    decreases n,
{
    if n > i + 1 {
        lemma_tick_upto_after(st, n - 1, i, cpu_cycles);
        let prev = tick_upto(st, n - 1, cpu_cycles);
        let j = n - 1;
        let t = prev.timers[j];
        if t.enabled && !t.cascade {
            let d = prescaler_divisor(t.prescaler);
            lemma_ticks_frame(prev, j, ((t.cycles + cpu_cycles) / (d as int)) as nat, i);
        }
    } else {
        lemma_tick_upto_len(st, i + 1, cpu_cycles);
    }
}

/// Channels before `i` leave a timer `i` that does not count up alone.
proof fn lemma_tick_upto_before(st: TickState, n: int, i: int, cpu_cycles: u32)
    requires
        0 <= n <= i < 4,
        st.timers.len() == 4,
        !st.timers[i].cascade,
    ensures
        tick_upto(st, n, cpu_cycles).timers.len() == 4,
        tick_upto(st, n, cpu_cycles).timers[i] == st.timers[i],
    decreases n,
{
    if n > 0 {
        lemma_tick_upto_before(st, n - 1, i, cpu_cycles);
        let prev = tick_upto(st, n - 1, cpu_cycles);
        let j = n - 1;
        let t = prev.timers[j];
        if t.enabled && !t.cascade {
            let d = prescaler_divisor(t.prescaler);
            lemma_ticks_frame(prev, j, ((t.cycles + cpu_cycles) / (d as int)) as nat, i);
        }
    }
}

proof fn lemma_tick_upto_len(st: TickState, n: int, cpu_cycles: u32)
    requires
        0 <= n <= 4,
        st.timers.len() == 4,
    ensures
        tick_upto(st, n, cpu_cycles).timers.len() == 4,
    decreases n,
{
    if n > 0 {
        lemma_tick_upto_len(st, n - 1, cpu_cycles);
        let prev = tick_upto(st, n - 1, cpu_cycles);
        let j = n - 1;
        let t = prev.timers[j];
        if t.enabled && !t.cascade {
            let d = prescaler_divisor(t.prescaler);
            lemma_ticks_len(prev, j, ((t.cycles + cpu_cycles) / (d as int)) as nat);
        }
    }
}

/// A running timer that does not count up advances by one for every 1, 64, 256 or 1024
/// CPU cycles (prescaler selection 0, 1, 2 or 3), counting the cycles already in its
/// accumulator; what is left of an unfinished period stays in the accumulator. This holds
/// whenever the counter does not pass 0xFFFF.
pub proof fn lemma_timer_rate(ts: Seq<TimerChannel>, bus: BusView, cpu_cycles: u32, i: int)
    requires
        ts.len() == 4,
        0 <= i < 4,
        ts[i].enabled,
        !ts[i].cascade,
        ts[i].prescaler < 4,
        ts[i].counter + (ts[i].cycles + cpu_cycles) / (if ts[i].prescaler == 0 {
            1int
        } else if ts[i].prescaler == 1 {
            64
        } else if ts[i].prescaler == 2 {
            256
        } else {
            1024
        }) <= 0xFFFF,
    ensures
        ({
            let t = ts[i];
            let d: int = if t.prescaler == 0 {
                1
            } else if t.prescaler == 1 {
                64
            } else if t.prescaler == 2 {
                256
            } else {
                1024
            };
            let after = tick_spec(ts, bus, cpu_cycles).timers[i];
            &&& after.counter == t.counter + (t.cycles + cpu_cycles) / d
            &&& after.cycles == (t.cycles + cpu_cycles) % d
            &&& after.reload == t.reload && after.prescaler == t.prescaler && after.enabled
        }),
{
    let st = TickState { timers: ts, bus, mask: 0 };
    lemma_tick_upto_before(st, i, i, cpu_cycles);
    let pre = tick_upto(st, i, cpu_cycles);
    let t = ts[i];
    let d = prescaler_divisor(t.prescaler);
    let q = ((t.cycles + cpu_cycles) / (d as int)) as nat;
    lemma_ticks_count(pre, i, q);
    lemma_tick_upto_after(st, 4, i, cpu_cycles);
}

/// The timers keep their prescaler selections and their accumulators stay below a
/// prescaler period.
pub open spec fn timers_bounded(ts: Seq<TimerChannel>) -> bool {
    &&& ts.len() == 4
    &&& forall|j: int| 0 <= j < 4 ==> (#[trigger] ts[j]).prescaler < 4 && ts[j].cycles < 1024
}

proof fn lemma_tick_upto_bounds(st: TickState, n: int, cpu_cycles: u32)
    requires
        0 <= n <= 4,
        timers_bounded(st.timers),
        st.bus.wf(),
    ensures
        timers_bounded(tick_upto(st, n, cpu_cycles).timers),
        tick_upto(st, n, cpu_cycles).bus.wf(),
        forall|j: int|
            0 <= j < 4 ==> (#[trigger] tick_upto(st, n, cpu_cycles).timers[j]).prescaler
                == st.timers[j].prescaler,
    decreases n,
{
    if n > 0 {
        lemma_tick_upto_bounds(st, n - 1, cpu_cycles);
        let prev = tick_upto(st, n - 1, cpu_cycles);
        let i = n - 1;
        let t = prev.timers[i];
        if t.enabled && !t.cascade {
            let d = prescaler_divisor(t.prescaler);
            let total = t.cycles + cpu_cycles;
            lemma_ticks_keep_setup(prev, i, (total / (d as int)) as nat);
        }
    }
}

/// Ticking keeps the timers bounded and the bus well formed.
pub proof fn lemma_tick_keeps_bounds(ts: Seq<TimerChannel>, bus: BusView, cpu_cycles: u32)
    requires
        timers_bounded(ts),
        bus.wf(),
    ensures
        timers_bounded(tick_spec(ts, bus, cpu_cycles).timers),
        tick_spec(ts, bus, cpu_cycles).bus.wf(),
{
    lemma_tick_upto_bounds(TickState { timers: ts, bus, mask: 0 }, 4, cpu_cycles);
}

/// The timer controller: four channels, timers 1-3 may count up on the overflow of the
/// timer before them.
#[derive(Debug, Clone)]
pub struct TimerController {
    pub timers: [TimerChannel; 4],
}

impl TimerController {
    pub fn new() -> (tc: Self)
        ensures
            tc.timers@ == seq![timer_idle(), timer_idle(), timer_idle(), timer_idle()],
    {
        let t = TimerChannel::default();
        let tc = Self { timers: [t, t, t, t] };
        assert(tc.timers@ =~= seq![timer_idle(), timer_idle(), timer_idle(), timer_idle()]);
        tc
    }

    /// Synchronize timer state from I/O registers
    pub fn update_from_io(&mut self, bus: &Bus)
        requires
            bus@.wf(),
        ensures
            final(self).timers@ == timers_from_io(old(self).timers@, bus@),
    {
        let mut i: usize = 0;
        while i < 4
            invariant
                i <= 4,
                bus@.wf(),
                forall|j: int|
                    0 <= j < i ==> self.timers@[j] == #[trigger] timers_from_io(
                        old(self).timers@,
                        bus@,
                    )[j],
                forall|j: int| i <= j < 4 ==> self.timers@[j] == old(self).timers@[j],
            decreases 4 - i,
        {
            let cnt_l_offset = REG_TM0CNT_L + (i as u32) * 4;
            let cnt_h_offset = REG_TM0CNT_H + (i as u32) * 4;
            let reload = bus.io_read16_raw(cnt_l_offset);
            let control = bus.io_read16_raw(cnt_h_offset);
            let mut t = self.timers[i];
            let was_enabled = t.enabled;
            t.reload = reload;
            proof {
                lemma_and_bound();
            }
            t.prescaler = (control & 3) as u8;
            t.cascade = i > 0 && (control & 0x04) != 0;
            t.irq_enable = (control & 0x40) != 0;
            t.enabled = (control & 0x80) != 0;
            // Reset counter on first enable
            if t.enabled && !was_enabled {
                t.counter = t.reload;
                t.cycles = 0;
            }
            self.timers[i] = t;
            i = i + 1;
        }
        assert(self.timers@ =~= timers_from_io(old(self).timers@, bus@));
    }

    /// One prescaler tick of timer `i`
    fn tick_timer(&mut self, i: usize, bus: &mut Bus, mask: u8) -> (m: u8)
        requires
            i < 4,
            old(bus)@.wf(),
        ensures
            (TickState { timers: final(self).timers@, bus: final(bus)@, mask: m }) == tick_once(
                TickState { timers: old(self).timers@, bus: old(bus)@, mask },
                i as int,
            ),
            final(bus)@.wf(),
    {
        let ghost st0 = TickState { timers: self.timers@, bus: bus@, mask };
        let mut mask = mask;
        let overflowed = self.timers[i].counter == 0xFFFF;
        mask = self.count_timer(i, bus, mask);
        // Cascade: increment next timer
        if overflowed && i < 3 && self.timers[i + 1].cascade && self.timers[i + 1].enabled {
            mask = self.count_timer(i + 1, bus, mask);
        }
        assert((TickState { timers: self.timers@, bus: bus@, mask }) =~= tick_once(st0, i as int));
        mask
    }

    /// Timer `i` counts once, overflowing past 0xFFFF
    fn count_timer(&mut self, i: usize, bus: &mut Bus, mask: u8) -> (m: u8)
        requires
            i < 4,
            old(bus)@.wf(),
        ensures
            (TickState { timers: final(self).timers@, bus: final(bus)@, mask: m }) == count_once(
                TickState { timers: old(self).timers@, bus: old(bus)@, mask },
                i as int,
            ),
            final(bus)@.wf(),
    {
        let mut t = self.timers[i];
        if t.counter == 0xFFFF {
            t.counter = t.reload;
            self.timers[i] = t;
            if t.irq_enable {
                let irq = if i == 0 {
                    IRQ_TIMER0
                } else if i == 1 {
                    IRQ_TIMER1
                } else if i == 2 {
                    IRQ_TIMER2
                } else {
                    IRQ_TIMER3
                };
                bus.request_interrupt(irq);
            }
            assert(self.timers@ =~= old(self).timers@.update(i as int, t));
            mask | (1u8 << (i as u8))
        } else {
            t.counter = t.counter + 1;
            self.timers[i] = t;
            assert(self.timers@ =~= old(self).timers@.update(i as int, t));
            mask
        }
    }

    /// Advance timer `i` by `cpu_cycles` CPU cycles
    fn run_channel(&mut self, i: usize, cpu_cycles: u32, bus: &mut Bus, mask: u8) -> (m: u8)
        requires
            i < 4,
            old(bus)@.wf(),
            old(self).timers@[i as int].enabled,
            !old(self).timers@[i as int].cascade,
            old(self).timers@[i as int].prescaler < 4,
            old(self).timers@[i as int].cycles + cpu_cycles <= u32::MAX,
        ensures
            (TickState { timers: final(self).timers@, bus: final(bus)@, mask: m })
                == channel_tick(
                TickState { timers: old(self).timers@, bus: old(bus)@, mask },
                i as int,
                cpu_cycles,
            ),
            final(bus)@.wf(),
    {
        let ghost st0 = TickState { timers: self.timers@, bus: bus@, mask };
        let divisor = divisor_of(self.timers[i].prescaler);
        let total = self.timers[i].cycles + cpu_cycles;
        let mut acc = total;
        let mut mask = mask;
        let ghost mut k: nat = 0;
        while acc >= divisor
            invariant
                i < 4,
                divisor == prescaler_divisor(st0.timers[i as int].prescaler),
                1 <= divisor <= 1024,
                acc <= total,
                k * divisor + acc == total,
                (TickState { timers: self.timers@, bus: bus@, mask }) == ticks(st0, i as int, k),
                bus@.wf(),
            decreases acc,
        {
            acc = acc - divisor;
            mask = self.tick_timer(i, bus, mask);
            proof {
                assert((k + 1) * divisor == k * divisor + divisor) by (nonlinear_arith);
                k = k + 1;
            }
        }
        proof {
            vstd::arithmetic::div_mod::lemma_fundamental_div_mod_converse(
                total as int,
                divisor as int,
                k as int,
                acc as int,
            );
            lemma_ticks_keep_setup(st0, i as int, k);
        }
        let mut t = self.timers[i];
        t.cycles = acc;
        self.timers[i] = t;
        // Write back counter to I/O for reads
        let cnt_l_offset = REG_TM0CNT_L + (i as u32) * 4;
        bus.io_write16_raw(cnt_l_offset, t.counter);
        assert(self.timers@ =~= ticks(st0, i as int, k).timers.update(i as int, t));
        mask
    }

    /// Advance timers by the given number of CPU cycles.
    /// Returns which timers overflowed (bitmask).
    pub fn tick(&mut self, cpu_cycles: u32, bus: &mut Bus) -> (m: u8)
        requires
            old(bus)@.wf(),
            forall|j: int|
                0 <= j < 4 && old(self).timers@[j].enabled && !old(self).timers@[j].cascade
                    ==> #[trigger] old(self).timers@[j].prescaler < 4
                    && old(self).timers@[j].cycles + cpu_cycles <= u32::MAX,
        ensures
            (TickState { timers: final(self).timers@, bus: final(bus)@, mask: m }) == tick_spec(
                old(self).timers@,
                old(bus)@,
                cpu_cycles,
            ),
            final(bus)@.wf(),
    {
        let ghost st0 = TickState { timers: self.timers@, bus: bus@, mask: 0 };
        let mut overflow_mask = 0u8;
        let mut i: usize = 0;
        while i < 4
            invariant
                i <= 4,
                (TickState { timers: self.timers@, bus: bus@, mask: overflow_mask }) == tick_upto(
                    st0,
                    i as int,
                    cpu_cycles,
                ),
                bus@.wf(),
                forall|j: int|
                    0 <= j < 4 ==> {
                        let a = #[trigger] self.timers@[j];
                        let b = old(self).timers@[j];
                        &&& a.reload == b.reload
                        &&& a.prescaler == b.prescaler
                        &&& a.cascade == b.cascade
                        &&& a.enabled == b.enabled
                        &&& a.irq_enable == b.irq_enable
                        &&& (i <= j ==> a.cycles == b.cycles)
                    },
                forall|j: int|
                    0 <= j < 4 && old(self).timers@[j].enabled && !old(self).timers@[j].cascade
                        ==> #[trigger] old(self).timers@[j].prescaler < 4
                        && old(self).timers@[j].cycles + cpu_cycles <= u32::MAX,
            decreases 4 - i,
        {
            let ghost before = TickState { timers: self.timers@, bus: bus@, mask: overflow_mask };
            if self.timers[i].enabled && !self.timers[i].cascade {
                overflow_mask = self.run_channel(i, cpu_cycles, bus, overflow_mask);
                proof {
                    let t = before.timers[i as int];
                    let d = prescaler_divisor(t.prescaler);
                    let total = t.cycles + cpu_cycles;
                    lemma_ticks_keep_setup(before, i as int, (total / (d as int)) as nat);
                }
            }
            i = i + 1;
        }
        overflow_mask
    }
}

impl Default for TimerController {
    fn default() -> (tc: Self)
        ensures
            tc.timers@ == seq![timer_idle(), timer_idle(), timer_idle(), timer_idle()],
    {
        Self::new()
    }
}

} // verus!
