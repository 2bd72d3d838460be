use vstd::prelude::*;

use crate::bits::lemma_half_flags;
use crate::bus::{bus_initial, lemma_write_byte_wf, region, Bus, BusAccess, BusView};
use crate::io::lemma_half_bytes;
use crate::cartridge::{cartridge_of, copy_prefix, overwrite_prefix, save_data_spec, after_load, Cartridge};
use crate::constants::{
    BIOS_SIZE, CYCLES_PER_FRAME, CYCLES_PER_SCANLINE, HBLANK_CYCLES, HDRAW_CYCLES, IRQ_HBLANK, IRQ_KEYPAD, IRQ_VBLANK, IRQ_VCOUNT,
    REG_BG2X, REG_BG2Y, REG_BG3X, REG_BG3Y, REG_DISPSTAT, REG_KEYCNT, VISIBLE_LINES,
};
use crate::cpu::{exception_entry, regs_direct_boot, regs_power_on, step_spec, Arm7Tdmi};
use crate::dma::{
    check_upto, dma_idle, lemma_check_keeps, lemma_total_count_same, total_count, DmaChannel,
    DmaController, DmaRun, DmaTiming,
};
use crate::ppu::{lemma_sext28_range, mem32, ppu_advance, sext28, Ppu, PpuEvent};
use crate::render::{buffers_fit, line_of, refs_in_range, scanline_spec, LineState, RenderCtx};
use crate::scheduler::{
    backlog, events_sorted, has_kind, kinds_unique, lemma_backlog_remove_first,
    lemma_backlog_schedule, lemma_schedule_contents, lemma_schedule_empty, overdue, schedule_spec,
    Event, EventKind, SchedView, Scheduler,
};
use crate::timer::{
    lemma_tick_keeps_bounds, tick_spec, timer_idle, timers_bounded, TimerChannel, TimerController,
};
use crate::types::{button_bit, psr_has, AccessWidth, CpuMode, GbaButton, MemoryWatch, Psr, RegsView};

verus! {

// =============================================================================
// The system as values
// =============================================================================

/// The PPU as values.
#[verifier::ext_equal]
pub struct PpuView {
    pub vcount: u16,
    pub dot: u32,
    pub line: LineState,
    pub frame_ready: bool,
    pub bg2_ref_x: i32,
    pub bg2_ref_y: i32,
    pub bg3_ref_x: i32,
    pub bg3_ref_y: i32,
}

pub open spec fn ppu_view(p: Ppu) -> PpuView {
    PpuView {
        vcount: p.vcount,
        dot: p.dot,
        line: line_of(p),
        frame_ready: p.frame_ready,
        bg2_ref_x: p.bg2_ref_x,
        bg2_ref_y: p.bg2_ref_y,
        bg3_ref_x: p.bg3_ref_x,
        bg3_ref_y: p.bg3_ref_y,
    }
}

/// What a step of the system changes: CPU registers, halt flag and cycle count, the bus,
/// the PPU, DMA channels, timers and the scheduler.
#[verifier::ext_equal]
pub struct SysView {
    pub regs: RegsView,
    pub halted: bool,
    pub cpu_cycles: u64,
    pub bus: BusView,
    pub ppu: PpuView,
    pub dma: Seq<DmaChannel>,
    pub timers: Seq<TimerChannel>,
    pub sched: SchedView,
}

/// What the PPU reads from the bus, with its affine reference points.
pub open spec fn render_ctx(s: SysView) -> RenderCtx {
    RenderCtx {
        io: s.bus.io,
        palette: s.bus.palette,
        vram: s.bus.vram,
        oam: s.bus.oam,
        bg2_ref_x: s.ppu.bg2_ref_x,
        bg2_ref_y: s.ppu.bg2_ref_y,
        bg3_ref_x: s.ppu.bg3_ref_x,
        bg3_ref_y: s.ppu.bg3_ref_y,
    }
}

/// The scheduler with `kind` scheduled at `t`.
pub open spec fn with_scheduled(s: SysView, kind: EventKind, t: u64) -> SysView {
    SysView { sched: SchedView { events: schedule_spec(s.sched.events, kind, t), ..s.sched }, ..s }
}

/// Start of HBlank at `ts`: the current line is drawn (if visible), DISPSTAT shows
/// HBlank, the HBlank interrupt is raised if DISPSTAT bit 4 asks for it, HBlank DMA runs
/// and the end of HBlank is scheduled 226 cycles later.
pub open spec fn on_hblank_spec(s: SysView, ts: u64) -> SysView {
    let p1 = if s.ppu.vcount < VISIBLE_LINES {
        PpuView { line: scanline_spec(s.ppu.line, s.ppu.vcount as int, render_ctx(s)), ..s.ppu }
    } else {
        s.ppu
    };
    let b1 = s.bus.update_display_status(p1.vcount, true);
    let b2 = if b1.io_read16(REG_DISPSTAT) & 0x10 != 0 {
        b1.request_interrupt(IRQ_HBLANK)
    } else {
        b1
    };
    let d = check_upto(DmaRun { channels: s.dma, bus: b2, cycles: 0 }, 4, DmaTiming::HBlank);
    with_scheduled(
        SysView { ppu: p1, bus: d.bus, dma: d.channels, ..s },
        EventKind::HBlankEnd,
        (ts + HBLANK_CYCLES) as u64,
    )
}

/// The PPU with its reference points latched from the BG2/BG3 X/Y registers.
pub open spec fn latched(p: PpuView, io: Seq<u8>) -> PpuView {
    PpuView {
        bg2_ref_x: sext28(mem32(io, REG_BG2X as int)) as i32,
        bg2_ref_y: sext28(mem32(io, REG_BG2Y as int)) as i32,
        bg3_ref_x: sext28(mem32(io, REG_BG3X as int)) as i32,
        bg3_ref_y: sext28(mem32(io, REG_BG3Y as int)) as i32,
        ..p
    }
}

/// End of HBlank at `ts`: the PPU moves to the next line and DISPSTAT follows; entering
/// VBlank raises its interrupt (DISPSTAT bit 3) and runs VBlank DMA, a new frame latches
/// the reference points; a V-counter match raises its interrupt (DISPSTAT bit 5); the next
/// HBlank is scheduled 1006 cycles later.
pub open spec fn on_hblank_end_spec(s: SysView, ts: u64) -> SysView {
    let (v, fr, ev) = ppu_advance(s.ppu.vcount, s.ppu.frame_ready);
    let p1 = PpuView { vcount: v, frame_ready: fr, ..s.ppu };
    let b1 = s.bus.update_display_status(v, false);
    let vb = if b1.io_read16(REG_DISPSTAT) & 0x08 != 0 {
        b1.request_interrupt(IRQ_VBLANK)
    } else {
        b1
    };
    let d = check_upto(DmaRun { channels: s.dma, bus: vb, cycles: 0 }, 4, DmaTiming::VBlank);
    let p2 = if ev == PpuEvent::FrameStart {
        latched(p1, b1.io)
    } else {
        p1
    };
    let b2 = if ev == PpuEvent::VBlankStart {
        d.bus
    } else {
        b1
    };
    let d2 = if ev == PpuEvent::VBlankStart {
        d.channels
    } else {
        s.dma
    };
    let ds = b2.io_read16(REG_DISPSTAT);
    let b3 = if ds & 4 != 0 && ds & 0x20 != 0 {
        b2.request_interrupt(IRQ_VCOUNT)
    } else {
        b2
    };
    with_scheduled(
        SysView { ppu: p2, bus: b3, dma: d2, ..s },
        EventKind::HBlank,
        (ts + HDRAW_CYCLES) as u64,
    )
}

/// Handling one event: HBlank and HBlank end drive the display, other kinds do nothing.
pub open spec fn handle_event_spec(s: SysView, e: Event) -> SysView {
    match e.kind {
        EventKind::HBlank => on_hblank_spec(s, e.timestamp),
        EventKind::HBlankEnd => on_hblank_end_spec(s, e.timestamp),
        _ => s,
    }
}

/// The first event is due.
pub open spec fn has_pending(s: SysView) -> bool {
    s.sched.events.len() > 0 && s.sched.events[0].timestamp <= s.sched.current_cycle
}

/// Take the first event off and handle it, if it is due.
pub open spec fn handle_next(s: SysView) -> SysView {
    if has_pending(s) {
        handle_event_spec(
            SysView { sched: SchedView { events: s.sched.events.remove(0), ..s.sched }, ..s },
            s.sched.events[0],
        )
    } else {
        s
    }
}

/// `n` rounds of handling due events.
pub open spec fn drain(s: SysView, n: nat) -> SysView
    decreases n,
{
    if n == 0 {
        s
    } else {
        handle_next(drain(s, (n - 1) as nat))
    }
}

/// Handling every due event.
pub open spec fn drain_all(s: SysView) -> SysView {
    drain(s, choose|n: nat| !has_pending(drain(s, n)))
}

/// One step of the system: the part before the events, then every due event handled.
#[verifier::opaque]
pub open spec fn step_view(s: SysView, keyinput: u16) -> SysView {
    drain_all(before_events(s, keyinput))
}

/// `n` steps of the system with the keys held at `keyinput`.
pub open spec fn steps(s: SysView, keyinput: u16, n: nat) -> SysView
    decreases n,
{
    if n == 0 {
        s
    } else {
        step_view(steps(s, keyinput, (n - 1) as nat), keyinput)
    }
}

/// The system with the frame-ready flag cleared.
pub open spec fn unready(s: SysView) -> SysView {
    SysView { ppu: PpuView { frame_ready: false, ..s.ppu }, ..s }
}

/// `run_frame` can run: the display is paced and the cycle counters and the frame count
/// cannot overflow before VBlank.
pub open spec fn run_frame_ok(g: Gba) -> bool {
    let s = sys_view(g);
    &&& frame_chain(s)
    &&& vblank_due(s) + 8192 <= u64::MAX
    &&& g.cpu.cycles + 64 * (vblank_due(s) - g.scheduler@.current_cycle) + 64 <= u64::MAX
    &&& g.frame_count < u64::MAX
}

/// VBlank is due no earlier than the pending line event.
proof fn lemma_line_event_before_vblank(s: SysView)
    requires
        s.ppu.vcount < 228,
    ensures
        vblank_due(s) >= line_event(s.sched.events).timestamp,
{
    let v = s.ppu.vcount;
    assert(0 <= (159 - v) % 228);
}

/// Once nothing is due, further rounds change nothing.
proof fn lemma_drain_settled(s: SysView, n: nat, m: nat)
    requires
        !has_pending(drain(s, n)),
        n <= m,
    ensures
        drain(s, m) == drain(s, n),
    decreases m - n,
{
    if n < m {
        lemma_drain_settled(s, n, (m - 1) as nat);
    }
}

// =============================================================================
// Pacing of the display
// =============================================================================

/// The two event kinds that pace the display lines.
pub open spec fn is_line_kind(k: EventKind) -> bool {
    k == EventKind::HBlank || k == EventKind::HBlankEnd
}

/// Exactly one line event (an HBlank or the end of one) is pending.
pub open spec fn line_chain(events: Seq<Event>) -> bool {
    has_kind(events, EventKind::HBlank) != has_kind(events, EventKind::HBlankEnd)
}

/// The pending line event.
pub open spec fn line_event(events: Seq<Event>) -> Event {
    choose|e: Event| events.contains(e) && is_line_kind(e.kind)
}

/// The cycle at which line 159 ends (and VBlank starts), counted from line event `e`
/// with the PPU on line `v`: an HBlank ends its line 226 cycles later, an HBlank end is
/// the end of a line, and each further line takes 1232 cycles.
pub open spec fn vblank_time(e: Event, v: u16) -> int {
    let line_end = if e.kind == EventKind::HBlank {
        e.timestamp + HBLANK_CYCLES
    } else {
        e.timestamp as int
    };
    line_end + CYCLES_PER_SCANLINE * ((159 - v) % 228)
}

/// The display is paced: its line event is pending and not yet due.
pub open spec fn frame_chain(s: SysView) -> bool {
    line_chain(s.sched.events) && line_event(s.sched.events).timestamp > s.sched.current_cycle
}

/// The cycle at which the display next reaches VBlank.
pub open spec fn vblank_due(s: SysView) -> int {
    vblank_time(line_event(s.sched.events), s.ppu.vcount)
}

/// The line event is the only one of its kinds.
proof fn lemma_line_event_is(s: Seq<Event>, a: Event)
    requires
        kinds_unique(s),
        line_chain(s),
        s.contains(a),
        is_line_kind(a.kind),
    ensures
        line_event(s) == a,
{
    let e = line_event(s);
    assert(s.contains(e) && is_line_kind(e.kind));
    let i = choose|i: int| 0 <= i < s.len() && s[i] == e;
    let j = choose|j: int| 0 <= j < s.len() && s[j] == a;
    if e.kind != a.kind {
        assert(has_kind(s, e.kind));
        assert(has_kind(s, a.kind));
    }
    assert(i == j);
}

/// Lines left until line 159 ends, after one more line.
proof fn lemma_next_line_count(v: u16)
    requires
        v < 228,
        v != 159,
    ensures
        1 + (159 - (if v + 1 >= 228 { 0 } else { v + 1 })) % 228 == (159 - v) % 228,
{
}

/// What handling due events keeps while the CPU's cycles are accounted: the pacing of the
/// display; VBlank due at `t0` until the frame is ready, and one frame later once it is
/// (which happens only when `t0` is reached); and that the initial line event is either
/// still pending or has been followed by one that is not yet due.
pub open spec fn drain_keeps(x: SysView, e0: Event, t0: int, c1: u64) -> bool {
    &&& x.sched.current_cycle == c1
    &&& line_chain(x.sched.events)
    &&& x.ppu.vcount < 228
    &&& vblank_time(line_event(x.sched.events), x.ppu.vcount) == if x.ppu.frame_ready {
        t0 + CYCLES_PER_FRAME
    } else {
        t0
    }
    &&& x.ppu.frame_ready ==> t0 <= c1
    &&& ((line_event(x.sched.events) == e0 && !x.ppu.frame_ready) || line_event(
        x.sched.events,
    ).timestamp > c1)
}

/// What handling the next due event does to the event list and to the PPU's line and
/// frame flag.
spec fn handle_summary(x: SysView, y: SysView) -> bool {
    let ev = x.sched.events;
    let v = x.ppu.vcount;
    let fr = x.ppu.frame_ready;
    &&& y.sched.current_cycle == x.sched.current_cycle
    &&& !has_pending(x) ==> y.sched.events == ev && y.ppu.vcount == v && y.ppu.frame_ready == fr
    &&& has_pending(x) ==> {
        let f = ev[0];
        let rest = ev.remove(0);
        if f.kind == EventKind::HBlank {
            &&& y.sched.events == schedule_spec(
                rest,
                EventKind::HBlankEnd,
                (f.timestamp + HBLANK_CYCLES) as u64,
            )
            &&& y.ppu.vcount == v
            &&& y.ppu.frame_ready == fr
        } else if f.kind == EventKind::HBlankEnd {
            &&& y.sched.events == schedule_spec(
                rest,
                EventKind::HBlank,
                (f.timestamp + HDRAW_CYCLES) as u64,
            )
            &&& y.ppu.vcount == ppu_advance(v, fr).0
            &&& y.ppu.frame_ready == ppu_advance(v, fr).1
        } else {
            &&& y.sched.events == rest
            &&& y.ppu.vcount == v
            &&& y.ppu.frame_ready == fr
        }
    }
}

proof fn lemma_handle_summary(x: SysView)
    ensures
        handle_summary(x, handle_next(x)),
{
}

/// Handling one due event keeps `drain_keeps`, as long as a successor of the initial
/// line event cannot be due.
proof fn lemma_handle_keeps(x: SysView, y: SysView, e0: Event, t0: int, c1: u64)
    requires
        drain_keeps(x, e0, t0, c1),
        handle_summary(x, y),
        e0.timestamp + HBLANK_CYCLES > c1,
        c1 + 2048 <= u64::MAX,
        kinds_unique(x.sched.events),
        events_sorted(x.sched.events),
        kinds_unique(y.sched.events),
        y.ppu.vcount < 228,
    ensures
        drain_keeps(y, e0, t0, c1),
{
    if has_pending(x) {
        let ev = x.sched.events;
        let f = ev[0];
        let rest = ev.remove(0);
        assert(ev.contains(f));
        assert forall|z: Event| rest.contains(z) implies ev.contains(z) && z.kind != f.kind by {
            let i = choose|i: int| 0 <= i < rest.len() && rest[i] == z;
            assert(ev[i + 1] == z);
        }
        assert forall|z: Event| ev.contains(z) && z != f implies rest.contains(z) by {
            let i = choose|i: int| 0 <= i < ev.len() && ev[i] == z;
            assert(rest[i - 1] == z);
        }
        if !is_line_kind(f.kind) {
            assert(y.sched.events == rest);
            assert(has_kind(ev, EventKind::HBlank) || has_kind(ev, EventKind::HBlankEnd));
            let k = if has_kind(ev, EventKind::HBlank) {
                EventKind::HBlank
            } else {
                EventKind::HBlankEnd
            };
            let i = choose|i: int| 0 <= i < ev.len() && ev[i].kind == k;
            assert(ev.contains(ev[i]));
            assert(rest.contains(ev[i]));
            assert forall|kk: EventKind| has_kind(rest, kk) implies has_kind(ev, kk) by {
                let j = choose|j: int| 0 <= j < rest.len() && rest[j].kind == kk;
                assert(rest.contains(rest[j]));
                let i2 = choose|i2: int| 0 <= i2 < ev.len() && ev[i2] == rest[j];
            }
            assert(has_kind(rest, k)) by {
                let j = choose|j: int| 0 <= j < rest.len() && rest[j] == ev[i];
            }
            lemma_line_event_is(ev, ev[i]);
            lemma_line_event_is(rest, ev[i]);
        } else {
            lemma_line_event_is(ev, f);
            assert forall|kk: EventKind| is_line_kind(kk) implies !has_kind(rest, kk) by {
                if has_kind(rest, kk) {
                    let j = choose|j: int| 0 <= j < rest.len() && rest[j].kind == kk;
                    assert(rest.contains(rest[j]));
                    assert(ev.contains(rest[j]));
                    let i2 = choose|i2: int| 0 <= i2 < ev.len() && ev[i2] == rest[j];
                    if kk != f.kind {
                        assert(has_kind(ev, f.kind));
                        assert(has_kind(ev, kk));
                    }
                }
            }
            let (nk, nt) = if f.kind == EventKind::HBlank {
                (EventKind::HBlankEnd, (f.timestamp + HBLANK_CYCLES) as u64)
            } else {
                (EventKind::HBlank, (f.timestamp + HDRAW_CYCLES) as u64)
            };
            let ne = Event { kind: nk, timestamp: nt };
            let ys = y.sched.events;
            assert(events_sorted(rest));
            assert(ys == schedule_spec(rest, nk, nt));
            lemma_schedule_contents(rest, nk, nt, ne);
            assert(ys.contains(ne));
            assert forall|kk: EventKind| is_line_kind(kk) && kk != nk implies !has_kind(ys, kk) by {
                if has_kind(ys, kk) {
                    let j = choose|j: int| 0 <= j < ys.len() && ys[j].kind == kk;
                    let z = ys[j];
                    assert(ys.contains(z));
                    lemma_schedule_contents(rest, nk, nt, z);
                    let i = choose|i: int| 0 <= i < rest.len() && rest[i] == z;
                    assert(has_kind(rest, kk));
                }
            }
            assert(has_kind(ys, nk)) by {
                let j = choose|j: int| 0 <= j < ys.len() && ys[j] == ne;
            }
            lemma_line_event_is(ys, ne);
            if f.kind == EventKind::HBlankEnd && !y.ppu.frame_ready {
                lemma_next_line_count(x.ppu.vcount);
            }
            if f.kind == EventKind::HBlankEnd && y.ppu.frame_ready {
                assert(x.ppu.vcount == 159);
                assert((159 - 160int) % 228 == 227);
            }
        }
    }
}

/// Where an IRQ returns to: the instruction after the next one.
pub open spec fn irq_return(r: RegsView) -> u32 {
    if psr_has(r.cpsr, Psr::T) {
        r.gpr[15].wrapping_add(2)
    } else {
        r.gpr[15].wrapping_add(4)
    }
}

/// The part of a step before the events: the keypad latch takes the key state, a pending
/// enabled interrupt is taken unless the CPSR masks IRQs, the CPU runs one instruction
/// (a halted CPU idles for one cycle), and the scheduler and timers advance by its cycles.
pub open spec fn before_events(s: SysView, keyinput: u16) -> SysView {
    let b0 = BusView { keyinput, ..s.bus };
    let take_irq = b0.has_pending_irq() && !psr_has(s.regs.cpsr, Psr::I);
    let r1 = if take_irq {
        exception_entry(s.regs, CpuMode::Irq, irq_return(s.regs), 0x18)
    } else {
        s.regs
    };
    let h1 = if take_irq {
        false
    } else {
        s.halted
    };
    let x = step_spec(r1, b0);
    let c: u32 = if h1 {
        1
    } else {
        x.cycles
    };
    let b1 = if h1 {
        b0
    } else {
        x.bus
    };
    let t = tick_spec(s.timers, b1, c);
    SysView {
        regs: if h1 {
            r1
        } else {
            x.regs
        },
        halted: h1,
        cpu_cycles: if h1 {
            s.cpu_cycles
        } else {
            (s.cpu_cycles + c) as u64
        },
        bus: t.bus,
        timers: t.timers,
        sched: SchedView { current_cycle: (s.sched.current_cycle + c) as u64, ..s.sched },
        ..s
    }
}

// =============================================================================
// The GBA
// =============================================================================

/// The complete GBA emulator state
#[derive(Clone)]
pub struct Gba {
    pub cpu: Arm7Tdmi,
    pub bus: Bus,
    pub ppu: Ppu,
    pub dma: DmaController,
    pub timers: TimerController,
    pub scheduler: Scheduler,
    pub cartridge: Option<Cartridge>,
    /// Keypad state (active-low: 0 = pressed)
    pub keyinput: u16,
    /// Memory watches for RAM inspection
    pub watches: Vec<MemoryWatch>,
    /// Frame counter
    pub frame_count: u64,
}

/// The emulated system of a GBA as values.
pub open spec fn sys_view(g: Gba) -> SysView {
    SysView {
        regs: g.cpu.regs@,
        halted: g.cpu.halted,
        cpu_cycles: g.cpu.cycles,
        bus: g.bus@,
        ppu: ppu_view(g.ppu),
        dma: g.dma.channels@,
        timers: g.timers.timers@,
        sched: g.scheduler@,
    }
}

/// The components fit together: every memory region and buffer has its size, the PPU is on
/// one of its 228 lines with 28-bit reference points, the events are sorted and of distinct
/// kinds, the timers are bounded and the DMA counts cannot overflow the cycle count.
pub open spec fn gba_wf(g: Gba) -> bool {
    &&& g.bus@.wf()
    &&& buffers_fit(g.ppu)
    &&& refs_in_range(g.ppu)
    &&& g.ppu.vcount < 228
    &&& g.scheduler.wf()
    &&& timers_bounded(g.timers.timers@)
    &&& 2 * total_count(g.dma.channels@) <= u32::MAX
}

/// Everything outside the emulated system is as it was.
pub open spec fn same_outside(a: Gba, b: Gba) -> bool {
    &&& a.cpu.pipeline == b.cpu.pipeline
    &&& a.cartridge == b.cartridge
    &&& a.keyinput == b.keyinput
    &&& a.watches == b.watches
    &&& a.frame_count == b.frame_count
}

impl Gba {
    /// Start of HBlank
    fn on_hblank(&mut self, timestamp: u64)
        requires
            gba_wf(*old(self)),
            timestamp <= u64::MAX - 2048,
        ensures
            sys_view(*final(self)) == on_hblank_spec(sys_view(*old(self)), timestamp),
            gba_wf(*final(self)),
            final(self).cpu == old(self).cpu,
            same_outside(*final(self), *old(self)),
    {
        let ghost s = sys_view(*self);
        // Render the current scanline
        if self.ppu.vcount < VISIBLE_LINES as u16 {
            self.ppu.render_scanline(
                self.bus.io.as_slice(),
                self.bus.palette.as_slice(),
                self.bus.vram.as_slice(),
                self.bus.oam.as_slice(),
            );
        }
        // Update DISPSTAT
        self.bus.update_display_status(self.ppu.vcount, true);
        // HBlank IRQ
        let dispstat = self.bus.io_read16(REG_DISPSTAT);
        if dispstat & 0x10 != 0 {
            self.bus.request_interrupt(IRQ_HBLANK);
        }
        let ghost b2 = self.bus@;
        // HBlank DMA
        proof {
            lemma_check_keeps(DmaRun { channels: s.dma, bus: b2, cycles: 0 }, 4, DmaTiming::HBlank);
        }
        self.dma.check_timing(DmaTiming::HBlank, &mut self.bus);
        // Schedule end of HBlank
        self.scheduler.schedule(EventKind::HBlankEnd, timestamp + HBLANK_CYCLES as u64);
        assert(sys_view(*self) =~= on_hblank_spec(s, timestamp));
        proof {
            lemma_total_count_same(self.dma.channels@, s.dma);
        }
    }

    /// End of HBlank: next scanline
    fn on_hblank_end(&mut self, timestamp: u64)
        requires
            gba_wf(*old(self)),
            timestamp <= u64::MAX - 2048,
        ensures
            sys_view(*final(self)) == on_hblank_end_spec(sys_view(*old(self)), timestamp),
            gba_wf(*final(self)),
            final(self).cpu == old(self).cpu,
            same_outside(*final(self), *old(self)),
    {
        let ghost s = sys_view(*self);
        // Advance to next scanline
        let ppu_event = self.ppu.advance_scanline();
        self.bus.update_display_status(self.ppu.vcount, false);
        let ghost b1 = self.bus@;
        match ppu_event {
            PpuEvent::VBlankStart => {
                // VBlank IRQ
                let dispstat = self.bus.io_read16(REG_DISPSTAT);
                if dispstat & 0x08 != 0 {
                    self.bus.request_interrupt(IRQ_VBLANK);
                }
                // VBlank DMA
                proof {
                    lemma_check_keeps(
                        DmaRun { channels: s.dma, bus: self.bus@, cycles: 0 },
                        4,
                        DmaTiming::VBlank,
                    );
                }
                self.dma.check_timing(DmaTiming::VBlank, &mut self.bus);
            },
            PpuEvent::FrameStart => {
                // Latch BG reference points
                self.ppu.latch_ref_points(self.bus.io.as_slice());
                proof {
                    lemma_sext28_range(mem32(b1.io, REG_BG2X as int));
                    lemma_sext28_range(mem32(b1.io, REG_BG2Y as int));
                    lemma_sext28_range(mem32(b1.io, REG_BG3X as int));
                    lemma_sext28_range(mem32(b1.io, REG_BG3Y as int));
                }
            },
            _ => {},
        }
        // VCount match IRQ
        let dispstat = self.bus.io_read16(REG_DISPSTAT);
        if dispstat & 4 != 0 && dispstat & 0x20 != 0 {
            self.bus.request_interrupt(IRQ_VCOUNT);
        }
        // Schedule next HBlank
        self.scheduler.schedule(EventKind::HBlank, timestamp + HDRAW_CYCLES as u64);
        proof {
            lemma_total_count_same(self.dma.channels@, s.dma);
        }
        assert(sys_view(*self) =~= on_hblank_end_spec(s, timestamp));
    }

    /// Handle one due event
    fn handle_event(&mut self, event: Event)
        requires
            gba_wf(*old(self)),
            event.timestamp <= u64::MAX - 2048,
        ensures
            sys_view(*final(self)) == handle_event_spec(sys_view(*old(self)), event),
            gba_wf(*final(self)),
            final(self).cpu == old(self).cpu,
            same_outside(*final(self), *old(self)),
            final(self).scheduler@.current_cycle == old(self).scheduler@.current_cycle,
            event.timestamp <= old(self).scheduler@.current_cycle ==> backlog(
                final(self).scheduler@.events,
                old(self).scheduler@.current_cycle,
            ) < backlog(old(self).scheduler@.events, old(self).scheduler@.current_cycle)
                + overdue(event, old(self).scheduler@.current_cycle),
    {
        let ghost c = self.scheduler@.current_cycle;
        match event.kind {
            EventKind::HBlank => {
                proof {
                    lemma_backlog_schedule(
                        self.scheduler@.events,
                        EventKind::HBlankEnd,
                        (event.timestamp + HBLANK_CYCLES) as u64,
                        c,
                    );
                }
                self.on_hblank(event.timestamp);
            },
            EventKind::HBlankEnd => {
                proof {
                    lemma_backlog_schedule(
                        self.scheduler@.events,
                        EventKind::HBlank,
                        (event.timestamp + HDRAW_CYCLES) as u64,
                        c,
                    );
                }
                self.on_hblank_end(event.timestamp);
            },
            _ => {},
        }
    }

    /// Whether a frame can be run: a line event paces the display and the cycle counters
    /// and the frame count cannot overflow before VBlank.
    pub fn frame_runnable(&self) -> (r: bool)
        requires
            gba_wf(*self),
        ensures
            r == run_frame_ok(*self),
    {
        let ghost s = sys_view(*self);
        let hb = self.scheduler.find(EventKind::HBlank);
        let he = self.scheduler.find(EventKind::HBlankEnd);
        let e = match (hb, he) {
            (Some(e), None) => e,
            (None, Some(e)) => e,
            _ => {
                return false;
            },
        };
        proof {
            lemma_line_event_is(s.sched.events, e);
        }
        let current = self.scheduler.current();
        if e.timestamp <= current {
            return false;
        }
        let v = self.ppu.vcount;
        let lines: u128 = if v <= 159 {
            (159 - v) as u128
        } else {
            (387 - v) as u128
        };
        assert(lines == (159 - v) % 228);
        let line_end: u128 = if e.kind == EventKind::HBlank {
            e.timestamp as u128 + HBLANK_CYCLES as u128
        } else {
            e.timestamp as u128
        };
        let due: u128 = line_end + CYCLES_PER_SCANLINE as u128 * lines;
        assert(due == vblank_due(s));
        if due + 8192 > u64::MAX as u128 {
            return false;
        }
        if self.cpu.cycles as u128 + 64 * (due - current as u128) + 64 > u64::MAX as u128 {
            return false;
        }
        self.frame_count < u64::MAX
    }

    /// Run emulation for one complete frame (280,896 CPU cycles)
    pub fn run_frame(&mut self)
        requires
            gba_wf(*old(self)),
            run_frame_ok(*old(self)),
        ensures
            exists|n: nat|
                {
                    &&& sys_view(*final(self)) == steps(
                        unready(sys_view(*old(self))),
                        old(self).keyinput,
                        n,
                    )
                    &&& forall|k: nat|
                        k < n ==> !(#[trigger] steps(
                            unready(sys_view(*old(self))),
                            old(self).keyinput,
                            k,
                        )).ppu.frame_ready
                },
            final(self).ppu.frame_ready,
            final(self).frame_count == old(self).frame_count + 1,
            gba_wf(*final(self)),
            frame_chain(sys_view(*final(self))),
            vblank_due(sys_view(*final(self))) == vblank_due(sys_view(*old(self))) + CYCLES_PER_FRAME,
            vblank_due(sys_view(*old(self))) <= final(self).scheduler@.current_cycle
                < vblank_due(sys_view(*old(self))) + 64,
            final(self).cpu.pipeline == old(self).cpu.pipeline,
            final(self).cartridge == old(self).cartridge,
            final(self).keyinput == old(self).keyinput,
            final(self).watches == old(self).watches,
    {
        self.ppu.frame_ready = false;
        let ghost s0 = sys_view(*self);
        assert(s0 =~= unready(sys_view(*old(self))));
        let ghost key = self.keyinput;
        let ghost t0 = vblank_due(s0);
        let ghost c0 = self.cpu.cycles;
        let ghost cur0 = self.scheduler@.current_cycle;
        let ghost mut n: nat = 0;
        while !self.ppu.frame_ready
            invariant
                gba_wf(*self),
                frame_chain(sys_view(*self)),
                sys_view(*self) == steps(s0, key, n),
                forall|k: nat| k < n ==> !(#[trigger] steps(s0, key, k)).ppu.frame_ready,
                !self.ppu.frame_ready ==> vblank_due(sys_view(*self)) == t0,
                self.ppu.frame_ready ==> vblank_due(sys_view(*self)) == t0 + CYCLES_PER_FRAME,
                self.ppu.frame_ready ==> t0 <= self.scheduler@.current_cycle < t0 + 64,
                t0 == vblank_due(s0),
                t0 + 8192 <= u64::MAX,
                c0 + 64 * (t0 - cur0) + 64 <= u64::MAX,
                cur0 <= self.scheduler@.current_cycle,
                self.cpu.cycles <= c0 + 64 * (self.scheduler@.current_cycle - cur0),
                self.keyinput == key,
                self.cpu.pipeline == old(self).cpu.pipeline,
                self.cartridge == old(self).cartridge,
                self.watches == old(self).watches,
                self.frame_count == old(self).frame_count,
            decreases
                if self.ppu.frame_ready {
                    0
                } else {
                    t0 - self.scheduler@.current_cycle
                },
        {
            proof {
                lemma_line_event_before_vblank(sys_view(*self));
            }
            self.step();
            proof {
                lemma_line_event_before_vblank(sys_view(*self));
                assert(steps(s0, key, n + 1) == step_view(steps(s0, key, n), key));
                n = n + 1;
            }
        }
        self.frame_count = self.frame_count + 1;
    }

    /// Step one CPU instruction + handle events
    pub fn step(&mut self)
        requires
            gba_wf(*old(self)),
            old(self).cpu.cycles <= u64::MAX - 64,
            old(self).scheduler@.current_cycle <= u64::MAX - 4096,
        ensures
            sys_view(*final(self)) == step_view(sys_view(*old(self)), old(self).keyinput),
            !has_pending(sys_view(*final(self))),
            gba_wf(*final(self)),
            same_outside(*final(self), *old(self)),
            old(self).scheduler@.current_cycle + 1 <= final(self).scheduler@.current_cycle
                <= old(self).scheduler@.current_cycle + 64,
            final(self).cpu.cycles <= old(self).cpu.cycles + 64,
            frame_chain(sys_view(*old(self))) && !old(self).ppu.frame_ready ==> {
                &&& frame_chain(sys_view(*final(self)))
                &&& !final(self).ppu.frame_ready ==> vblank_due(sys_view(*final(self)))
                    == vblank_due(sys_view(*old(self)))
                &&& final(self).ppu.frame_ready ==> {
                    &&& vblank_due(sys_view(*final(self))) == vblank_due(sys_view(*old(self)))
                        + CYCLES_PER_FRAME
                    &&& vblank_due(sys_view(*old(self))) <= final(self).scheduler@.current_cycle
                }
            },
    {
        let ghost s0 = sys_view(*self);
        // Update key input
        self.bus.keyinput = self.keyinput;
        // Check for IRQ
        if self.bus.has_pending_irq() && !self.cpu.regs.cpsr.irq_disabled() {
            self.cpu.trigger_irq();
        }
        // Execute one CPU instruction
        let cycles = self.cpu.step(&mut self.bus);
        // Advance scheduler
        self.scheduler.advance(cycles as u64);
        // Tick timers
        proof {
            lemma_tick_keeps_bounds(self.timers.timers@, self.bus@, cycles);
        }
        let _timer_overflow = self.timers.tick(cycles, &mut self.bus);
        let ghost mid = sys_view(*self);
        assert(mid =~= before_events(s0, old(self).keyinput));
        let ghost mut n: nat = 0;
        let ghost chain_ok = frame_chain(s0) && !s0.ppu.frame_ready;
        let ghost e0 = line_event(s0.sched.events);
        let ghost t0 = vblank_due(s0);
        let ghost c1 = mid.sched.current_cycle;
        // Process scheduled events
        loop
            invariant
                gba_wf(*self),
                sys_view(*self) == drain(mid, n),
                self.scheduler@.current_cycle == mid.sched.current_cycle,
                mid.sched.current_cycle <= u64::MAX - 2048,
                same_outside(*self, *old(self)),
                c1 == mid.sched.current_cycle,
                c1 <= s0.sched.current_cycle + 64,
                chain_ok ==> e0.timestamp > s0.sched.current_cycle,
                chain_ok ==> drain_keeps(sys_view(*self), e0, t0, c1),
                self.cpu.cycles == mid.cpu_cycles,
            ensures
                gba_wf(*self),
                sys_view(*self) == drain(mid, n),
                !has_pending(sys_view(*self)),
                same_outside(*self, *old(self)),
                self.scheduler@.current_cycle == mid.sched.current_cycle,
                chain_ok ==> drain_keeps(sys_view(*self), e0, t0, c1),
                self.cpu.cycles == mid.cpu_cycles,
            decreases backlog(self.scheduler@.events, self.scheduler@.current_cycle),
        {
            let ghost before = sys_view(*self);
            match self.scheduler.pop_pending() {
                Some(event) => {
                    proof {
                        lemma_backlog_remove_first(before.sched.events, before.sched.current_cycle);
                    }
                    self.handle_event(event);
                    proof {
                        n = n + 1;
                        lemma_handle_summary(before);
                        if chain_ok {
                            lemma_handle_keeps(before, sys_view(*self), e0, t0, c1);
                        }
                    }
                },
                None => {
                    break;
                },
            }
        }
        proof {
            reveal(step_view);
            let k = choose|k: nat| !has_pending(drain(mid, k));
            if k <= n {
                lemma_drain_settled(mid, k, n);
            } else {
                lemma_drain_settled(mid, n, k);
            }
            if chain_ok {
                let fin = sys_view(*self);
                let le = line_event(fin.sched.events);
                if le == e0 {
                    let ev = fin.sched.events;
                    assert(ev.contains(e0) && is_line_kind(e0.kind)) by {
                        assert(has_kind(ev, EventKind::HBlank) || has_kind(ev, EventKind::HBlankEnd));
                        let kk = if has_kind(ev, EventKind::HBlank) {
                            EventKind::HBlank
                        } else {
                            EventKind::HBlankEnd
                        };
                        let i = choose|i: int| 0 <= i < ev.len() && ev[i].kind == kk;
                        assert(ev.contains(ev[i]));
                    }
                    let i = choose|i: int| 0 <= i < ev.len() && ev[i] == e0;
                    assert(ev[0].timestamp <= ev[i].timestamp);
                }
            }
        }
    }
}

/// A freshly reset PPU.
pub open spec fn ppu_fresh(p: Ppu) -> bool {
    &&& p.vcount == 0
    &&& p.dot == 0
    &&& p.framebuffer@ == Seq::new(38_400, |i: int| 0u16)
    &&& p.priority_buffer@ == Seq::new(240, |i: int| 4u8)
    &&& !p.frame_ready
    &&& p.bg2_ref_x == 0 && p.bg2_ref_y == 0 && p.bg3_ref_x == 0 && p.bg3_ref_y == 0
}

/// Whether the keypad interrupt fires for KEYCNT `keycnt` and key state `keyinput`: KEYCNT
/// bit 14 enables it, bits 0-9 select keys, bit 15 asks for all of them (else any).
pub open spec fn keypad_irq_due(keycnt: u16, keyinput: u16) -> bool {
    let mask = keycnt & 0x03FF;
    let pressed = !keyinput & 0x03FF;
    &&& keycnt & 0x4000 != 0
    &&& if keycnt & 0x8000 != 0 {
        pressed & mask == mask
    } else {
        pressed & mask != 0
    }
}

impl Gba {
    pub fn new() -> (g: Self)
        ensures
            gba_wf(g),
            g.cpu.regs@ == regs_power_on(),
            !g.cpu.halted,
            g.cpu.cycles == 0,
            g.bus@ == bus_initial(),
            ppu_fresh(g.ppu),
            g.dma.channels@ == seq![dma_idle(), dma_idle(), dma_idle(), dma_idle()],
            g.timers.timers@ == seq![timer_idle(), timer_idle(), timer_idle(), timer_idle()],
            g.scheduler@.events == Seq::<Event>::empty(),
            g.scheduler@.current_cycle == 0,
            g.cartridge is None,
            g.keyinput == 0x03FF,
            g.watches@ == Seq::<MemoryWatch>::empty(),
            g.frame_count == 0,
    {
        let g = Self {
            cpu: Arm7Tdmi::new(),
            bus: Bus::new(),
            ppu: Ppu::new(),
            dma: DmaController::new(),
            timers: TimerController::new(),
            scheduler: Scheduler::new(),
            cartridge: None,
            keyinput: 0x03FF,
            watches: Vec::new(),
            frame_count: 0,
        };
        assert(total_count(g.dma.channels@) == 0) by {
            reveal_with_fuel(crate::dma::count_upto, 5);
        }
        g
    }

    /// Load a ROM and initialize
    pub fn load_rom(&mut self, rom_data: &[u8])
        requires
            rom_data@.len() >= 0xB0,
        ensures
            final(self).cartridge is Some,
            cartridge_of(final(self).cartridge.unwrap(), rom_data@),
            final(self).bus@ == (BusView {
                rom: rom_data@,
                sram: overwrite_prefix(old(self).bus@.sram, final(self).cartridge.unwrap().sram@),
                ..old(self).bus@
            }),
            final(self).cpu == old(self).cpu,
            final(self).ppu == old(self).ppu,
            final(self).dma == old(self).dma,
            final(self).timers == old(self).timers,
            final(self).scheduler == old(self).scheduler,
            final(self).keyinput == old(self).keyinput,
            final(self).watches == old(self).watches,
            final(self).frame_count == old(self).frame_count,
    {
        self.bus.load_rom(rom_data);
        let cart = Cartridge::from_rom(rom_data);
        // If we have a cartridge with SRAM, copy it to the bus
        if cart.sram.len() > 0 {
            copy_prefix(&mut self.bus.sram, cart.sram.as_slice());
        } else {
            assert(overwrite_prefix(self.bus@.sram, cart.sram@) =~= self.bus@.sram);
        }
        self.cartridge = Some(cart);
    }

    /// Load BIOS data
    pub fn load_bios(&mut self, bios_data: &[u8])
        requires
            old(self).bus@.wf(),
        ensures
            final(self).bus@ == (BusView {
                bios: Seq::new(
                    BIOS_SIZE as nat,
                    |i: int| if i < bios_data@.len() { bios_data@[i] } else { old(self).bus@.bios[i] },
                ),
                ..old(self).bus@
            }),
            final(self).cpu == old(self).cpu,
            final(self).ppu == old(self).ppu,
            final(self).cartridge == old(self).cartridge,
            final(self).scheduler == old(self).scheduler,
    {
        self.bus.load_bios(bios_data);
    }

    /// Reset and boot (skip BIOS)
    pub fn reset(&mut self)
        ensures
            final(self).cpu.regs@ == regs_direct_boot(),
            !final(self).cpu.halted,
            final(self).cpu.cycles == 0,
            ppu_fresh(final(self).ppu),
            final(self).scheduler@.events == seq![
                Event { kind: EventKind::HBlank, timestamp: HDRAW_CYCLES as u64 },
            ],
            final(self).scheduler@.current_cycle == 0,
            final(self).dma.channels@ == seq![dma_idle(), dma_idle(), dma_idle(), dma_idle()],
            final(self).timers.timers@ == seq![timer_idle(), timer_idle(), timer_idle(), timer_idle()],
            final(self).frame_count == 0,
            final(self).bus == old(self).bus,
            final(self).cartridge == old(self).cartridge,
            final(self).keyinput == old(self).keyinput,
            final(self).watches == old(self).watches,
            old(self).bus@.wf() ==> gba_wf(*final(self)),
            run_frame_ok(*final(self)),
    {
        self.cpu.reset_skip_bios();
        self.ppu = Ppu::new();
        self.scheduler = Scheduler::new();
        self.dma = DmaController::new();
        self.timers = TimerController::new();
        self.frame_count = 0;
        // Schedule first scanline events
        proof {
            lemma_schedule_empty(EventKind::HBlank, HDRAW_CYCLES as u64);
        }
        self.scheduler.schedule(EventKind::HBlank, HDRAW_CYCLES as u64);
        assert(total_count(self.dma.channels@) == 0) by {
            reveal_with_fuel(crate::dma::count_upto, 5);
        }
        proof {
            let ev = self.scheduler@.events;
            let e = Event { kind: EventKind::HBlank, timestamp: HDRAW_CYCLES as u64 };
            assert(ev[0] == e);
            assert(ev.contains(e));
            assert(has_kind(ev, EventKind::HBlank));
            assert(!has_kind(ev, EventKind::HBlankEnd));
            lemma_line_event_is(ev, e);
        }
    }

    // =========================================================================
    // Input
    // =========================================================================

    /// Press a button
    pub fn press_button(&mut self, button: GbaButton)
        ensures
            final(self).keyinput == old(self).keyinput & !button_bit(button),
            keypad_irq_due(old(self).bus@.io_read16(REG_KEYCNT), final(self).keyinput) ==> {
                &&& final(self).bus@ == old(self).bus@.request_interrupt(IRQ_KEYPAD)
                &&& !final(self).cpu.halted
            },
            !keypad_irq_due(old(self).bus@.io_read16(REG_KEYCNT), final(self).keyinput) ==> {
                &&& final(self).bus == old(self).bus
                &&& final(self).cpu.halted == old(self).cpu.halted
            },
            final(self).cpu.regs == old(self).cpu.regs,
            final(self).cpu.cycles == old(self).cpu.cycles,
    {
        self.keyinput = self.keyinput & !button.bit();
        // Check keypad interrupt
        self.check_keypad_irq();
    }

    /// Release a button
    pub fn release_button(&mut self, button: GbaButton)
        ensures
            final(self).keyinput == old(self).keyinput | button_bit(button),
            final(self).bus == old(self).bus,
            final(self).cpu == old(self).cpu,
    {
        self.keyinput = self.keyinput | button.bit();
    }

    /// Set all buttons at once (bitmask, active-low)
    pub fn set_keyinput(&mut self, value: u16)
        ensures
            final(self).keyinput == value & 0x03FF,
            final(self).bus == old(self).bus,
            final(self).cpu == old(self).cpu,
    {
        self.keyinput = value & 0x03FF;
    }

    fn check_keypad_irq(&mut self)
        ensures
            final(self).keyinput == old(self).keyinput,
            keypad_irq_due(old(self).bus@.io_read16(REG_KEYCNT), old(self).keyinput) ==> {
                &&& final(self).bus@ == old(self).bus@.request_interrupt(IRQ_KEYPAD)
                &&& !final(self).cpu.halted
            },
            !keypad_irq_due(old(self).bus@.io_read16(REG_KEYCNT), old(self).keyinput) ==> {
                &&& final(self).bus == old(self).bus
                &&& final(self).cpu.halted == old(self).cpu.halted
            },
            final(self).cpu.regs == old(self).cpu.regs,
            final(self).cpu.cycles == old(self).cpu.cycles,
    {
        let keycnt = self.bus.io_read16(REG_KEYCNT);
        let irq_enable = keycnt & 0x4000 != 0;
        if !irq_enable {
            return;
        }
        let mask = keycnt & 0x03FF;
        let pressed = !self.keyinput & 0x03FF;
        let irq_condition = keycnt & 0x8000 != 0;  // AND vs OR
        let trigger = if irq_condition {
            (pressed & mask) == mask  // all specified keys pressed

        } else {
            (pressed & mask) != 0  // any specified key pressed

        };
        if trigger {
            self.bus.request_interrupt(IRQ_KEYPAD);
            self.cpu.halted = false;
        }
    }
}

// =============================================================================
// Memory inspection & manipulation
// =============================================================================

/// The value of `w` bytes (1, 2 or 4) at `a`, as the bus reads them.
pub open spec fn read_width(bus: BusView, a: u32, w: int) -> u32 {
    if w == 1 {
        bus.read_byte(a) as u32
    } else if w == 2 {
        bus.read_halfword(a) as u32
    } else {
        bus.read_word(a)
    }
}

/// The addresses from `a` on, in steps of `w`, whose `w` bytes all lie at or before `end`
/// and that hold `value`, in increasing order; the scan stops at the top of the address
/// space.
pub open spec fn scan(bus: BusView, a: int, end: u32, w: int, value: u32) -> Seq<u32>
    decreases 0x1_0000_0000 - a,
{
    if w <= 0 || a < 0 || a > u32::MAX || a + (w - 1) > end {
        Seq::empty()
    } else {
        let rest = scan(bus, a + w, end, w, value);
        if read_width(bus, a as u32, w) == value {
            seq![a as u32] + rest
        } else {
            rest
        }
    }
}

/// A scan in steps of `w` from `a` would test an address whose last byte lies past the
/// top of the address space.
pub open spec fn scan_overflows(a: int, end: u32, w: int) -> bool
    decreases 0x1_0000_0000 - a,
{
    if w <= 0 || a < 0 || a > u32::MAX {
        false
    } else if a + (w - 1) > u32::MAX {
        true
    } else if a + (w - 1) > end {
        false
    } else {
        scan_overflows(a + w, end, w)
    }
}

/// Whether a search in steps of `width` bytes from `start` up to `end` would reach an
/// address whose last byte lies past the top of the address space.
pub fn scan_would_overflow(start: u32, end: u32, width: u32) -> (r: bool)
    requires
        1 <= width <= 4,
    ensures
        r == scan_overflows(start as int, end, width as int),
{
    let mut a: u64 = start as u64;
    loop
        invariant
            1 <= width <= 4,
            a <= 0x1_0000_0003,
            scan_overflows(a as int, end, width as int) == scan_overflows(
                start as int,
                end,
                width as int,
            ),
        decreases 0x1_0000_0004 - a,
    {
        if a > u32::MAX as u64 {
            return false;
        }
        if a + (width as u64 - 1) > u32::MAX as u64 {
            return true;
        }
        if a + (width as u64 - 1) > end as u64 {
            return false;
        }
        a = a + width as u64;
    }
}

/// One step of a scan: the address itself if it holds the value, then the rest.
proof fn lemma_scan_step(bus: BusView, a: int, end: u32, w: int, value: u32)
    requires
        0 < w,
        0 <= a <= u32::MAX,
        a + (w - 1) <= end,
    ensures
        scan(bus, a, end, w, value) == (if read_width(bus, a as u32, w) == value {
            seq![a as u32]
        } else {
            Seq::empty()
        }) + scan(bus, a + w, end, w, value),
{
    let rest = scan(bus, a + w, end, w, value);
    if read_width(bus, a as u32, w) != value {
        assert(Seq::<u32>::empty() + rest =~= rest);
    }
}

/// The value at `address` read at `width`.
pub open spec fn width_value(bus: BusView, address: u32, width: AccessWidth) -> u32 {
    match width {
        AccessWidth::Byte => bus.read_byte(address) as u32,
        AccessWidth::Halfword => bus.read_halfword(address) as u32,
        AccessWidth::Word => bus.read_word(address),
    }
}

/// The value a watch shows now.
pub open spec fn watch_value(bus: BusView, w: MemoryWatch) -> u32 {
    width_value(bus, w.address, w.width)
}

/// The changes that updating watches 0..n reports: index, old and new value of each watch
/// whose value moved.
pub open spec fn watch_changes(bus: BusView, ws: Seq<MemoryWatch>, n: int) -> Seq<(usize, u32, u32)>
    decreases n,
{
    if n <= 0 {
        Seq::empty()
    } else {
        let prev = watch_changes(bus, ws, n - 1);
        let w = ws[n - 1];
        let v = watch_value(bus, w);
        if v != w.last_value {
            prev.push(((n - 1) as usize, w.last_value, v))
        } else {
            prev
        }
    }
}

impl Gba {
    /// Read a byte from any address (no side effects)
    pub fn peek(&self, address: u32) -> (r: u8)
        requires
            self.bus@.wf(),
        ensures
            r == self.bus@.read_byte(address),
    {
        self.bus.peek_byte(address)
    }

    /// Read a 16-bit value
    pub fn peek16(&self, address: u32) -> (r: u16)
        requires
            self.bus@.wf(),
        ensures
            r == self.bus@.read_halfword(address),
    {
        self.bus.read_halfword(address)
    }

    /// Read a 32-bit value
    pub fn peek32(&self, address: u32) -> (r: u32)
        requires
            self.bus@.wf(),
        ensures
            r == self.bus@.read_word(address),
    {
        self.bus.read_word(address)
    }

    /// Write a byte to any writable address (bypasses I/O side effects)
    pub fn poke(&mut self, address: u32, value: u8)
        requires
            old(self).bus@.wf(),
        ensures
            final(self).bus@ == old(self).bus@.poke_byte(address, value),
            final(self).bus@.wf(),
            final(self).cpu == old(self).cpu,
            final(self).cartridge == old(self).cartridge,
            final(self).watches == old(self).watches,
    {
        self.bus.poke_byte(address, value);
        proof {
            lemma_write_byte_wf(old(self).bus@, address, value);
        }
    }

    /// Write a 16-bit value
    pub fn poke16(&mut self, address: u32, value: u16)
        requires
            old(self).bus@.wf(),
            address < u32::MAX,
        ensures
            final(self).bus@ == old(self).bus@.poke_byte(address, value as u8).poke_byte(
                (address + 1) as u32,
                (value >> 8) as u8,
            ),
            final(self).bus@.wf(),
            final(self).cpu == old(self).cpu,
            final(self).cartridge == old(self).cartridge,
            final(self).watches == old(self).watches,
    {
        self.poke(address, value as u8);
        self.poke(address + 1, (value >> 8) as u8);
    }

    /// Write a 32-bit value
    pub fn poke32(&mut self, address: u32, value: u32)
        requires
            old(self).bus@.wf(),
            address < u32::MAX - 2,
        ensures
            final(self).bus@ == old(self).bus@.poke_byte(address, (value as u16) as u8).poke_byte(
                (address + 1) as u32,
                ((value as u16) >> 8) as u8,
            ).poke_byte((address + 2) as u32, ((value >> 16) as u16) as u8).poke_byte(
                (address + 3) as u32,
                (((value >> 16) as u16) >> 8) as u8,
            ),
            final(self).bus@.wf(),
            final(self).cpu == old(self).cpu,
            final(self).cartridge == old(self).cartridge,
            final(self).watches == old(self).watches,
    {
        self.poke16(address, value as u16);
        self.poke16(address + 2, (value >> 16) as u16);
    }

    /// Search memory region for a value
    pub fn search_memory(&self, start: u32, end: u32, value: u8) -> (results: Vec<u32>)
        requires
            self.bus@.wf(),
        ensures
            results@ == scan(self.bus@, start as int, end, 1, value as u32),
    {
        let mut results: Vec<u32> = Vec::new();
        let mut addr = start;
        loop
            invariant_except_break
                results@ + scan(self.bus@, addr as int, end, 1, value as u32) == scan(
                    self.bus@,
                    start as int,
                    end,
                    1,
                    value as u32,
                ),
            invariant
                self.bus@.wf(),
            ensures
                results@ == scan(self.bus@, start as int, end, 1, value as u32),
            decreases 0x1_0000_0000 - addr,
        {
            if addr > end {
                assert(results@ + Seq::<u32>::empty() =~= results@);
                break;
            }
            let ghost before = results@;
            proof {
                lemma_scan_step(self.bus@, addr as int, end, 1, value as u32);
            }
            if self.peek(addr) == value {
                results.push(addr);
            }
            assert(results@ + scan(self.bus@, addr + 1, end, 1, value as u32) =~= before + scan(
                self.bus@,
                addr as int,
                end,
                1,
                value as u32,
            ));
            if addr == u32::MAX {
                assert(results@ + Seq::<u32>::empty() =~= results@);
                break;
            }
            addr = addr + 1;
        }
        results
    }

    /// Search memory for a 16-bit value
    pub fn search_memory16(&self, start: u32, end: u32, value: u16) -> (results: Vec<u32>)
        requires
            self.bus@.wf(),
            !scan_overflows(start as int, end, 2),
        ensures
            results@ == scan(self.bus@, start as int, end, 2, value as u32),
    {
        let mut results: Vec<u32> = Vec::new();
        let mut addr = start;
        loop
            invariant_except_break
                results@ + scan(self.bus@, addr as int, end, 2, value as u32) == scan(
                    self.bus@,
                    start as int,
                    end,
                    2,
                    value as u32,
                ),
            invariant
                self.bus@.wf(),
                !scan_overflows(addr as int, end, 2),
            ensures
                results@ == scan(self.bus@, start as int, end, 2, value as u32),
            decreases 0x1_0000_0000 - addr,
        {
            if !(addr + 1 <= end) {
                assert(results@ + Seq::<u32>::empty() =~= results@);
                break;
            }
            let ghost before = results@;
            proof {
                lemma_scan_step(self.bus@, addr as int, end, 2, value as u32);
            }
            if self.peek16(addr) == value {
                results.push(addr);
            }
            assert(results@ + scan(self.bus@, addr + 2, end, 2, value as u32) =~= before + scan(
                self.bus@,
                addr as int,
                end,
                2,
                value as u32,
            ));
            if addr >= u32::MAX - 1 {
                // The next address is past the top of the address space
                assert(results@ + Seq::<u32>::empty() =~= results@);
                break;
            }
            addr = addr + 2;
        }
        results
    }

    /// Search memory for a 32-bit value
    pub fn search_memory32(&self, start: u32, end: u32, value: u32) -> (results: Vec<u32>)
        requires
            self.bus@.wf(),
            !scan_overflows(start as int, end, 4),
        ensures
            results@ == scan(self.bus@, start as int, end, 4, value),
    {
        let mut results: Vec<u32> = Vec::new();
        let mut addr = start;
        loop
            invariant_except_break
                results@ + scan(self.bus@, addr as int, end, 4, value) == scan(
                    self.bus@,
                    start as int,
                    end,
                    4,
                    value,
                ),
            invariant
                self.bus@.wf(),
                !scan_overflows(addr as int, end, 4),
            ensures
                results@ == scan(self.bus@, start as int, end, 4, value),
            decreases 0x1_0000_0000 - addr,
        {
            if !(addr + 3 <= end) {
                assert(results@ + Seq::<u32>::empty() =~= results@);
                break;
            }
            let ghost before = results@;
            proof {
                lemma_scan_step(self.bus@, addr as int, end, 4, value);
            }
            if self.peek32(addr) == value {
                results.push(addr);
            }
            assert(results@ + scan(self.bus@, addr + 4, end, 4, value) =~= before + scan(
                self.bus@,
                addr as int,
                end,
                4,
                value,
            ));
            if addr >= u32::MAX - 3 {
                // The next address is past the top of the address space
                assert(results@ + Seq::<u32>::empty() =~= results@);
                break;
            }
            addr = addr + 4;
        }
        results
    }
}

impl Gba {
    /// The current value of a watch's address at its width
    fn watch_read(&self, address: u32, width: AccessWidth) -> (v: u32)
        requires
            self.bus@.wf(),
        ensures
            v == width_value(self.bus@, address, width),
    {
        match width {
            AccessWidth::Byte => self.peek(address) as u32,
            AccessWidth::Halfword => self.peek16(address) as u32,
            AccessWidth::Word => self.peek32(address),
        }
    }

    /// Add a memory watch
    pub fn add_watch(&mut self, address: u32, label: String, width: AccessWidth) -> (idx: usize)
        requires
            old(self).bus@.wf(),
            old(self).watches@.len() < usize::MAX,
        ensures
            final(self).watches@ == old(self).watches@.push(
                MemoryWatch {
                    address,
                    label,
                    width,
                    last_value: width_value(old(self).bus@, address, width),
                },
            ),
            idx == old(self).watches@.len(),
            final(self).bus == old(self).bus,
            final(self).cpu == old(self).cpu,
    {
        let value = self.watch_read(address, width);
        let watch = MemoryWatch { address, label, width, last_value: value };
        self.watches.push(watch);
        self.watches.len() - 1
    }

    /// Update all watches and return changed ones
    pub fn update_watches(&mut self) -> (changes: Vec<(usize, u32, u32)>)
        requires
            old(self).bus@.wf(),
        ensures
            changes@ == watch_changes(old(self).bus@, old(self).watches@, old(self).watches@.len() as int),
            final(self).watches@.len() == old(self).watches@.len(),
            forall|i: int|
                0 <= i < old(self).watches@.len() ==> #[trigger] final(self).watches@[i] == (MemoryWatch {
                    last_value: watch_value(old(self).bus@, old(self).watches@[i]),
                    ..old(self).watches@[i]
                }),
            final(self).bus == old(self).bus,
            final(self).cpu == old(self).cpu,
    {
        let ghost ws = self.watches@;
        let mut rest: Vec<MemoryWatch> = Vec::new();
        std::mem::swap(&mut rest, &mut self.watches);
        let mut updated: Vec<MemoryWatch> = Vec::new();
        let mut changes: Vec<(usize, u32, u32)> = Vec::new();
        let n = rest.len();
        let mut i: usize = 0;
        while i < n
            invariant
                self.bus@.wf(),
                self.bus == old(self).bus,
                self.cpu == old(self).cpu,
                ws == old(self).watches@,
                n == ws.len(),
                i <= n,
                rest@ == ws.subrange(i as int, n as int),
                updated@.len() == i,
                forall|j: int|
                    0 <= j < i ==> #[trigger] updated@[j] == (MemoryWatch {
                        last_value: watch_value(self.bus@, ws[j]),
                        ..ws[j]
                    }),
                changes@ == watch_changes(self.bus@, ws, i as int),
            decreases n - i,
        {
            let mut watch = rest.remove(0);
            assert(watch == ws[i as int]);
            let new_value = self.watch_read(watch.address, watch.width);
            assert(new_value == watch_value(self.bus@, ws[i as int]));
            if new_value != watch.last_value {
                changes.push((i, watch.last_value, new_value));
            }
            watch.last_value = new_value;
            updated.push(watch);
            assert(rest@ =~= ws.subrange(i + 1, n as int));
            i = i + 1;
        }
        self.watches = updated;
        changes
    }

    /// Remove a memory watch
    pub fn remove_watch(&mut self, index: usize)
        ensures
            index < old(self).watches@.len() ==> final(self).watches@ == old(self).watches@.remove(
                index as int,
            ),
            index >= old(self).watches@.len() ==> final(self).watches == old(self).watches,
            final(self).bus == old(self).bus,
            final(self).cpu == old(self).cpu,
    {
        if index < self.watches.len() {
            self.watches.remove(index);
        }
    }

    /// Dump a memory region as bytes
    pub fn dump_memory(&self, start: u32, length: u32) -> (data: Vec<u8>)
        requires
            self.bus@.wf(),
        ensures
            data@ == Seq::new(length as nat, |i: int| self.bus@.read_byte(start.wrapping_add(i as u32))),
    {
        let mut data: Vec<u8> = Vec::with_capacity(length as usize);
        let mut i: u32 = 0;
        while i < length
            invariant
                self.bus@.wf(),
                i <= length,
                data@ == Seq::new(i as nat, |k: int| self.bus@.read_byte(start.wrapping_add(k as u32))),
            decreases length - i,
        {
            let b = self.peek(start.wrapping_add(i));
            data.push(b);
            assert(data@ =~= Seq::new(
                (i + 1) as nat,
                |k: int| self.bus@.read_byte(start.wrapping_add(k as u32)),
            ));
            i = i + 1;
        }
        data
    }

    /// Get save data from cartridge
    pub fn get_save_data(&self) -> (v: Vec<u8>)
        ensures
            v@ == match self.cartridge {
                Some(c) => save_data_spec(c),
                None => Seq::empty(),
            },
    {
        match &self.cartridge {
            Some(c) => c.get_save_data(),
            None => Vec::new(),
        }
    }

    /// Load save data to cartridge
    pub fn load_save_data(&mut self, data: &[u8])
        ensures
            match old(self).cartridge {
                Some(c) => final(self).cartridge is Some && after_load(c, final(self).cartridge.unwrap(), data@),
                None => final(self).cartridge is None,
            },
            final(self).bus == old(self).bus,
            final(self).cpu == old(self).cpu,
    {
        if let Some(cart) = &mut self.cartridge {
            cart.load_save_data(data);
        }
    }
}

impl Default for Gba {
    fn default() -> (g: Self)
        ensures
            gba_wf(g),
            g.keyinput == 0x03FF,
            g.frame_count == 0,
            g.cartridge is None,
    {
        Self::new()
    }
}

// =============================================================================
// Laws
// =============================================================================

/// A byte poked into EWRAM, IWRAM, palette RAM, VRAM, OAM or SRAM is what a peek of the
/// same address reads back.
pub proof fn lemma_poke_then_peek(v: BusView, a: u32, x: u8)
    requires
        v.wf(),
        region(a) == 0x02 || region(a) == 0x03 || region(a) == 0x05 || region(a) == 0x06
            || region(a) == 0x07 || region(a) == 0x0E || region(a) == 0x0F,
    ensures
        v.poke_byte(a, x).read_byte(a) == x,
{
}

/// A halfword poked at an EWRAM address whose next byte is also in EWRAM is what a 16-bit
/// peek reads back.
pub proof fn lemma_poke16_then_peek16(v: BusView, a: u32, x: u16)
    requires
        v.wf(),
        a < u32::MAX,
        region(a) == 0x02,
        region((a + 1) as u32) == 0x02,
    ensures
        v.poke_byte(a, x as u8).poke_byte((a + 1) as u32, (x >> 8) as u8).read_halfword(a) == x,
{
    let v1 = v.poke_byte(a, x as u8);
    lemma_write_byte_wf(v, a, x as u8);
    let v2 = v1.poke_byte((a + 1) as u32, (x >> 8) as u8);
    assert(a.wrapping_add(1) == (a + 1) as u32);
    assert((a as int) % 0x40000 != ((a + 1) as int) % 0x40000);
    assert(v2.read_byte(a) == x as u8);
    assert(v2.read_byte(a.wrapping_add(1)) == (x >> 8) as u8);
    lemma_half_bytes(x);
}

/// Pressing a button clears its KEYINPUT bit (active low); releasing it sets the bit again.
pub proof fn lemma_press_release(keyinput: u16, b: GbaButton)
    ensures
        (keyinput & !button_bit(b)) & button_bit(b) == 0,
        ((keyinput & !button_bit(b)) | button_bit(b)) & button_bit(b) == button_bit(b),
{
    lemma_half_flags();
}

} // verus!
