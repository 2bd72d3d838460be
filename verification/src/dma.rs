use vstd::prelude::*;

use crate::bus::{lemma_write_wide_wf, Bus, BusAccess, BusView};
use crate::constants::{IRQ_DMA0, IRQ_DMA1, IRQ_DMA2, IRQ_DMA3, REG_DMA0SAD};

verus! {

// =============================================================================
// DMA model
// =============================================================================

/// DMA timing modes
#[derive(Debug, Clone, Copy, PartialEq, Eq, Structural)]
pub enum DmaTiming {
    Immediate,
    VBlank,
    HBlank,
    /// DMA1/2: Sound FIFO, DMA3: Video Capture
    Special,
}

/// The start-timing field value (bits 12-13 of DMAxCNT_H) of a timing mode.
pub open spec fn timing_bits(t: DmaTiming) -> u16 {
    match t {
        DmaTiming::Immediate => 0,
        DmaTiming::VBlank => 1,
        DmaTiming::HBlank => 2,
        DmaTiming::Special => 3,
    }
}

impl DmaTiming {
    /// The start-timing field value of this mode
    pub fn bits(self) -> (r: u16)
        ensures
            r == timing_bits(self),
    {
        match self {
            DmaTiming::Immediate => 0,
            DmaTiming::VBlank => 1,
            DmaTiming::HBlank => 2,
            DmaTiming::Special => 3,
        }
    }
}

/// DMA address control
#[derive(Debug, Clone, Copy, PartialEq, Eq, Structural)]
pub enum DmaAddrCtrl {
    Increment,
    Decrement,
    Fixed,
    /// Increment + reload after transfer
    IncrReload,
}

/// The address control that the two low bits of `bits` select.
pub open spec fn addr_ctrl_of(bits: u16) -> DmaAddrCtrl {
    let b = bits & 3;
    if b == 0 {
        DmaAddrCtrl::Increment
    } else if b == 1 {
        DmaAddrCtrl::Decrement
    } else if b == 2 {
        DmaAddrCtrl::Fixed
    } else {
        DmaAddrCtrl::IncrReload
    }
}

impl DmaAddrCtrl {
    fn from_bits(bits: u16) -> (r: Self)
        ensures
            r == addr_ctrl_of(bits),
    {
        let b = bits & 3;
        if b == 0 {
            DmaAddrCtrl::Increment
        } else if b == 1 {
            DmaAddrCtrl::Decrement
        } else if b == 2 {
            DmaAddrCtrl::Fixed
        } else {
            DmaAddrCtrl::IncrReload
        }
    }
}

/// State for a single DMA channel
#[derive(Debug, Clone, Copy, PartialEq, Eq, Structural)]
pub struct DmaChannel {
    pub source: u32,
    pub dest: u32,
    pub count: u32,
    /// Internal source address (latched on enable)
    pub internal_source: u32,
    /// Internal destination address (latched on enable)
    pub internal_dest: u32,
    /// Internal count (latched on enable)
    pub internal_count: u32,
    pub enabled: bool,
}

/// A disabled channel with every register zero.
pub open spec fn dma_idle() -> DmaChannel {
    DmaChannel {
        source: 0,
        dest: 0,
        count: 0,
        internal_source: 0,
        internal_dest: 0,
        internal_count: 0,
        enabled: false,
    }
}

impl Default for DmaChannel {
    fn default() -> (c: Self)
        ensures
            c == dma_idle(),
    {
        Self {
            source: 0,
            dest: 0,
            count: 0,
            internal_source: 0,
            internal_dest: 0,
            internal_count: 0,
            enabled: false,
        }
    }
}

/// I/O offset of the register block (SAD, DAD, CNT_L, CNT_H) of channel `ch`.
pub open spec fn dma_base(ch: int) -> int {
    REG_DMA0SAD + 12 * ch
}

/// The little-endian word stored at I/O offset `off`.
pub open spec fn io_word(bus: BusView, off: int) -> u32 {
    (bus.io_half(off) as u32) | ((bus.io_half(off + 2) as u32) << 16)
}

/// Channel `ch` after its registers were read: source, destination and count are copied;
/// a channel that becomes enabled latches them, a zero count meaning the maximum
/// (0x10000 words for DMA3, 0x4000 for the others).
pub open spec fn channel_from_io(c: DmaChannel, ch: int, bus: BusView) -> DmaChannel {
    let base = dma_base(ch);
    let source = io_word(bus, base);
    let dest = io_word(bus, base + 4);
    let count = bus.io_half(base + 8) as u32;
    let enabled = bus.io_half(base + 10) & 0x8000 != 0;
    let c1 = DmaChannel { source, dest, count, ..c };
    let c2 = if enabled && !c.enabled {
        DmaChannel {
            internal_source: source,
            internal_dest: dest,
            internal_count: if count == 0 {
                if ch == 3 {
                    0x10000u32
                } else {
                    0x4000u32
                }
            } else {
                count
            },
            ..c1
        }
    } else {
        c1
    };
    DmaChannel { enabled, ..c2 }
}

/// All four channels after `update_from_io`.
pub open spec fn channels_from_io(chs: Seq<DmaChannel>, bus: BusView) -> Seq<DmaChannel> {
    Seq::new(4, |ch: int| channel_from_io(chs[ch], ch, bus))
}

/// The interrupt flag of channel `ch`.
pub open spec fn dma_irq(ch: int) -> u16 {
    if ch == 0 {
        IRQ_DMA0
    } else if ch == 1 {
        IRQ_DMA1
    } else if ch == 2 {
        IRQ_DMA2
    } else if ch == 3 {
        IRQ_DMA3
    } else {
        0
    }
}

/// An address after one unit under its address control.
pub open spec fn addr_step(a: u32, ctrl: DmaAddrCtrl, step: u32) -> u32 {
    match ctrl {
        DmaAddrCtrl::Increment | DmaAddrCtrl::IncrReload => a.wrapping_add(step),
        DmaAddrCtrl::Decrement => a.wrapping_sub(step),
        DmaAddrCtrl::Fixed => a,
    }
}

/// Bus and addresses while a transfer runs.
#[verifier::ext_equal]
pub struct DmaXfer {
    pub bus: BusView,
    pub src: u32,
    pub dst: u32,
}

/// One unit of a transfer: a word (aligned down to 4) or a halfword (aligned down to 2)
/// is copied, then both addresses move.
pub open spec fn transfer_unit(st: DmaXfer, word: bool, sc: DmaAddrCtrl, dc: DmaAddrCtrl) -> DmaXfer {
    let step: u32 = if word {
        4
    } else {
        2
    };
    let bus = if word {
        st.bus.write_word(st.dst & !3u32, st.bus.read_word(st.src & !3u32))
    } else {
        st.bus.write_halfword(st.dst & !1u32, st.bus.read_halfword(st.src & !1u32))
    };
    DmaXfer { bus, src: addr_step(st.src, sc, step), dst: addr_step(st.dst, dc, step) }
}

/// `n` units of a transfer.
pub open spec fn transfer(st: DmaXfer, n: nat, word: bool, sc: DmaAddrCtrl, dc: DmaAddrCtrl) -> DmaXfer
    decreases n,
{
    if n == 0 {
        st
    } else {
        transfer_unit(transfer(st, (n - 1) as nat, word, sc, dc), word, sc, dc)
    }
}

/// Channels, bus and cycles spent while DMA runs.
#[verifier::ext_equal]
pub struct DmaRun {
    pub channels: Seq<DmaChannel>,
    pub bus: BusView,
    pub cycles: u32,
}

/// What `execute_channel` does: a disabled channel does nothing. An enabled one copies
/// its latched count of units (words if bit 10 of CNT_H is set, else halfwords) with the
/// address controls of bits 7-8 (source) and 5-6 (destination), taking 2 cycles a unit;
/// it keeps the final addresses (the destination reloads for increment+reload); without
/// repeat (bit 9) it disables itself and clears the enable bit of CNT_H; with bit 14 it
/// raises its interrupt.
pub open spec fn execute_channel_spec(st: DmaRun, ch: int) -> DmaRun {
    let c = st.channels[ch];
    if !c.enabled {
        DmaRun { cycles: 0, ..st }
    } else {
        let cnt_h = dma_base(ch) + 10;
        let control = st.bus.io_half(cnt_h);
        let word = control & 0x400 != 0;
        let sc = addr_ctrl_of(control >> 7);
        let dc = addr_ctrl_of(control >> 5);
        let x = transfer(
            DmaXfer { bus: st.bus, src: c.internal_source, dst: c.internal_dest },
            c.internal_count as nat,
            word,
            sc,
            dc,
        );
        let c1 = DmaChannel {
            internal_source: x.src,
            internal_dest: if dc == DmaAddrCtrl::IncrReload {
                c.dest
            } else {
                x.dst
            },
            ..c
        };
        let repeat = control & 0x200 != 0;
        let c2 = if repeat {
            c1
        } else {
            DmaChannel { enabled: false, ..c1 }
        };
        let bus2 = if repeat {
            x.bus
        } else {
            x.bus.with_io_half(cnt_h, x.bus.io_half(cnt_h) & 0x7FFF)
        };
        let bus3 = if control & 0x4000 != 0 {
            bus2.request_interrupt(dma_irq(ch))
        } else {
            bus2
        };
        DmaRun { channels: st.channels.update(ch, c2), bus: bus3, cycles: (2 * c.internal_count) as u32 }
    }
}

/// Channel `ch` checked against `timing`: if it is enabled and its start timing (bits
/// 12-13 of CNT_H, read when its turn comes) matches, it runs and its cycles add up.
pub open spec fn check_one(prev: DmaRun, ch: int, timing: DmaTiming) -> DmaRun {
    if prev.channels[ch].enabled && (prev.bus.io_half(dma_base(ch) + 10) >> 12) & 3
        == timing_bits(timing) {
        let r = execute_channel_spec(prev, ch);
        DmaRun { cycles: (prev.cycles + r.cycles) as u32, ..r }
    } else {
        prev
    }
}

/// Channels 0..n checked against `timing`, in order.
pub open spec fn check_upto(st: DmaRun, n: int, timing: DmaTiming) -> DmaRun
    decreases n,
{
    if n <= 0 {
        st
    } else {
        check_one(check_upto(st, n - 1, timing), n - 1, timing)
    }
}

/// The sum of the latched counts of channels 0..n.
pub open spec fn count_upto(chs: Seq<DmaChannel>, n: int) -> int
    decreases n,
{
    if n <= 0 {
        0
    } else {
        count_upto(chs, n - 1) + chs[n - 1].internal_count
    }
}

/// The sum of the latched counts of the four channels.
pub open spec fn total_count(chs: Seq<DmaChannel>) -> int {
    count_upto(chs, 4)
}

/// Channels with the same latched counts have the same total.
pub proof fn lemma_total_count_same(a: Seq<DmaChannel>, b: Seq<DmaChannel>)
    requires
        forall|j: int| 0 <= j < 4 ==> (#[trigger] a[j]).internal_count == b[j].internal_count,
    ensures
        total_count(a) == total_count(b),
{
    reveal_with_fuel(count_upto, 5);
    assert(a[0].internal_count == b[0].internal_count);
    assert(a[1].internal_count == b[1].internal_count);
    assert(a[2].internal_count == b[2].internal_count);
    assert(a[3].internal_count == b[3].internal_count);
}

/// Where an address stands after `n` units of `step` bytes under its address control:
/// moved up (increment, increment+reload) or down (decrement) by `n * step` modulo 2^32,
/// or left (fixed).
pub open spec fn address_after(a: u32, ctrl: DmaAddrCtrl, n: int, step: int) -> int {
    match ctrl {
        DmaAddrCtrl::Increment | DmaAddrCtrl::IncrReload => (a + n * step) % 0x1_0000_0000,
        DmaAddrCtrl::Decrement => (a - n * step) % 0x1_0000_0000,
        DmaAddrCtrl::Fixed => a as int,
    }
}

/// After `n` units both addresses of a transfer have moved by `n` steps of 4 bytes (words)
/// or 2 bytes (halfwords) as their controls say.
pub proof fn lemma_transfer_addresses(st: DmaXfer, n: nat, word: bool, sc: DmaAddrCtrl, dc: DmaAddrCtrl)
    ensures
        ({
            let step: int = if word {
                4
            } else {
                2
            };
            let x = transfer(st, n, word, sc, dc);
            &&& x.src as int == address_after(st.src, sc, n as int, step)
            &&& x.dst as int == address_after(st.dst, dc, n as int, step)
        }),
    decreases n,
{
    let step: int = if word {
        4
    } else {
        2
    };
    if n == 0 {
        assert(st.src as int % 0x1_0000_0000 == st.src as int);
        assert(st.dst as int % 0x1_0000_0000 == st.dst as int);
    } else {
        let m = (n - 1) as nat;
        lemma_transfer_addresses(st, m, word, sc, dc);
        let p = transfer(st, m, word, sc, dc);
        lemma_address_step(st.src, sc, m as int, step, p.src);
        lemma_address_step(st.dst, dc, m as int, step, p.dst);
    }
}

/// One more step of an address under its control.
proof fn lemma_address_step(a: u32, ctrl: DmaAddrCtrl, m: int, step: int, b: u32)
    requires
        m >= 0,
        step == 2 || step == 4,
        b as int == address_after(a, ctrl, m, step),
    ensures
        addr_step(b, ctrl, step as u32) as int == address_after(a, ctrl, m + 1, step),
{
    let md: int = 0x1_0000_0000;
    match ctrl {
        DmaAddrCtrl::Increment | DmaAddrCtrl::IncrReload => {
            vstd::arithmetic::div_mod::lemma_add_mod_noop(a + m * step, step, md);
            vstd::arithmetic::div_mod::lemma_small_mod(step as nat, md as nat);
            assert((a + m * step) + step == a + (m + 1) * step) by (nonlinear_arith);
        },
        DmaAddrCtrl::Decrement => {
            vstd::arithmetic::div_mod::lemma_sub_mod_noop(a - m * step, step, md);
            vstd::arithmetic::div_mod::lemma_small_mod(step as nat, md as nat);
            assert((a - m * step) - step == a - (m + 1) * step) by (nonlinear_arith);
        },
        DmaAddrCtrl::Fixed => {},
    }
}

/// Running an enabled channel moves its internal source by its count of units under the
/// source control (CNT_H bits 7-8) and its internal destination under the destination
/// control (bits 5-6), except that increment+reload (3) puts the destination back to the
/// DAD register; units are 4 bytes for word transfers (bit 10) and 2 otherwise. The
/// channel stays enabled exactly when it repeats (bit 9).
#[verifier::rlimit(40)]
pub proof fn lemma_dma_channel_run(st: DmaRun, ch: int)
    requires
        0 <= ch < 4,
        st.channels.len() == 4,
        st.channels[ch].enabled,
    ensures
        ({
            let c = st.channels[ch];
            let control = st.bus.io_half(dma_base(ch) + 10);
            let step: int = if control & 0x400 != 0 {
                4
            } else {
                2
            };
            let n = c.internal_count as int;
            let md: int = 0x1_0000_0000;
            let res = execute_channel_spec(st, ch);
            let r = res.channels[ch];
            &&& (control >> 5) & 3 == 3 ==> r.internal_dest == c.dest
            &&& (control >> 5) & 3 == 0 ==> r.internal_dest as int == (c.internal_dest + n * step) % md
            &&& (control >> 5) & 3 == 1 ==> r.internal_dest as int == (c.internal_dest - n * step) % md
            &&& (control >> 5) & 3 == 2 ==> r.internal_dest == c.internal_dest
            &&& ((control >> 7) & 3 == 0 || (control >> 7) & 3 == 3) ==> r.internal_source as int == (
            c.internal_source + n * step) % md
            &&& (control >> 7) & 3 == 1 ==> r.internal_source as int == (c.internal_source - n * step)
                % md
            &&& (control >> 7) & 3 == 2 ==> r.internal_source == c.internal_source
            &&& r.enabled == (control & 0x200 != 0)
        }),
{
    let c = st.channels[ch];
    let control = st.bus.io_half(dma_base(ch) + 10);
    let word = control & 0x400 != 0;
    let sc = addr_ctrl_of(control >> 7);
    let dc = addr_ctrl_of(control >> 5);
    lemma_transfer_addresses(
        DmaXfer { bus: st.bus, src: c.internal_source, dst: c.internal_dest },
        c.internal_count as nat,
        word,
        sc,
        dc,
    );
}

/// A transfer keeps the bus well formed.
pub proof fn lemma_transfer_wf(st: DmaXfer, n: nat, word: bool, sc: DmaAddrCtrl, dc: DmaAddrCtrl)
    requires
        st.bus.wf(),
    ensures
        transfer(st, n, word, sc, dc).bus.wf(),
    decreases n,
{
    if n > 0 {
        lemma_transfer_wf(st, (n - 1) as nat, word, sc, dc);
        let p = transfer(st, (n - 1) as nat, word, sc, dc);
        let v = p.bus.read_halfword(p.src & !1u32);
        lemma_write_wide_wf(p.bus, p.dst & !1u32, v as u32);
        lemma_write_wide_wf(p.bus, p.dst & !3u32, p.bus.read_word(p.src & !3u32));
        assert((v as u32) as u16 == v);
    }
}

/// Running channels keeps their latched counts and the bus well formed.
pub proof fn lemma_check_keeps(st: DmaRun, n: int, timing: DmaTiming)
    requires
        st.channels.len() == 4,
        st.bus.wf(),
        0 <= n <= 4,
    ensures
        check_upto(st, n, timing).channels.len() == 4,
        check_upto(st, n, timing).bus.wf(),
        forall|j: int|
            0 <= j < 4 ==> (#[trigger] check_upto(st, n, timing).channels[j]).internal_count
                == st.channels[j].internal_count,
    decreases n,
{
    if n > 0 {
        lemma_check_keeps(st, n - 1, timing);
        let prev = check_upto(st, n - 1, timing);
        let c = prev.channels[n - 1];
        let control = prev.bus.io_half(dma_base(n - 1) + 10);
        lemma_transfer_wf(
            DmaXfer { bus: prev.bus, src: c.internal_source, dst: c.internal_dest },
            c.internal_count as nat,
            control & 0x400 != 0,
            addr_ctrl_of(control >> 7),
            addr_ctrl_of(control >> 5),
        );
    }
}

/// Partial sums of the latched counts grow with the number of channels.
proof fn lemma_count_upto_mono(chs: Seq<DmaChannel>, a: int, b: int)
    requires
        0 <= a <= b,
    ensures
        count_upto(chs, a) <= count_upto(chs, b),
    decreases b - a,
{
    if a < b {
        lemma_count_upto_mono(chs, a, b - 1);
    }
}

/// DMA controller with 4 channels
#[derive(Debug, Clone)]
pub struct DmaController {
    pub channels: [DmaChannel; 4],
}

impl DmaController {
    pub fn new() -> (d: Self)
        ensures
            d.channels@ == seq![dma_idle(), dma_idle(), dma_idle(), dma_idle()],
    {
        let c = DmaChannel::default();
        let d = Self { channels: [c, c, c, c] };
        assert(d.channels@ =~= seq![dma_idle(), dma_idle(), dma_idle(), dma_idle()]);
        d
    }

    /// Update DMA channel registers from I/O writes
    pub fn update_from_io(&mut self, bus: &Bus)
        requires
            bus@.wf(),
        ensures
            final(self).channels@ == channels_from_io(old(self).channels@, bus@),
    {
        let mut ch: usize = 0;
        while ch < 4
            invariant
                ch <= 4,
                bus@.wf(),
                forall|j: int|
                    0 <= j < ch ==> self.channels@[j] == #[trigger] channels_from_io(
                        old(self).channels@,
                        bus@,
                    )[j],
                forall|j: int| ch <= j < 4 ==> self.channels@[j] == old(self).channels@[j],
            decreases 4 - ch,
        {
            let base = REG_DMA0SAD + (ch as u32) * 12;
            let mut c = self.channels[ch];
            let sad_lo = bus.io_read16_raw(base) as u32;
            let sad_hi = bus.io_read16_raw(base + 2) as u32;
            c.source = sad_lo | (sad_hi << 16);
            let dad_lo = bus.io_read16_raw(base + 4) as u32;
            let dad_hi = bus.io_read16_raw(base + 6) as u32;
            c.dest = dad_lo | (dad_hi << 16);
            c.count = bus.io_read16_raw(base + 8) as u32;
            let cnt_h = bus.io_read16_raw(base + 10);
            let newly_enabled = cnt_h & 0x8000 != 0;
            if newly_enabled && !c.enabled {
                // Latch internal registers on first enable
                c.internal_source = c.source;
                c.internal_dest = c.dest;
                c.internal_count = if c.count == 0 {
                    if ch == 3 {
                        0x10000
                    } else {
                        0x4000
                    }
                } else {
                    c.count
                };
            }
            c.enabled = newly_enabled;
            self.channels[ch] = c;
            ch = ch + 1;
        }
        assert(self.channels@ =~= channels_from_io(old(self).channels@, bus@));
    }

    /// Get the control halfword for a channel
    fn get_control(bus: &Bus, ch: usize) -> (r: u16)
        requires
            ch < 4,
        ensures
            r == bus@.io_half(dma_base(ch as int) + 10),
    {
        let base = REG_DMA0SAD + (ch as u32) * 12 + 10;
        bus.io_read16_raw(base)
    }

    /// Copy `count` units from `src` to `dst`
    fn run_transfer(
        bus: &mut Bus,
        count: u32,
        word_transfer: bool,
        src_ctrl: DmaAddrCtrl,
        dst_ctrl: DmaAddrCtrl,
        src: u32,
        dst: u32,
    ) -> (r: (u32, u32))
        requires
            old(bus)@.wf(),
        ensures
            (DmaXfer { bus: final(bus)@, src: r.0, dst: r.1 }) == transfer(
                DmaXfer { bus: old(bus)@, src, dst },
                count as nat,
                word_transfer,
                src_ctrl,
                dst_ctrl,
            ),
            final(bus)@.wf(),
    {
        let ghost st0 = DmaXfer { bus: bus@, src, dst };
        let step: u32 = if word_transfer {
            4
        } else {
            2
        };
        let mut src = src;
        let mut dst = dst;
        let mut k: u32 = 0;
        while k < count
            invariant
                k <= count,
                step == (if word_transfer {
                    4u32
                } else {
                    2u32
                }),
                (DmaXfer { bus: bus@, src, dst }) == transfer(
                    st0,
                    k as nat,
                    word_transfer,
                    src_ctrl,
                    dst_ctrl,
                ),
                bus@.wf(),
            decreases count - k,
        {
            let ghost before = bus@;
            if word_transfer {
                let val = bus.read_word(src & !3);
                bus.write_word(dst & !3, val);
                proof {
                    lemma_write_wide_wf(before, dst & !3u32, val);
                }
            } else {
                let val = bus.read_halfword(src & !1);
                bus.write_halfword(dst & !1, val);
                proof {
                    lemma_write_wide_wf(before, dst & !1u32, val as u32);
                    assert((val as u32) as u16 == val);
                }
            }
            src = match src_ctrl {
                DmaAddrCtrl::Increment | DmaAddrCtrl::IncrReload => src.wrapping_add(step),
                DmaAddrCtrl::Decrement => src.wrapping_sub(step),
                DmaAddrCtrl::Fixed => src,
            };
            dst = match dst_ctrl {
                DmaAddrCtrl::Increment | DmaAddrCtrl::IncrReload => dst.wrapping_add(step),
                DmaAddrCtrl::Decrement => dst.wrapping_sub(step),
                DmaAddrCtrl::Fixed => dst,
            };
            k = k + 1;
        }
        (src, dst)
    }

    /// Execute a DMA transfer for the given channel, returns cycles consumed
    pub fn execute_channel(&mut self, ch: usize, bus: &mut Bus) -> (cycles: u32)
        requires
            ch < 4,
            old(bus)@.wf(),
            old(self).channels@[ch as int].enabled ==> 2 * old(self).channels@[ch as int].internal_count
                <= u32::MAX,
        ensures
            (DmaRun { channels: final(self).channels@, bus: final(bus)@, cycles })
                == execute_channel_spec(
                DmaRun { channels: old(self).channels@, bus: old(bus)@, cycles: 0 },
                ch as int,
            ),
            final(bus)@.wf(),
    {
        if !self.channels[ch].enabled {
            return 0;
        }
        let control = Self::get_control(bus, ch);
        let word_transfer = control & 0x400 != 0;
        let src_ctrl = DmaAddrCtrl::from_bits(control >> 7);
        let dst_ctrl = DmaAddrCtrl::from_bits(control >> 5);
        let mut c = self.channels[ch];
        let count = c.internal_count;
        let (src, dst) = Self::run_transfer(
            bus,
            count,
            word_transfer,
            src_ctrl,
            dst_ctrl,
            c.internal_source,
            c.internal_dest,
        );
        let cycles = 2 * count;
        c.internal_source = src;
        c.internal_dest = if dst_ctrl == DmaAddrCtrl::IncrReload {
            c.dest
        } else {
            dst
        };
        let repeat = control & 0x200 != 0;
        let irq = control & 0x4000 != 0;
        if !repeat {
            c.enabled = false;
            // Clear enable bit in I/O
            let base = REG_DMA0SAD + (ch as u32) * 12 + 10;
            let old_val = bus.io_read16_raw(base);
            bus.io_write16_raw(base, old_val & 0x7FFF);
        }
        self.channels[ch] = c;
        if irq {
            let irq_bit = if ch == 0 {
                IRQ_DMA0
            } else if ch == 1 {
                IRQ_DMA1
            } else if ch == 2 {
                IRQ_DMA2
            } else {
                IRQ_DMA3
            };
            bus.request_interrupt(irq_bit);
        }
        assert(self.channels@ =~= old(self).channels@.update(ch as int, c));
        cycles
    }

    /// Check channel `ch` against `timing` and run it if it matches
    fn check_channel(&mut self, ch: usize, timing: DmaTiming, bus: &mut Bus, total: u32) -> (r: u32)
        requires
            ch < 4,
            old(bus)@.wf(),
            total + 2 * old(self).channels@[ch as int].internal_count <= u32::MAX,
        ensures
            (DmaRun { channels: final(self).channels@, bus: final(bus)@, cycles: r }) == check_one(
                DmaRun { channels: old(self).channels@, bus: old(bus)@, cycles: total },
                ch as int,
                timing,
            ),
            r <= total + 2 * old(self).channels@[ch as int].internal_count,
            final(bus)@.wf(),
    {
        if self.channels[ch].enabled {
            let control = Self::get_control(bus, ch);
            let ch_timing = (control >> 12) & 3;
            if ch_timing == timing.bits() {
                let c = self.execute_channel(ch, bus);
                return total + c;
            }
        }
        total
    }

    /// Check and execute DMA channels triggered by the given timing
    pub fn check_timing(&mut self, timing: DmaTiming, bus: &mut Bus) -> (total_cycles: u32)
        requires
            old(bus)@.wf(),
            2 * total_count(old(self).channels@) <= u32::MAX,
        ensures
            (DmaRun { channels: final(self).channels@, bus: final(bus)@, cycles: total_cycles })
                == check_upto(
                DmaRun { channels: old(self).channels@, bus: old(bus)@, cycles: 0 },
                4,
                timing,
            ),
            final(bus)@.wf(),
    {
        let ghost st0 = DmaRun { channels: self.channels@, bus: bus@, cycles: 0 };
        let mut total_cycles: u32 = 0;
        let mut ch: usize = 0;
        while ch < 4
            invariant
                ch <= 4,
                (DmaRun { channels: self.channels@, bus: bus@, cycles: total_cycles }) == check_upto(
                    st0,
                    ch as int,
                    timing,
                ),
                bus@.wf(),
                st0.channels.len() == 4,
                st0.bus.wf(),
                forall|j: int|
                    0 <= j < 4 ==> (#[trigger] self.channels@[j]).internal_count
                        == st0.channels[j].internal_count,
                2 * count_upto(st0.channels, 4) <= u32::MAX,
                total_cycles <= 2 * count_upto(st0.channels, ch as int),
            decreases 4 - ch,
        {
            proof {
                lemma_count_upto_mono(st0.channels, ch as int + 1, 4);
            }
            total_cycles = self.check_channel(ch, timing, bus, total_cycles);
            proof {
                lemma_check_keeps(st0, ch as int + 1, timing);
            }
            ch = ch + 1;
        }
        total_cycles
    }
}

impl Default for DmaController {
    fn default() -> (d: Self)
        ensures
            d.channels@ == seq![dma_idle(), dma_idle(), dma_idle(), dma_idle()],
    {
        Self::new()
    }
}

} // verus!
