use vstd::prelude::*;

verus! {

// =============================================================================
// Sound channel state
// =============================================================================

/// Sample rate for audio output
pub const SAMPLE_RATE: u32 = 32_768;

/// PSG channels 1 and 2: square wave (channel 1 with frequency sweep)
#[derive(Debug, Clone)]
pub struct PulseChannel {
    pub enabled: bool,
    pub length_counter: u16,
    pub duty: u8,
    pub volume: u8,
    pub frequency: u16,
    pub timer: u16,
}

impl Default for PulseChannel {
    fn default() -> (c: Self)
        ensures
            !c.enabled && c.length_counter == 0 && c.duty == 0 && c.volume == 0 && c.frequency == 0
                && c.timer == 0,
    {
        Self { enabled: false, length_counter: 0, duty: 0, volume: 0, frequency: 0, timer: 0 }
    }
}

/// PSG channel 3: plays the 32 4-bit samples of wave RAM
#[derive(Debug, Clone)]
pub struct WaveChannel {
    pub enabled: bool,
    pub length_counter: u16,
    pub volume_shift: u8,
    pub frequency: u16,
    pub wave_ram: [u8; 16],
    pub position: u8,
}

impl Default for WaveChannel {
    fn default() -> (c: Self)
        ensures
            !c.enabled && c.length_counter == 0 && c.volume_shift == 0 && c.frequency == 0
                && c.position == 0,
            c.wave_ram@ == Seq::new(16, |i: int| 0u8),
    {
        let c = Self {
            enabled: false,
            length_counter: 0,
            volume_shift: 0,
            frequency: 0,
            wave_ram: [0u8; 16],
            position: 0,
        };
        assert(c.wave_ram@ =~= Seq::new(16, |i: int| 0u8));
        c
    }
}

/// PSG channel 4: noise from a linear-feedback shift register
#[derive(Debug, Clone)]
pub struct NoiseChannel {
    pub enabled: bool,
    pub length_counter: u16,
    pub volume: u8,
    pub divisor: u8,
    pub width: bool,
    pub shift: u8,
    pub lfsr: u16,
}

impl Default for NoiseChannel {
    fn default() -> (c: Self)
        ensures
            !c.enabled && c.length_counter == 0 && c.volume == 0 && c.divisor == 0 && !c.width
                && c.shift == 0 && c.lfsr == 0,
    {
        Self {
            enabled: false,
            length_counter: 0,
            volume: 0,
            divisor: 0,
            width: false,
            shift: 0,
            lfsr: 0,
        }
    }
}

/// Direct Sound channel: a 32-sample ring buffer of signed 8-bit samples
#[derive(Debug, Clone)]
pub struct FifoChannel {
    pub buffer: [i8; 32],
    pub read_pos: usize,
    pub write_pos: usize,
    pub count: usize,
    pub current_sample: i8,
    pub enabled: bool,
    pub timer_select: u8,
    pub volume_full: bool,
}

impl Default for FifoChannel {
    fn default() -> (c: Self)
        ensures
            c.buffer@ == Seq::new(32, |i: int| 0i8),
            c.read_pos == 0 && c.write_pos == 0 && c.count == 0,
            c.current_sample == 0 && !c.enabled && c.timer_select == 0 && !c.volume_full,
    {
        let c = Self {
            buffer: [0i8; 32],
            read_pos: 0,
            write_pos: 0,
            count: 0,
            current_sample: 0,
            enabled: false,
            timer_select: 0,
            volume_full: false,
        };
        assert(c.buffer@ =~= Seq::new(32, |i: int| 0i8));
        c
    }
}

impl FifoChannel {
    /// The ring buffer is consistent: positions inside it, at most 32 samples held, and
    /// the write position `count` samples after the read position.
    pub open spec fn wf(&self) -> bool {
        &&& self.read_pos < 32
        &&& self.write_pos < 32
        &&& self.count <= 32
        &&& (self.read_pos + self.count) % 32 == self.write_pos
    }

    /// The samples held, oldest first.
    pub open spec fn contents(&self) -> Seq<i8> {
        Seq::new(self.count as nat, |i: int| self.buffer@[(self.read_pos + i) % 32])
    }

    /// Push a sample; a full FIFO drops it
    pub fn push(&mut self, sample: i8)
        requires
            old(self).count < 32 ==> old(self).write_pos < 32,
        ensures
            old(self).count < 32 ==> {
                &&& final(self).buffer@ == old(self).buffer@.update(old(self).write_pos as int, sample)
                &&& final(self).write_pos == (old(self).write_pos + 1) % 32
                &&& final(self).count == old(self).count + 1
            },
            old(self).count >= 32 ==> final(self).buffer == old(self).buffer && final(self).write_pos
                == old(self).write_pos && final(self).count == old(self).count,
            final(self).read_pos == old(self).read_pos,
            final(self).current_sample == old(self).current_sample,
            final(self).enabled == old(self).enabled,
            final(self).timer_select == old(self).timer_select,
            final(self).volume_full == old(self).volume_full,
    {
        if self.count < 32 {
            self.buffer[self.write_pos] = sample;
            self.write_pos = (self.write_pos + 1) % 32;
            self.count = self.count + 1;
        }
    }
}

/// Pushing onto a consistent FIFO keeps it consistent; with room, the sample joins the
/// end of what it holds, and a full FIFO keeps what it holds.
pub proof fn lemma_fifo_push(f: FifoChannel, g: FifoChannel, sample: i8)
    requires
        f.wf(),
        f.count < 32 ==> {
            &&& g.buffer@ == f.buffer@.update(f.write_pos as int, sample)
            &&& g.write_pos == (f.write_pos + 1) % 32
            &&& g.count == f.count + 1
        },
        f.count >= 32 ==> g.buffer == f.buffer && g.write_pos == f.write_pos && g.count
            == f.count,
        g.read_pos == f.read_pos,
    ensures
        g.wf(),
        f.count < 32 ==> g.contents() == f.contents().push(sample),
        f.count >= 32 ==> g.contents() == f.contents(),
{
    if f.count < 32 {
        assert forall|i: int| 0 <= i < f.count implies #[trigger] g.contents()[i] == f.contents()[i] by {
            let a = f.read_pos + i;
            let b = f.read_pos + f.count;
            assert(a % 32 != b % 32) by {
                vstd::arithmetic::div_mod::lemma_fundamental_div_mod(a, 32);
                vstd::arithmetic::div_mod::lemma_fundamental_div_mod(b, 32);
            }
        }
        assert(g.contents()[f.count as int] == sample);
        assert(g.contents() =~= f.contents().push(sample));
    } else {
        assert(g.contents() =~= f.contents());
    }
}

} // verus!
