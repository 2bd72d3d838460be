use vstd::prelude::*;

verus! {

// =============================================================================
// CPU modes
// =============================================================================

/// ARM7TDMI processor modes
#[derive(Debug, Clone, Copy, PartialEq, Eq, Structural)]
pub enum CpuMode {
    User,
    Fiq,
    Irq,
    Supervisor,
    Abort,
    Undefined,
    System,
}

/// The five mode bits that encode `m` in a PSR.
pub open spec fn mode_bits(m: CpuMode) -> u32 {
    match m {
        CpuMode::User => 0x10,
        CpuMode::Fiq => 0x11,
        CpuMode::Irq => 0x12,
        CpuMode::Supervisor => 0x13,
        CpuMode::Abort => 0x17,
        CpuMode::Undefined => 0x1B,
        CpuMode::System => 0x1F,
    }
}

/// The mode that the low five bits of `bits` encode, if any.
pub open spec fn mode_from_bits(bits: u32) -> Option<CpuMode> {
    let m = bits % 32;
    if m == 0x10 {
        Some(CpuMode::User)
    } else if m == 0x11 {
        Some(CpuMode::Fiq)
    } else if m == 0x12 {
        Some(CpuMode::Irq)
    } else if m == 0x13 {
        Some(CpuMode::Supervisor)
    } else if m == 0x17 {
        Some(CpuMode::Abort)
    } else if m == 0x1B {
        Some(CpuMode::Undefined)
    } else if m == 0x1F {
        Some(CpuMode::System)
    } else {
        None
    }
}

/// Index of the SP/LR bank that `m` uses (User and System share bank 0).
pub open spec fn bank_of(m: CpuMode) -> int {
    match m {
        CpuMode::User | CpuMode::System => 0,
        CpuMode::Fiq => 1,
        CpuMode::Irq => 2,
        CpuMode::Supervisor => 3,
        CpuMode::Abort => 4,
        CpuMode::Undefined => 5,
    }
}

/// Whether `m` has a saved program status register.
pub open spec fn mode_has_spsr(m: CpuMode) -> bool {
    !(m == CpuMode::User || m == CpuMode::System)
}

/// Slot of the SPSR bank that `m` uses: FIQ=0, IRQ=1, SVC=2, ABT=3, UND=4.
pub open spec fn spsr_slot(m: CpuMode) -> int {
    match m {
        CpuMode::Fiq => 0,
        CpuMode::Irq => 1,
        CpuMode::Supervisor => 2,
        CpuMode::Abort => 3,
        _ => 4,
    }
}

/// The mode field is the low five bits: masking it is taking the remainder modulo 32,
/// and replacing it keeps the other bits.
proof fn lemma_mode_field()
    by (bit_vector)
    ensures
        forall|b: u32| #[trigger] (b & 0x1Fu32) == b % 32u32,
        forall|b: u32|
            (#[trigger] (b & !0x1Fu32)) % 32u32 == 0u32 && (b & !0x1Fu32) + b % 32u32 == b,
        forall|b: u32, m: u32|
            m < 32u32 ==> (#[trigger] ((b & !0x1Fu32) | m)) % 32u32 == m && ((b & !0x1Fu32) | m)
                & !0x1Fu32 == b & !0x1Fu32,
        forall|c: u32| #[trigger] ((c & !0x1Fu32) | (c % 32u32)) == c,
{
}

pub proof fn lemma_low5(b: u32)
    ensures
        b & 0x1F == b % 32,
        (b & !0x1Fu32) % 32 == 0,
        (b & !0x1Fu32) + b % 32 == b,
{
    lemma_mode_field();
}

impl CpuMode {
    /// The mode bits of this mode (0x10..=0x1F).
    pub fn bits(self) -> (r: u32)
        ensures
            r == mode_bits(self),
    {
        match self {
            CpuMode::User => 0x10,
            CpuMode::Fiq => 0x11,
            CpuMode::Irq => 0x12,
            CpuMode::Supervisor => 0x13,
            CpuMode::Abort => 0x17,
            CpuMode::Undefined => 0x1B,
            CpuMode::System => 0x1F,
        }
    }

    /// Decode the mode from the low five bits of `bits`.
    pub fn from_bits(bits: u8) -> (r: Option<Self>)
        ensures
            r == mode_from_bits(bits as u32),
    {
        let m: u32 = (bits as u32) & 0x1F;
        proof {
            lemma_mode_field();
        }
        match m {
            0x10 => Some(CpuMode::User),
            0x11 => Some(CpuMode::Fiq),
            0x12 => Some(CpuMode::Irq),
            0x13 => Some(CpuMode::Supervisor),
            0x17 => Some(CpuMode::Abort),
            0x1B => Some(CpuMode::Undefined),
            0x1F => Some(CpuMode::System),
            _ => None,
        }
    }

    /// Returns the bank index for banked registers
    pub fn bank_index(self) -> (r: usize)
        ensures
            r == bank_of(self),
            r < 6,
    {
        match self {
            CpuMode::User | CpuMode::System => 0,
            CpuMode::Fiq => 1,
            CpuMode::Irq => 2,
            CpuMode::Supervisor => 3,
            CpuMode::Abort => 4,
            CpuMode::Undefined => 5,
        }
    }

    pub fn has_spsr(self) -> (r: bool)
        ensures
            r == mode_has_spsr(self),
    {
        !(matches!(self, CpuMode::User) || matches!(self, CpuMode::System))
    }
}

/// Decoding the mode bits of a mode gives that mode back.
pub proof fn lemma_mode_bits_roundtrip(m: CpuMode)
    ensures
        mode_from_bits(mode_bits(m)) == Some(m),
{
}

// =============================================================================
// Program status register
// =============================================================================

/// Current Program Status Register flags
#[derive(Debug, Clone, Copy, PartialEq, Eq, Structural)]
pub struct Psr {
    bits: u32,
}

impl View for Psr {
    type V = u32;

    closed spec fn view(&self) -> u32 {
        self.bits
    }
}

/// Whether every bit of `flag` is set in `bits`.
pub open spec fn psr_has(bits: u32, flag: u32) -> bool {
    bits & flag == flag
}

/// `bits` with the bits of `flag` set or cleared according to `value`.
pub open spec fn psr_with(bits: u32, flag: u32, value: bool) -> u32 {
    if value {
        bits | flag
    } else {
        bits & !flag
    }
}

/// Setting one of the condition flags N, Z, C, V makes the PSR hold it as given and
/// leaves the other three as they were; N is bit 31.
pub proof fn lemma_psr_flags(x: u32, v: bool)
    ensures
        psr_has(psr_with(x, Psr::N, v), Psr::N) == v,
        psr_has(psr_with(x, Psr::Z, v), Psr::Z) == v,
        psr_has(psr_with(x, Psr::C, v), Psr::C) == v,
        psr_has(psr_with(x, Psr::V, v), Psr::V) == v,
        psr_has(psr_with(x, Psr::N, v), Psr::Z) == psr_has(x, Psr::Z),
        psr_has(psr_with(x, Psr::N, v), Psr::C) == psr_has(x, Psr::C),
        psr_has(psr_with(x, Psr::N, v), Psr::V) == psr_has(x, Psr::V),
        psr_has(psr_with(x, Psr::Z, v), Psr::N) == psr_has(x, Psr::N),
        psr_has(psr_with(x, Psr::Z, v), Psr::C) == psr_has(x, Psr::C),
        psr_has(psr_with(x, Psr::Z, v), Psr::V) == psr_has(x, Psr::V),
        psr_has(psr_with(x, Psr::C, v), Psr::N) == psr_has(x, Psr::N),
        psr_has(psr_with(x, Psr::C, v), Psr::Z) == psr_has(x, Psr::Z),
        psr_has(psr_with(x, Psr::C, v), Psr::V) == psr_has(x, Psr::V),
        psr_has(psr_with(x, Psr::V, v), Psr::N) == psr_has(x, Psr::N),
        psr_has(psr_with(x, Psr::V, v), Psr::Z) == psr_has(x, Psr::Z),
        psr_has(psr_with(x, Psr::V, v), Psr::C) == psr_has(x, Psr::C),
        ((x >> 31) != 0) == (x >= 0x8000_0000),
{
    lemma_flag_bits(x, v);
}

proof fn lemma_flag_bits(x: u32, v: bool)
    by (bit_vector)
    ensures
        ((if v { x | 0x8000_0000u32 } else { x & !0x8000_0000u32 }) & 0x8000_0000u32 == 0x8000_0000u32) == v,
        ((if v { x | 0x4000_0000u32 } else { x & !0x4000_0000u32 }) & 0x4000_0000u32 == 0x4000_0000u32) == v,
        ((if v { x | 0x2000_0000u32 } else { x & !0x2000_0000u32 }) & 0x2000_0000u32 == 0x2000_0000u32) == v,
        ((if v { x | 0x1000_0000u32 } else { x & !0x1000_0000u32 }) & 0x1000_0000u32 == 0x1000_0000u32) == v,
        ((if v { x | 0x8000_0000u32 } else { x & !0x8000_0000u32 }) & 0x4000_0000u32 == 0x4000_0000u32) == (x & 0x4000_0000u32 == 0x4000_0000u32),
        ((if v { x | 0x8000_0000u32 } else { x & !0x8000_0000u32 }) & 0x2000_0000u32 == 0x2000_0000u32) == (x & 0x2000_0000u32 == 0x2000_0000u32),
        ((if v { x | 0x8000_0000u32 } else { x & !0x8000_0000u32 }) & 0x1000_0000u32 == 0x1000_0000u32) == (x & 0x1000_0000u32 == 0x1000_0000u32),
        ((if v { x | 0x4000_0000u32 } else { x & !0x4000_0000u32 }) & 0x8000_0000u32 == 0x8000_0000u32) == (x & 0x8000_0000u32 == 0x8000_0000u32),
        ((if v { x | 0x4000_0000u32 } else { x & !0x4000_0000u32 }) & 0x2000_0000u32 == 0x2000_0000u32) == (x & 0x2000_0000u32 == 0x2000_0000u32),
        ((if v { x | 0x4000_0000u32 } else { x & !0x4000_0000u32 }) & 0x1000_0000u32 == 0x1000_0000u32) == (x & 0x1000_0000u32 == 0x1000_0000u32),
        ((if v { x | 0x2000_0000u32 } else { x & !0x2000_0000u32 }) & 0x8000_0000u32 == 0x8000_0000u32) == (x & 0x8000_0000u32 == 0x8000_0000u32),
        ((if v { x | 0x2000_0000u32 } else { x & !0x2000_0000u32 }) & 0x4000_0000u32 == 0x4000_0000u32) == (x & 0x4000_0000u32 == 0x4000_0000u32),
        ((if v { x | 0x2000_0000u32 } else { x & !0x2000_0000u32 }) & 0x1000_0000u32 == 0x1000_0000u32) == (x & 0x1000_0000u32 == 0x1000_0000u32),
        ((if v { x | 0x1000_0000u32 } else { x & !0x1000_0000u32 }) & 0x8000_0000u32 == 0x8000_0000u32) == (x & 0x8000_0000u32 == 0x8000_0000u32),
        ((if v { x | 0x1000_0000u32 } else { x & !0x1000_0000u32 }) & 0x4000_0000u32 == 0x4000_0000u32) == (x & 0x4000_0000u32 == 0x4000_0000u32),
        ((if v { x | 0x1000_0000u32 } else { x & !0x1000_0000u32 }) & 0x2000_0000u32 == 0x2000_0000u32) == (x & 0x2000_0000u32 == 0x2000_0000u32),
        ((x >> 31) != 0) == (x >= 0x8000_0000),
{
}

/// The processor mode that a PSR value selects (System when the bits are invalid).
pub open spec fn psr_mode(bits: u32) -> CpuMode {
    match mode_from_bits(bits) {
        Some(m) => m,
        None => CpuMode::System,
    }
}

/// A PSR value with its mode bits replaced by those of `m`.
pub open spec fn psr_with_mode(bits: u32, m: CpuMode) -> u32 {
    (bits & !0x1Fu32) | mode_bits(m)
}

impl Psr {
    /// Negative / Less Than
    pub const N: u32 = 0x8000_0000;
    /// Zero
    pub const Z: u32 = 0x4000_0000;
    /// Carry / Borrow / Extend
    pub const C: u32 = 0x2000_0000;
    /// Overflow
    pub const V: u32 = 0x1000_0000;
    /// IRQ disable
    pub const I: u32 = 0x80;
    /// FIQ disable
    pub const F: u32 = 0x40;
    /// Thumb state (0=ARM, 1=THUMB)
    pub const T: u32 = 0x20;

    pub fn from_bits_retain(bits: u32) -> (r: Psr)
        ensures
            r@ == bits,
    {
        Psr { bits }
    }

    pub fn empty() -> (r: Psr)
        ensures
            r@ == 0,
    {
        Psr { bits: 0 }
    }

    pub fn bits(&self) -> (r: u32)
        ensures
            r == self@,
    {
        self.bits
    }

    pub fn contains(&self, flag: u32) -> (r: bool)
        ensures
            r == psr_has(self@, flag),
    {
        self.bits & flag == flag
    }

    pub fn insert(&mut self, flag: u32)
        ensures
            final(self)@ == old(self)@ | flag,
    {
        self.bits = self.bits | flag;
    }

    pub fn remove(&mut self, flag: u32)
        ensures
            final(self)@ == old(self)@ & !flag,
    {
        self.bits = self.bits & !flag;
    }

    pub fn set(&mut self, flag: u32, value: bool)
        ensures
            final(self)@ == psr_with(old(self)@, flag, value),
    {
        if value {
            self.bits = self.bits | flag;
        } else {
            self.bits = self.bits & !flag;
        }
    }

    /// Get the processor mode from the PSR mode bits
    pub fn mode(self) -> (r: CpuMode)
        ensures
            r == psr_mode(self@),
    {
        let b: u32 = self.bits;
        let low: u32 = b & 0x1F;
        proof {
            lemma_low5(b);
            assert((low as u8) as u32 == low);
        }
        match CpuMode::from_bits(low as u8) {
            Some(m) => m,
            None => CpuMode::System,
        }
    }

    /// Set the processor mode bits
    pub fn set_mode(&mut self, mode: CpuMode)
        ensures
            final(self)@ == psr_with_mode(old(self)@, mode),
    {
        self.bits = (self.bits & !0x1F) | mode.bits();
    }

    /// Check if CPU is in Thumb state
    pub fn thumb(self) -> (r: bool)
        ensures
            r == psr_has(self@, Psr::T),
    {
        self.contains(Psr::T)
    }

    /// Check if IRQs are disabled
    pub fn irq_disabled(self) -> (r: bool)
        ensures
            r == psr_has(self@, Psr::I),
    {
        self.contains(Psr::I)
    }

    /// Check if FIQs are disabled
    pub fn fiq_disabled(self) -> (r: bool)
        ensures
            r == psr_has(self@, Psr::F),
    {
        self.contains(Psr::F)
    }
}

/// Replacing the mode bits selects that mode.
pub proof fn lemma_psr_with_mode(bits: u32, m: CpuMode)
    ensures
        psr_mode(psr_with_mode(bits, m)) == m,
        psr_with_mode(bits, m) & !0x1Fu32 == bits & !0x1Fu32,
{
    let b = mode_bits(m);
    assert(b < 32);
    let r = (bits & !0x1Fu32) | b;
    lemma_mode_field();
    assert(r % 32 == b);
}


// =============================================================================
// ARM7TDMI register file
// =============================================================================

/// ARM7TDMI register file with banked registers for each mode
#[derive(Debug, Clone)]
pub struct RegisterFile {
    /// General purpose registers R0-R15 (R13=SP, R14=LR, R15=PC)
    pub gpr: [u32; 16],
    /// Current Program Status Register
    pub cpsr: Psr,
    /// Saved Program Status Registers (one per banked mode: FIQ, IRQ, SVC, ABT, UND)
    pub spsr: [Psr; 5],
    /// Banked R13 (SP) for each mode: [User/System, FIQ, IRQ, SVC, ABT, UND]
    pub sp_bank: [u32; 6],
    /// Banked R14 (LR) for each mode
    pub lr_bank: [u32; 6],
    /// Banked R8-R12 for FIQ mode (FIQ has its own R8-R12)
    pub fiq_bank: [u32; 5],
    /// Non-FIQ R8-R12 saved when switching to FIQ
    pub usr_bank_r8_r12: [u32; 5],
}

/// The register file as plain values.
#[verifier::ext_equal]
pub struct RegsView {
    pub gpr: Seq<u32>,
    pub cpsr: u32,
    pub spsr: Seq<u32>,
    pub sp_bank: Seq<u32>,
    pub lr_bank: Seq<u32>,
    pub fiq_bank: Seq<u32>,
    pub usr_bank: Seq<u32>,
}

impl RegsView {
    pub open spec fn wf(self) -> bool {
        &&& self.gpr.len() == 16
        &&& self.spsr.len() == 5
        &&& self.sp_bank.len() == 6
        &&& self.lr_bank.len() == 6
        &&& self.fiq_bank.len() == 5
        &&& self.usr_bank.len() == 5
    }

    /// The current processor mode.
    pub open spec fn mode(self) -> CpuMode {
        psr_mode(self.cpsr)
    }

    /// This register file with general register `i` set to `v`.
    pub open spec fn with_reg(self, i: int, v: u32) -> RegsView {
        RegsView { gpr: self.gpr.update(i, v), ..self }
    }

    /// This register file with the program counter set to `v`.
    pub open spec fn with_pc(self, v: u32) -> RegsView {
        self.with_reg(15, v)
    }

    /// This register file with the CPSR set to `v`.
    pub open spec fn with_cpsr(self, v: u32) -> RegsView {
        RegsView { cpsr: v, ..self }
    }
}

impl View for RegisterFile {
    type V = RegsView;

    open spec fn view(&self) -> RegsView {
        RegsView {
            gpr: self.gpr@,
            cpsr: self.cpsr@,
            spsr: self.spsr@.map_values(|p: Psr| p@),
            sp_bank: self.sp_bank@,
            lr_bank: self.lr_bank@,
            fiq_bank: self.fiq_bank@,
            usr_bank: self.usr_bank_r8_r12@,
        }
    }
}

/// The register file after a switch to `new_mode`: SP and LR of the old mode go to its
/// bank, R8-R12 are exchanged when FIQ mode is left or entered, SP and LR of the new
/// mode come from its bank, and the CPSR mode bits select the new mode.
pub open spec fn switch_mode_spec(r: RegsView, new_mode: CpuMode) -> RegsView {
    let old_mode = r.mode();
    if old_mode == new_mode {
        r
    } else {
        let ob = bank_of(old_mode);
        let sp_bank = r.sp_bank.update(ob, r.gpr[13]);
        let lr_bank = r.lr_bank.update(ob, r.gpr[14]);
        let high = r.gpr.subrange(8, 13);
        let gpr1 = if old_mode == CpuMode::Fiq {
            Seq::new(16, |i: int| if 8 <= i < 13 { r.usr_bank[i - 8] } else { r.gpr[i] })
        } else if new_mode == CpuMode::Fiq {
            Seq::new(16, |i: int| if 8 <= i < 13 { r.fiq_bank[i - 8] } else { r.gpr[i] })
        } else {
            r.gpr
        };
        let fiq_bank = if old_mode == CpuMode::Fiq { high } else { r.fiq_bank };
        let usr_bank = if old_mode != CpuMode::Fiq && new_mode == CpuMode::Fiq {
            high
        } else {
            r.usr_bank
        };
        let nb = bank_of(new_mode);
        RegsView {
            gpr: gpr1.update(13, sp_bank[nb]).update(14, lr_bank[nb]),
            cpsr: psr_with_mode(r.cpsr, new_mode),
            spsr: r.spsr,
            sp_bank,
            lr_bank,
            fiq_bank,
            usr_bank,
        }
    }
}

/// The SPSR of the current mode, if the mode has one.
pub open spec fn spsr_spec(r: RegsView) -> Option<u32> {
    if mode_has_spsr(r.mode()) {
        Some(r.spsr[spsr_slot(r.mode())])
    } else {
        None
    }
}

/// The register file with the SPSR of the current mode set to `v` (unchanged in
/// User and System mode).
pub open spec fn set_spsr_spec(r: RegsView, v: u32) -> RegsView {
    if mode_has_spsr(r.mode()) {
        RegsView { spsr: r.spsr.update(spsr_slot(r.mode()), v), ..r }
    } else {
        r
    }
}

/// The register file at power-on: all registers zero, System mode (0x1F) with IRQ (0x80)
/// and FIQ (0x40) disabled.
pub open spec fn regs_default() -> RegsView {
    RegsView {
        gpr: Seq::new(16, |i: int| 0u32),
        cpsr: 0xDF,
        spsr: Seq::new(5, |i: int| 0u32),
        sp_bank: Seq::new(6, |i: int| 0u32),
        lr_bank: Seq::new(6, |i: int| 0u32),
        fiq_bank: Seq::new(5, |i: int| 0u32),
        usr_bank: Seq::new(5, |i: int| 0u32),
    }
}

impl RegisterFile {
    /// PC register index
    pub const PC: usize = 15;
    /// LR register index
    pub const LR: usize = 14;
    /// SP register index
    pub const SP: usize = 13;

    /// Every register file has sixteen registers and full banks.
    pub proof fn lemma_view_wf(&self)
        ensures
            self@.wf(),
    {
    }

    pub fn pc(&self) -> (r: u32)
        ensures
            r == self@.gpr[15],
    {
        self.gpr[15]
    }

    pub fn set_pc(&mut self, value: u32)
        ensures
            final(self)@ == old(self)@.with_pc(value),
    {
        self.gpr[15] = value;
        assert(self.spsr@.map_values(|p: Psr| p@) =~= old(self).spsr@.map_values(|p: Psr| p@));
    }

    /// Switch to a new CPU mode, banking/restoring registers as needed
    pub fn switch_mode(&mut self, new_mode: CpuMode)
        ensures
            final(self)@ == switch_mode_spec(old(self)@, new_mode),
    {
        let old_mode = self.cpsr.mode();
        if old_mode == new_mode {
            return;
        }
        let ghost r = self@;

        // Save current SP/LR to the old mode's bank
        let old_bank = old_mode.bank_index();
        self.sp_bank[old_bank] = self.gpr[13];
        self.lr_bank[old_bank] = self.gpr[14];

        // Handle FIQ R8-R12 banking
        if old_mode == CpuMode::Fiq {
            let mut i: usize = 0;
            while i < 5
                invariant
                    i <= 5,
                    forall|k: int| 0 <= k < i ==> self.fiq_bank@[k] == r.gpr[8 + k],
                    forall|k: int| 0 <= k < i ==> self.gpr@[8 + k] == r.usr_bank[k],
                    forall|k: int| 0 <= k < 16 && !(8 <= k < 8 + i) ==> self.gpr@[k] == r.gpr[k],
                    self.usr_bank_r8_r12@ == r.usr_bank,
                    self.sp_bank@ == r.sp_bank.update(bank_of(old_mode), r.gpr[13]),
                    self.lr_bank@ == r.lr_bank.update(bank_of(old_mode), r.gpr[14]),
                    self.cpsr@ == r.cpsr,
                    self.spsr == old(self).spsr,
                    r == old(self)@,
                    old_mode == CpuMode::Fiq,
                    psr_mode(r.cpsr) == old_mode,
                decreases 5 - i,
            {
                self.fiq_bank[i] = self.gpr[8 + i];
                self.gpr[8 + i] = self.usr_bank_r8_r12[i];
                i = i + 1;
            }
        } else if new_mode == CpuMode::Fiq {
            let mut i: usize = 0;
            while i < 5
                invariant
                    i <= 5,
                    forall|k: int| 0 <= k < i ==> self.usr_bank_r8_r12@[k] == r.gpr[8 + k],
                    forall|k: int| 0 <= k < i ==> self.gpr@[8 + k] == r.fiq_bank[k],
                    forall|k: int| 0 <= k < 16 && !(8 <= k < 8 + i) ==> self.gpr@[k] == r.gpr[k],
                    self.fiq_bank@ == r.fiq_bank,
                    self.sp_bank@ == r.sp_bank.update(bank_of(old_mode), r.gpr[13]),
                    self.lr_bank@ == r.lr_bank.update(bank_of(old_mode), r.gpr[14]),
                    self.cpsr@ == r.cpsr,
                    self.spsr == old(self).spsr,
                    r == old(self)@,
                    new_mode == CpuMode::Fiq,
                decreases 5 - i,
            {
                self.usr_bank_r8_r12[i] = self.gpr[8 + i];
                self.gpr[8 + i] = self.fiq_bank[i];
                i = i + 1;
            }
        }
        // Restore SP/LR from the new mode's bank
        let new_bank = new_mode.bank_index();
        self.gpr[13] = self.sp_bank[new_bank];
        self.gpr[14] = self.lr_bank[new_bank];

        // Update mode bits in CPSR
        self.cpsr.set_mode(new_mode);
        proof {
            let s = switch_mode_spec(r, new_mode);
            assert(self.gpr@ =~= s.gpr);
            assert(self.fiq_bank@ =~= s.fiq_bank);
            assert(self.usr_bank_r8_r12@ =~= s.usr_bank);
            assert(self.spsr@.map_values(|p: Psr| p@) =~= s.spsr);
        }
    }

    /// Get SPSR for the current mode (None for User/System)
    pub fn spsr(&self) -> (r: Option<Psr>)
        ensures
            match r {
                Some(p) => spsr_spec(self@) == Some(p@),
                None => spsr_spec(self@) is None,
            },
    {
        let mode = self.cpsr.mode();
        if mode.has_spsr() {
            let idx: usize = match mode {
                CpuMode::Fiq => 0,
                CpuMode::Irq => 1,
                CpuMode::Supervisor => 2,
                CpuMode::Abort => 3,
                _ => 4,
            };
            Some(self.spsr[idx])
        } else {
            None
        }
    }

    /// Set SPSR for the current mode
    pub fn set_spsr(&mut self, value: Psr)
        ensures
            final(self)@ == set_spsr_spec(old(self)@, value@),
    {
        let mode = self.cpsr.mode();
        if mode.has_spsr() {
            let idx: usize = match mode {
                CpuMode::Fiq => 0,
                CpuMode::Irq => 1,
                CpuMode::Supervisor => 2,
                CpuMode::Abort => 3,
                _ => 4,
            };
            self.spsr[idx] = value;
            assert(self.spsr@.map_values(|p: Psr| p@) =~= old(self)@.spsr.update(idx as int, value@));
        }
    }
}

impl Default for RegisterFile {
    fn default() -> (r: Self)
        ensures
            r@ == regs_default(),
    {
        let r = Self {
            gpr: [0u32; 16],
            cpsr: Psr::from_bits_retain(0xDF),
            spsr: [Psr::empty(); 5],
            sp_bank: [0u32; 6],
            lr_bank: [0u32; 6],
            fiq_bank: [0u32; 5],
            usr_bank_r8_r12: [0u32; 5],
        };
        assert(r@ =~= regs_default());
        r
    }
}

/// Switching to another mode and back restores every general register and the CPSR,
/// provided the CPSR encodes a valid mode.
pub proof fn lemma_switch_mode_roundtrip(r: RegsView, m: CpuMode)
    requires
        r.wf(),
        mode_from_bits(r.cpsr) is Some,
    ensures
        switch_mode_spec(switch_mode_spec(r, m), r.mode()).gpr == r.gpr,
        switch_mode_spec(switch_mode_spec(r, m), r.mode()).cpsr == r.cpsr,
{
    let a = r.mode();
    let r1 = switch_mode_spec(r, m);
    if a != m {
        lemma_psr_with_mode(r.cpsr, m);
        let r2 = switch_mode_spec(r1, a);
        lemma_psr_with_mode(r1.cpsr, a);
        let c = r.cpsr;
        let ba = mode_bits(a);
        assert(c % 32 == ba);
        assert(r1.cpsr & !0x1Fu32 == c & !0x1Fu32);
        lemma_mode_field();
        assert((c & !0x1Fu32) | (c % 32) == c);
        assert(r2.gpr =~= r.gpr);
        assert(r2.cpsr == r.cpsr);
    }
}

/// After a mode switch the CPSR selects the new mode.
pub proof fn lemma_switch_mode_selects(r: RegsView, m: CpuMode)
    ensures
        switch_mode_spec(r, m).mode() == m,
{
    if r.mode() != m {
        lemma_psr_with_mode(r.cpsr, m);
    }
}


// =============================================================================
// Memory access width and type
// =============================================================================

/// Access width for memory operations
#[derive(Debug, Clone, Copy, PartialEq, Eq, Structural)]
pub enum AccessWidth {
    Byte,
    Halfword,
    Word,
}

/// Memory access type (for wait state calculation)
#[derive(Debug, Clone, Copy, PartialEq, Eq, Structural)]
pub enum AccessType {
    /// Non-sequential access (first access or random)
    NonSequential,
    /// Sequential access (contiguous after previous)
    Sequential,
}

// =============================================================================
// Emulator state
// =============================================================================

/// GBA key buttons
#[derive(Debug, Clone, Copy, PartialEq, Eq, Structural)]
pub enum GbaButton {
    A,
    B,
    Select,
    Start,
    Right,
    Left,
    Up,
    Down,
    R,
    L,
}

/// The KEYINPUT bit of a button: A, B, Select, Start, Right, Left, Up, Down, R, L are
/// bits 0 to 9.
pub open spec fn button_bit(b: GbaButton) -> u16 {
    match b {
        GbaButton::A => 0x001,
        GbaButton::B => 0x002,
        GbaButton::Select => 0x004,
        GbaButton::Start => 0x008,
        GbaButton::Right => 0x010,
        GbaButton::Left => 0x020,
        GbaButton::Up => 0x040,
        GbaButton::Down => 0x080,
        GbaButton::R => 0x100,
        GbaButton::L => 0x200,
    }
}

impl GbaButton {
    /// Bit position in KEYINPUT register (active-low)
    pub fn bit(self) -> (r: u16)
        ensures
            r == button_bit(self),
    {
        match self {
            GbaButton::A => 0x001,
            GbaButton::B => 0x002,
            GbaButton::Select => 0x004,
            GbaButton::Start => 0x008,
            GbaButton::Right => 0x010,
            GbaButton::Left => 0x020,
            GbaButton::Up => 0x040,
            GbaButton::Down => 0x080,
            GbaButton::R => 0x100,
            GbaButton::L => 0x200,
        }
    }
}

/// The button with KEYINPUT bit `index`, if there is one.
pub open spec fn button_of_index(index: u32) -> Option<GbaButton> {
    if index == 0 {
        Some(GbaButton::A)
    } else if index == 1 {
        Some(GbaButton::B)
    } else if index == 2 {
        Some(GbaButton::Select)
    } else if index == 3 {
        Some(GbaButton::Start)
    } else if index == 4 {
        Some(GbaButton::Right)
    } else if index == 5 {
        Some(GbaButton::Left)
    } else if index == 6 {
        Some(GbaButton::Up)
    } else if index == 7 {
        Some(GbaButton::Down)
    } else if index == 8 {
        Some(GbaButton::R)
    } else if index == 9 {
        Some(GbaButton::L)
    } else {
        None
    }
}

/// Button by number (0=A, 1=B, 2=Select, 3=Start, 4=Right, 5=Left, 6=Up, 7=Down, 8=R, 9=L)
pub fn button_from_index(index: u32) -> (r: Option<GbaButton>)
    ensures
        r == button_of_index(index),
        r is Some <==> index < 10,
        r is Some ==> button_bit(r.unwrap()) == 1u16 << index,
{
    assert(1u16 << 0u32 == 1 && 1u16 << 1u32 == 2 && 1u16 << 2u32 == 4 && 1u16 << 3u32 == 8
        && 1u16 << 4u32 == 0x10 && 1u16 << 5u32 == 0x20 && 1u16 << 6u32 == 0x40 && 1u16 << 7u32
        == 0x80 && 1u16 << 8u32 == 0x100 && 1u16 << 9u32 == 0x200) by (bit_vector);
    match index {
        0 => Some(GbaButton::A),
        1 => Some(GbaButton::B),
        2 => Some(GbaButton::Select),
        3 => Some(GbaButton::Start),
        4 => Some(GbaButton::Right),
        5 => Some(GbaButton::Left),
        6 => Some(GbaButton::Up),
        7 => Some(GbaButton::Down),
        8 => Some(GbaButton::R),
        9 => Some(GbaButton::L),
        _ => None,
    }
}

// =============================================================================
// Snapshot (Savestate) support
// =============================================================================

/// Trait for components that can be serialized for savestates
pub trait Snapshot {
    /// Create a snapshot of the current state
    fn save_snapshot(&self) -> (r: Vec<u8>)
        where Self: Sized,
        default_ensures
            r@.len() == 0,
    {
        // The default keeps nothing; components that hold state provide their own
        Vec::new()
    }

    /// Restore state from a snapshot
    fn load_snapshot(&mut self, data: &[u8]) -> (r: Result<(), SnapshotError>)
        where Self: Sized,
        default_ensures
            r is Ok,
    {
        Ok(())
    }
}

/// Why a snapshot could not be restored
#[derive(Debug)]
pub enum SnapshotError {
    InvalidData,
    VersionMismatch,
    DeserializationFailed(String),
}

// =============================================================================
// Memory inspection / manipulation
// =============================================================================

/// A watched memory address for RAM inspection
#[derive(Debug, Clone)]
pub struct MemoryWatch {
    pub address: u32,
    pub label: String,
    pub width: AccessWidth,
    pub last_value: u32,
}

} // verus!
