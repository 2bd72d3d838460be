use vstd::prelude::*;

use crate::bits::lemma_and_bound;

verus! {

// =============================================================================
// Backup memory
// =============================================================================

/// Cartridge backup type
#[derive(Debug, Clone, Copy, PartialEq, Eq, Structural)]
pub enum BackupType {
    NoBackup,
    /// 32KB or 64KB
    Sram,
    /// 64KB flash
    Flash64,
    /// 128KB flash (bank-switched)
    Flash128,
    /// 512 bytes (4Kbit)
    Eeprom512,
    /// 8KB (64Kbit)
    Eeprom8K,
}

/// Where the flash command sequence stands
#[derive(Debug, Clone, Copy, PartialEq, Eq, Structural)]
pub enum FlashCommand {
    Ready,
    /// 0x5555 = 0xAA
    Command1,
    /// 0x2AAA = 0x55
    Command2,
    /// waiting for erase type
    Erase1,
    /// next byte is a write
    Write,
    /// next write to 0x0000 selects bank
    BankSelect,
}

/// Flash memory state
#[derive(Debug, Clone)]
pub struct FlashState {
    pub data: Vec<u8>,
    pub bank: u8,
    pub command_state: FlashCommand,
    pub chip_id_mode: bool,
    /// Manufacturer + device ID (e.g. Sanyo 128K = 0x1362)
    pub chip_id: u16,
}

/// The flash chip as values.
#[verifier::ext_equal]
pub struct FlashView {
    pub data: Seq<u8>,
    pub bank: u8,
    pub command_state: FlashCommand,
    pub chip_id_mode: bool,
    pub chip_id: u16,
}

impl View for FlashState {
    type V = FlashView;

    open spec fn view(&self) -> FlashView {
        FlashView {
            data: self.data@,
            bank: self.bank,
            command_state: self.command_state,
            chip_id_mode: self.chip_id_mode,
            chip_id: self.chip_id,
        }
    }
}

/// The offset inside a 64KB bank that an address selects.
pub open spec fn flash_offset(address: u32) -> int {
    (address & 0xFFFF) as int
}

/// The first data index of a bank.
pub open spec fn bank_base(bank: u8) -> int {
    bank * 0x10000
}

/// A fresh chip of `size` bytes: erased (0xFF), bank 0, ready; the Sanyo 128K ID (0x1362)
/// above 64KB, the Panasonic 64K ID (0x1B32) otherwise.
pub open spec fn flash_new(size: nat) -> FlashView {
    FlashView {
        data: Seq::new(size, |i: int| 0xFFu8),
        bank: 0,
        command_state: FlashCommand::Ready,
        chip_id_mode: false,
        chip_id: if size > 0x10000 {
            0x1362
        } else {
            0x1B32
        },
    }
}

/// What a read of `address` returns: in ID mode offsets 0 and 1 give the ID's low and high
/// byte; otherwise the byte of the current bank, 0xFF past the end of the chip.
pub open spec fn flash_read(f: FlashView, address: u32) -> u8 {
    let off = flash_offset(address);
    if f.chip_id_mode && off < 2 {
        if off == 0 {
            f.chip_id as u8
        } else {
            (f.chip_id >> 8) as u8
        }
    } else {
        let a = bank_base(f.bank) + off;
        if a < f.data.len() {
            f.data[a]
        } else {
            0xFF
        }
    }
}

/// `data` with the indices in `start..end` erased to 0xFF.
pub open spec fn erased(data: Seq<u8>, start: int, end: int) -> Seq<u8> {
    Seq::new(data.len(), |i: int| if start <= i < end { 0xFFu8 } else { data[i] })
}

/// The first index of the 4KB sector that `off` falls in, in the current bank.
pub open spec fn sector_start(f: FlashView, off: int) -> int {
    bank_base(f.bank) + (off / 0x1000) * 0x1000
}

/// The chip after a write of `value` to `address`, by the command sequence it is in:
/// AA to 5555 then 55 to 2AAA open a command, written to 5555: 90 enters ID mode, F0
/// leaves it, 80 starts an erase (then 10 to 5555 erases the chip, 30 erases the 4KB
/// sector of the address), A0 programs the next byte written, B0 makes the next write to
/// offset 0 select the bank. Anything else returns to ready.
pub open spec fn flash_write(f: FlashView, address: u32, value: u8) -> FlashView {
    let off = flash_offset(address);
    let ready = FlashView { command_state: FlashCommand::Ready, ..f };
    match f.command_state {
        FlashCommand::Ready => {
            if off == 0x5555 && value == 0xAA {
                FlashView { command_state: FlashCommand::Command1, ..f }
            } else {
                f
            }
        },
        FlashCommand::Command1 => {
            if off == 0x2AAA && value == 0x55 {
                FlashView { command_state: FlashCommand::Command2, ..f }
            } else {
                ready
            }
        },
        FlashCommand::Command2 => {
            if off != 0x5555 {
                ready
            } else if value == 0x90 {
                FlashView { chip_id_mode: true, ..ready }
            } else if value == 0xF0 {
                FlashView { chip_id_mode: false, ..ready }
            } else if value == 0x80 {
                FlashView { command_state: FlashCommand::Erase1, ..f }
            } else if value == 0xA0 {
                FlashView { command_state: FlashCommand::Write, ..f }
            } else if value == 0xB0 {
                FlashView { command_state: FlashCommand::BankSelect, ..f }
            } else {
                ready
            }
        },
        FlashCommand::Erase1 => {
            if (off == 0x5555 && value == 0xAA) || (off == 0x2AAA && value == 0x55) {
                f
            } else if value == 0x10 && off == 0x5555 {
                FlashView { data: erased(f.data, 0, f.data.len() as int), ..ready }
            } else if value == 0x30 {
                let start = sector_start(f, off);
                let end = if start + 0x1000 < f.data.len() {
                    start + 0x1000
                } else {
                    f.data.len() as int
                };
                FlashView { data: erased(f.data, start, end), ..ready }
            } else {
                ready
            }
        },
        FlashCommand::Write => {
            let a = bank_base(f.bank) + off;
            if a < f.data.len() {
                FlashView { data: f.data.update(a, value), ..ready }
            } else {
                ready
            }
        },
        FlashCommand::BankSelect => {
            if off == 0 {
                FlashView { bank: value & 1, ..ready }
            } else {
                ready
            }
        },
    }
}

/// The write would erase a sector that starts past the end of the chip.
pub open spec fn erases_past_end(f: FlashView, address: u32, value: u8) -> bool {
    f.command_state == FlashCommand::Erase1 && value == 0x30 && sector_start(
        f,
        flash_offset(address),
    ) > f.data.len()
}

/// The first two writes of every flash command: AA to 5555, then 55 to 2AAA.
pub open spec fn unlock(f: FlashView) -> FlashView {
    flash_write(flash_write(f, 0x5555, 0xAA), 0x2AAA, 0x55)
}

/// The four writes that program one byte: unlock, A0 to 5555, then the byte.
pub open spec fn program_byte(f: FlashView, address: u32, value: u8) -> FlashView {
    flash_write(flash_write(unlock(f), 0x5555, 0xA0), address, value)
}

/// The writes that erase the 4KB sector of `address`: unlock, 80 to 5555, then 30.
pub open spec fn erase_sector(f: FlashView, address: u32) -> FlashView {
    flash_write(flash_write(unlock(f), 0x5555, 0x80), address, 0x30)
}

proof fn lemma_command_offsets()
    by (bit_vector)
    ensures
        0x5555u32 & 0xFFFF == 0x5555,
        0x2AAAu32 & 0xFFFF == 0x2AAA,
        0u32 & 0xFFFF == 0,
        1u32 & 0xFFFF == 1,
{
}

/// The sector of an offset is its 4KB-aligned part.
proof fn lemma_sector_bits(address: u32)
    by (bit_vector)
    ensures
        address & 0xFFFF <= 0xFFFF,
        (address & 0xFFFF) & 0xF000 <= 0xF000,
        (address & 0xFFFF) & 0xF000 == ((address & 0xFFFF) / 0x1000) * 0x1000,
{
}

/// From the ready state, unlocking leaves the chip waiting for a command, data untouched.
pub proof fn lemma_unlock(f: FlashView)
    requires
        f.command_state == FlashCommand::Ready,
    ensures
        unlock(f) == (FlashView { command_state: FlashCommand::Command2, ..f }),
{
    lemma_command_offsets();
}

/// Programming a byte from the ready state stores it in the current bank (when the bank
/// holds that offset), changes no other byte, returns to ready, and a read of the same
/// address outside ID mode gives the byte back.
pub proof fn lemma_program_then_read(f: FlashView, address: u32, value: u8)
    requires
        f.command_state == FlashCommand::Ready,
        bank_base(f.bank) + flash_offset(address) < f.data.len(),
        !f.chip_id_mode,
    ensures
        program_byte(f, address, value).data == f.data.update(
            bank_base(f.bank) + flash_offset(address),
            value,
        ),
        program_byte(f, address, value).command_state == FlashCommand::Ready,
        flash_read(program_byte(f, address, value), address) == value,
{
    lemma_unlock(f);
    lemma_command_offsets();
}

/// Erasing a sector from the ready state sets every byte of that 4KB sector of the current
/// bank to 0xFF, so outside ID mode every address in it reads 0xFF, and returns to ready.
pub proof fn lemma_erase_sector_reads_erased(f: FlashView, address: u32, other: u32)
    requires
        f.command_state == FlashCommand::Ready,
        !f.chip_id_mode,
        sector_start(f, flash_offset(address)) <= f.data.len(),
        flash_offset(other) / 0x1000 == flash_offset(address) / 0x1000,
    ensures
        erase_sector(f, address).command_state == FlashCommand::Ready,
        flash_read(erase_sector(f, address), other) == 0xFF,
{
    lemma_unlock(f);
    lemma_command_offsets();
    let off = flash_offset(other);
    assert(off == (off / 0x1000) * 0x1000 + off % 0x1000);
}

/// Entering ID mode from the ready state makes offsets 0 and 1 read the chip ID.
pub proof fn lemma_chip_id_mode(f: FlashView)
    requires
        f.command_state == FlashCommand::Ready,
    ensures
        flash_write(unlock(f), 0x5555, 0x90).chip_id_mode,
        flash_read(flash_write(unlock(f), 0x5555, 0x90), 0) == f.chip_id as u8,
        flash_read(flash_write(unlock(f), 0x5555, 0x90), 1) == (f.chip_id >> 8) as u8,
{
    lemma_unlock(f);
    lemma_command_offsets();
}

impl FlashState {
    pub fn new(size: usize) -> (f: Self)
        ensures
            f@ == flash_new(size as nat),
    {
        let data = vec![0xFFu8; size];
        assert(data@ =~= Seq::new(size as nat, |i: int| 0xFFu8));
        Self {
            data,
            bank: 0,
            command_state: FlashCommand::Ready,
            chip_id_mode: false,
            chip_id: if size > 0x10000 {
                0x1362
            } else {
                0x1B32
            },
        }
    }

    pub fn read(&self, address: u32) -> (r: u8)
        ensures
            r == flash_read(self@, address),
    {
        proof {
            lemma_and_bound();
        }
        let offset = (address & 0xFFFF) as usize;
        if self.chip_id_mode && offset < 2 {
            return if offset == 0 {
                self.chip_id as u8
            } else {
                (self.chip_id >> 8) as u8
            };
        }
        let bank_offset = self.bank as usize * 0x10000;
        let addr = bank_offset + offset;
        if addr < self.data.len() {
            self.data[addr]
        } else {
            0xFF
        }
    }

    /// Set `data[start..end]` to 0xFF
    fn erase_range(&mut self, start: usize, end: usize)
        requires
            start <= end <= old(self).data@.len(),
        ensures
            final(self)@ == (FlashView {
                data: erased(old(self).data@, start as int, end as int),
                ..old(self)@
            }),
    {
        let mut i = start;
        while i < end
            invariant
                start <= i <= end <= self.data@.len(),
                self.data@.len() == old(self).data@.len(),
                self.data@ =~= erased(old(self).data@, start as int, i as int),
                self.bank == old(self).bank,
                self.command_state == old(self).command_state,
                self.chip_id_mode == old(self).chip_id_mode,
                self.chip_id == old(self).chip_id,
            decreases end - i,
        {
            self.data.set(i, 0xFF);
            i = i + 1;
        }
    }

    pub fn write(&mut self, address: u32, value: u8)
        requires
            !erases_past_end(old(self)@, address, value),
        ensures
            final(self)@ == flash_write(old(self)@, address, value),
    {
        proof {
            lemma_and_bound();
        }
        let offset = (address & 0xFFFF) as usize;
        match self.command_state {
            FlashCommand::Ready => {
                if offset == 0x5555 && value == 0xAA {
                    self.command_state = FlashCommand::Command1;
                }
            },
            FlashCommand::Command1 => {
                if offset == 0x2AAA && value == 0x55 {
                    self.command_state = FlashCommand::Command2;
                } else {
                    self.command_state = FlashCommand::Ready;
                }
            },
            FlashCommand::Command2 => {
                if offset == 0x5555 {
                    if value == 0x90 {
                        self.chip_id_mode = true;
                        self.command_state = FlashCommand::Ready;
                    } else if value == 0xF0 {
                        self.chip_id_mode = false;
                        self.command_state = FlashCommand::Ready;
                    } else if value == 0x80 {
                        self.command_state = FlashCommand::Erase1;
                    } else if value == 0xA0 {
                        self.command_state = FlashCommand::Write;
                    } else if value == 0xB0 {
                        self.command_state = FlashCommand::BankSelect;
                    } else {
                        self.command_state = FlashCommand::Ready;
                    }
                } else {
                    self.command_state = FlashCommand::Ready;
                }
            },
            FlashCommand::Erase1 => {
                if offset == 0x5555 && value == 0xAA {
                    // Continue erase sequence
                } else if offset == 0x2AAA && value == 0x55 {
                    // Continue
                } else if value == 0x10 && offset == 0x5555 {
                    // Full chip erase
                    let len = self.data.len();
                    self.erase_range(0, len);
                    self.command_state = FlashCommand::Ready;
                } else if value == 0x30 {
                    // Sector erase (4KB)
                    let sector = offset & 0xF000;
                    proof {
                        lemma_sector_bits(address);
                    }
                    let bank_offset = self.bank as usize * 0x10000;
                    let start = bank_offset + sector;
                    let end = if start + 0x1000 < self.data.len() {
                        start + 0x1000
                    } else {
                        self.data.len()
                    };
                    self.erase_range(start, end);
                    self.command_state = FlashCommand::Ready;
                } else {
                    self.command_state = FlashCommand::Ready;
                }
            },
            FlashCommand::Write => {
                let bank_offset = self.bank as usize * 0x10000;
                let addr = bank_offset + offset;
                if addr < self.data.len() {
                    self.data.set(addr, value);
                }
                self.command_state = FlashCommand::Ready;
            },
            FlashCommand::BankSelect => {
                if offset == 0x0000 {
                    self.bank = value & 1;
                }
                self.command_state = FlashCommand::Ready;
            },
        }
    }
}

// =============================================================================
// Backup detection
// =============================================================================

/// `needle` occurs in `hay` starting at index `i`.
pub open spec fn occurs_at(hay: Seq<u8>, needle: Seq<u8>, i: int) -> bool {
    0 <= i && i + needle.len() <= hay.len() && hay.subrange(i, i + needle.len()) == needle
}

/// `needle` occurs somewhere in `hay`.
pub open spec fn has_bytes(hay: Seq<u8>, needle: Seq<u8>) -> bool {
    exists|i: int| occurs_at(hay, needle, i)
}

/// "SRAM_V"
pub open spec fn tag_sram() -> Seq<u8> {
    seq![0x53u8, 0x52, 0x41, 0x4D, 0x5F, 0x56]
}

/// "SRAM_F_V"
pub open spec fn tag_sram_f() -> Seq<u8> {
    seq![0x53u8, 0x52, 0x41, 0x4D, 0x5F, 0x46, 0x5F, 0x56]
}

/// "FLASH1M_V"
pub open spec fn tag_flash1m() -> Seq<u8> {
    seq![0x46u8, 0x4C, 0x41, 0x53, 0x48, 0x31, 0x4D, 0x5F, 0x56]
}

/// "FLASH_V"
pub open spec fn tag_flash() -> Seq<u8> {
    seq![0x46u8, 0x4C, 0x41, 0x53, 0x48, 0x5F, 0x56]
}

/// "FLASH512_V"
pub open spec fn tag_flash512() -> Seq<u8> {
    seq![0x46u8, 0x4C, 0x41, 0x53, 0x48, 0x35, 0x31, 0x32, 0x5F, 0x56]
}

/// "EEPROM_V"
pub open spec fn tag_eeprom() -> Seq<u8> {
    seq![0x45u8, 0x45, 0x50, 0x52, 0x4F, 0x4D, 0x5F, 0x56]
}

/// The backup type that the ID strings in a ROM announce, checked in this order: SRAM,
/// 128K flash, 64K flash, EEPROM (8K above 16MB of ROM, else 512 bytes), none.
pub open spec fn detect_backup_spec(rom: Seq<u8>) -> BackupType {
    if has_bytes(rom, tag_sram()) || has_bytes(rom, tag_sram_f()) {
        BackupType::Sram
    } else if has_bytes(rom, tag_flash1m()) {
        BackupType::Flash128
    } else if has_bytes(rom, tag_flash()) || has_bytes(rom, tag_flash512()) {
        BackupType::Flash64
    } else if has_bytes(rom, tag_eeprom()) {
        if rom.len() > 16 * 1024 * 1024 {
            BackupType::Eeprom8K
        } else {
            BackupType::Eeprom512
        }
    } else {
        BackupType::NoBackup
    }
}

/// Whether `needle` occurs in `hay` at index `i`
fn matches_at(hay: &[u8], needle: &[u8], i: usize) -> (r: bool)
    requires
        i + needle@.len() <= hay@.len(),
    ensures
        r == occurs_at(hay@, needle@, i as int),
{
    let mut k: usize = 0;
    while k < needle.len()
        invariant
            i + needle@.len() <= hay@.len(),
            hay@.len() == hay.len(),
            k <= needle@.len(),
            forall|j: int| 0 <= j < k ==> hay@[i + j] == needle@[j],
        decreases needle@.len() - k,
    {
        if hay[i + k] != needle[k] {
            assert(hay@.subrange(i as int, i + needle@.len())[k as int] != needle@[k as int]);
            return false;
        }
        k = k + 1;
    }
    assert(hay@.subrange(i as int, i + needle@.len()) =~= needle@);
    true
}

/// Whether `needle` occurs anywhere in `hay`
fn contains_bytes(hay: &[u8], needle: &[u8]) -> (r: bool)
    ensures
        r == has_bytes(hay@, needle@),
{
    if needle.len() > hay.len() {
        return false;
    }
    let last = hay.len() - needle.len();
    let mut i: usize = 0;
    loop
        invariant
            i <= last,
            last + needle@.len() == hay@.len(),
            forall|j: int| 0 <= j < i ==> !occurs_at(hay@, needle@, j),
        decreases last - i,
    {
        if matches_at(hay, needle, i) {
            return true;
        }
        if i == last {
            assert forall|j: int| !occurs_at(hay@, needle@, j) by {
                if 0 <= j < i {
                } else if j == i {
                } else {
                }
            }
            return false;
        }
        i = i + 1;
    }
}

/// Detect backup type from ROM data (by scanning for ID strings)
pub fn detect_backup_type(rom: &[u8]) -> (b: BackupType)
    ensures
        b == detect_backup_spec(rom@),
{
    let sram_v: Vec<u8> = vec![0x53, 0x52, 0x41, 0x4D, 0x5F, 0x56];
    let sram_f_v: Vec<u8> = vec![0x53, 0x52, 0x41, 0x4D, 0x5F, 0x46, 0x5F, 0x56];
    let flash1m_v: Vec<u8> = vec![0x46, 0x4C, 0x41, 0x53, 0x48, 0x31, 0x4D, 0x5F, 0x56];
    let flash_v: Vec<u8> = vec![0x46, 0x4C, 0x41, 0x53, 0x48, 0x5F, 0x56];
    let flash512_v: Vec<u8> = vec![0x46, 0x4C, 0x41, 0x53, 0x48, 0x35, 0x31, 0x32, 0x5F, 0x56];
    let eeprom_v: Vec<u8> = vec![0x45, 0x45, 0x50, 0x52, 0x4F, 0x4D, 0x5F, 0x56];
    assert(sram_v@ =~= tag_sram());
    assert(sram_f_v@ =~= tag_sram_f());
    assert(flash1m_v@ =~= tag_flash1m());
    assert(flash_v@ =~= tag_flash());
    assert(flash512_v@ =~= tag_flash512());
    assert(eeprom_v@ =~= tag_eeprom());
    if contains_bytes(rom, sram_v.as_slice()) || contains_bytes(rom, sram_f_v.as_slice()) {
        BackupType::Sram
    } else if contains_bytes(rom, flash1m_v.as_slice()) {
        BackupType::Flash128
    } else if contains_bytes(rom, flash_v.as_slice()) || contains_bytes(rom, flash512_v.as_slice()) {
        BackupType::Flash64
    } else if contains_bytes(rom, eeprom_v.as_slice()) {
        // Distinguish EEPROM sizes based on ROM size
        if rom.len() > 16 * 1024 * 1024 {
            BackupType::Eeprom8K
        } else {
            BackupType::Eeprom512
        }
    } else {
        BackupType::NoBackup
    }
}

// =============================================================================
// Cartridge
// =============================================================================

/// What `String::from_utf8_lossy` makes of a byte sequence.
pub uninterp spec fn utf8_lossy(bytes: Seq<u8>) -> Seq<char>;

/// `String::from_utf8_lossy` (std), taken as an owned `String`: decodes UTF-8, putting
/// U+FFFD in place of invalid sequences. Claimed here: the result is `utf8_lossy` of the
/// bytes, and bytes that are all ASCII decode to the characters with the same codes.
#[verifier::external_body]
fn string_from_utf8_lossy(bytes: &[u8]) -> (s: String)
    ensures
        s@ == utf8_lossy(bytes@),
        (forall|i: int| 0 <= i < bytes@.len() ==> bytes@[i] < 0x80) ==> s@ == bytes@.map_values(
            |b: u8| b as char,
        ),
{
    String::from_utf8_lossy(bytes).into_owned()
}

/// `s` without its trailing zero bytes.
pub open spec fn trim_nul(s: Seq<u8>) -> Seq<u8>
    decreases s.len(),
{
    if s.len() > 0 && s.last() == 0 {
        trim_nul(s.drop_last())
    } else {
        s
    }
}

/// The header text stored in `rom[start..end]`: trailing NULs dropped, then decoded.
pub open spec fn header_text(rom: Seq<u8>, start: int, end: int) -> Seq<char> {
    utf8_lossy(trim_nul(rom.subrange(start, end)))
}

/// Every byte of `rom[start..end]` is ASCII.
pub open spec fn ascii_field(rom: Seq<u8>, start: int, end: int) -> bool {
    forall|i: int| start <= i < end ==> rom[i] < 0x80
}

/// The characters of an ASCII header field: its bytes without the trailing NULs, each
/// taken as the character with the same code.
pub open spec fn field_chars(rom: Seq<u8>, start: int, end: int) -> Seq<char> {
    trim_nul(rom.subrange(start, end)).map_values(|b: u8| b as char)
}

/// Decode a NUL-padded header field
fn header_field(rom: &[u8], start: usize, end: usize) -> (s: String)
    requires
        start <= end <= rom@.len(),
    ensures
        s@ == header_text(rom@, start as int, end as int),
        ascii_field(rom@, start as int, end as int) ==> s@ == field_chars(
            rom@,
            start as int,
            end as int,
        ),
{
    let field = vstd::slice::slice_subrange(rom, start, end);
    let mut n = field.len();
    assert(field@.subrange(0, field@.len() as int) =~= field@);
    while n > 0 && field[n - 1] == 0
        invariant
            start <= end <= rom@.len(),
            n <= field@.len(),
            field@ == rom@.subrange(start as int, end as int),
            trim_nul(field@.subrange(0, n as int)) == trim_nul(field@),
        decreases n,
    {
        assert(field@.subrange(0, n as int).drop_last() =~= field@.subrange(0, n - 1));
        n = n - 1;
    }
    let text = vstd::slice::slice_subrange(field, 0, n);
    string_from_utf8_lossy(text)
}

/// Cartridge state
#[derive(Debug, Clone)]
pub struct Cartridge {
    pub backup_type: BackupType,
    pub flash: Option<FlashState>,
    pub sram: Vec<u8>,
    pub title: String,
    pub game_code: String,
}

/// The flash chip that a backup type comes with: 64KB or 128KB for flash, none otherwise.
pub open spec fn flash_for(b: BackupType) -> Option<FlashView> {
    match b {
        BackupType::Flash64 => Some(flash_new(0x10000)),
        BackupType::Flash128 => Some(flash_new(0x20000)),
        _ => None,
    }
}

/// The cartridge that a ROM describes: the backup type its ID strings announce, the title
/// and game code of its header, a fresh flash chip for flash backups and 64KB of zeroed
/// SRAM for SRAM backups.
pub open spec fn cartridge_of(c: Cartridge, rom: Seq<u8>) -> bool {
    &&& c.backup_type == detect_backup_spec(rom)
    &&& c.title@ == header_text(rom, 0xA0, 0xAC)
    &&& c.game_code@ == header_text(rom, 0xAC, 0xB0)
    &&& ascii_field(rom, 0xA0, 0xAC) ==> c.title@ == field_chars(rom, 0xA0, 0xAC)
    &&& ascii_field(rom, 0xAC, 0xB0) ==> c.game_code@ == field_chars(rom, 0xAC, 0xB0)
    &&& c.flash.is_some() == flash_for(c.backup_type).is_some()
    &&& c.flash.is_some() ==> c.flash.unwrap()@ == flash_for(c.backup_type).unwrap()
    &&& c.sram@ == if c.backup_type == BackupType::Sram {
        Seq::new(0x10000, |i: int| 0u8)
    } else {
        Seq::empty()
    }
}

/// The save data of a cartridge: the SRAM, the flash contents, or nothing.
pub open spec fn save_data_spec(c: Cartridge) -> Seq<u8> {
    match c.backup_type {
        BackupType::Sram => c.sram@,
        BackupType::Flash64 | BackupType::Flash128 => match c.flash {
            Some(f) => f.data@,
            None => Seq::empty(),
        },
        _ => Seq::empty(),
    }
}

/// `dst` with its first bytes replaced by `src`, as far as both reach.
pub open spec fn overwrite_prefix(dst: Seq<u8>, src: Seq<u8>) -> Seq<u8> {
    Seq::new(dst.len(), |i: int| if i < src.len() { src[i] } else { dst[i] })
}

/// `d` is `c` after loading `data`: the SRAM or flash contents take the data over their
/// length, everything else stays.
pub open spec fn after_load(c: Cartridge, d: Cartridge, data: Seq<u8>) -> bool {
    &&& d.backup_type == c.backup_type
    &&& d.title@ == c.title@
    &&& d.game_code@ == c.game_code@
    &&& match c.backup_type {
        BackupType::Sram => d.sram@ == overwrite_prefix(c.sram@, data) && d.flash == c.flash,
        BackupType::Flash64 | BackupType::Flash128 => d.sram@ == c.sram@ && match c.flash {
            Some(f) => d.flash.is_some() && d.flash.unwrap()@ == (FlashView {
                data: overwrite_prefix(f.data@, data),
                ..f@
            }),
            None => d.flash.is_none(),
        },
        _ => d.sram@ == c.sram@ && d.flash == c.flash,
    }
}

/// Loading save data as long as the cartridge's save and exporting it gives the same
/// data back.
pub proof fn lemma_load_then_save(c: Cartridge, d: Cartridge, data: Seq<u8>)
    requires
        after_load(c, d, data),
        data.len() == save_data_spec(c).len(),
    ensures
        save_data_spec(d) == data,
{
    match c.backup_type {
        BackupType::Sram => {
            assert(d.sram@ =~= data);
        },
        BackupType::Flash64 | BackupType::Flash128 => {
            match c.flash {
                Some(f) => {
                    assert(d.flash.unwrap().data@ =~= data);
                },
                None => {
                    assert(data =~= Seq::<u8>::empty());
                },
            }
        },
        _ => {
            assert(data =~= Seq::<u8>::empty());
        },
    }
}

/// Copy `src` over the start of `dst`
pub(crate) fn copy_prefix(dst: &mut Vec<u8>, src: &[u8])
    ensures
        final(dst)@ == overwrite_prefix(old(dst)@, src@),
{
    let len = if src.len() < dst.len() {
        src.len()
    } else {
        dst.len()
    };
    let mut i: usize = 0;
    while i < len
        invariant
            len <= src@.len(),
            len <= dst@.len(),
            i <= len,
            dst@.len() == old(dst)@.len(),
            forall|j: int| 0 <= j < i ==> dst@[j] == src@[j],
            forall|j: int| i <= j < dst@.len() ==> dst@[j] == old(dst)@[j],
        decreases len - i,
    {
        dst.set(i, src[i]);
        i = i + 1;
    }
    assert(dst@ =~= overwrite_prefix(old(dst)@, src@));
}

impl Cartridge {
    pub fn from_rom(rom: &[u8]) -> (c: Self)
        requires
            rom@.len() >= 0xB0,
        ensures
            cartridge_of(c, rom@),
    {
        let backup_type = detect_backup_type(rom);
        // Read header info
        let title = header_field(rom, 0xA0, 0xAC);
        let game_code = header_field(rom, 0xAC, 0xB0);
        let flash = match backup_type {
            BackupType::Flash64 => Some(FlashState::new(0x10000)),
            BackupType::Flash128 => Some(FlashState::new(0x20000)),
            _ => None,
        };
        let sram = match backup_type {
            BackupType::Sram => vec![0u8; 0x10000],
            _ => Vec::new(),
        };
        assert(backup_type == BackupType::Sram ==> sram@ =~= Seq::new(0x10000, |i: int| 0u8));
        Self { backup_type, flash, sram, title, game_code }
    }

    /// Get save data for export
    pub fn get_save_data(&self) -> (v: Vec<u8>)
        ensures
            v@ == save_data_spec(*self),
    {
        match self.backup_type {
            BackupType::Sram => {
                let v = self.sram.clone();
                assert(v@ =~= self.sram@);
                v
            },
            BackupType::Flash64 | BackupType::Flash128 => match &self.flash {
                Some(f) => {
                    let v = f.data.clone();
                    assert(v@ =~= f.data@);
                    v
                },
                None => Vec::new(),
            },
            _ => Vec::new(),
        }
    }

    /// Load save data
    pub fn load_save_data(&mut self, data: &[u8])
        ensures
            after_load(*old(self), *final(self), data@),
    {
        match self.backup_type {
            BackupType::Sram => {
                copy_prefix(&mut self.sram, data);
            },
            BackupType::Flash64 | BackupType::Flash128 => {
                if let Some(flash) = &mut self.flash {
                    copy_prefix(&mut flash.data, data);
                }
            },
            _ => {},
        }
    }
}

} // verus!
