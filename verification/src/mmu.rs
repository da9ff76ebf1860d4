//! The memory map as the CPU sees it: boot ROM overlay, cartridge ROM with
//! a switchable bank, video RAM, cartridge RAM behind an enable switch,
//! work RAM and its echo, sprite attributes, I/O registers (the joypad at
//! 0xFF00), high RAM and the interrupt-enable register.
use vstd::prelude::*;
use vstd::array::spec_array_update;
use crate::input::Joypad;

verus! {

broadcast use {vstd::array::axiom_spec_array_update, vstd::array::axiom_array_ext_equal};

pub struct Mmu {
    pub rom: Vec<u8>,
    pub vram: [u8; 0x2000],
    pub eram: [u8; 0x2000],
    pub wram: [u8; 0x2000],
    pub oam: [u8; 0xA0],
    pub io: [u8; 0x80],
    pub hram: [u8; 0x7F],
    pub interrupt_enable: u8,
    pub rom_bank: u8,
    pub ram_bank: u8,
    pub ram_enabled: bool,
    pub mbc_type: u8,
    pub bios: Option<Vec<u8>>,
    pub in_bios: bool,
    pub joypad: Joypad,
}

/// The ROM bank that a write of `value` to 0x2000..=0x3FFF selects: the low
/// five bits, with bank 0 standing for bank 1.
pub open spec fn rom_bank_for(value: u8) -> u8 {
    if value % 32 == 0 {
        1
    } else {
        (value % 32) as u8
    }
}

/// The controller type named by the cartridge header byte at 0x147.
pub open spec fn mbc_for(header: int) -> u8 {
    if 0x01 <= header <= 0x03 {
        1
    } else if 0x0F <= header <= 0x13 {
        3
    } else {
        0
    }
}

/// The byte of `rom` at `i`, 0xFF past its end.
pub open spec fn rom_byte(rom: Seq<u8>, i: int) -> u8 {
    if 0 <= i < rom.len() {
        rom[i]
    } else {
        0xFF
    }
}

/// The address that byte `i` of a DMA transfer from page `start` is read from.
pub open spec fn dma_source(start: u8, i: int) -> u16 {
    (start * 0x100 + i) as u16
}

/// An all-zero memory block of `n` bytes.
pub open spec fn zeros(n: nat) -> Seq<u8> {
    Seq::new(n, |i: int| 0u8)
}

impl Mmu {
    /// A read of `addr` does not index past the end of the boot ROM.
    pub open spec fn readable(self, addr: u16) -> bool {
        match self.bios {
            Some(b) => !(self.in_bios && addr <= 0xFF && addr >= b.len()),
            None => true,
        }
    }

    /// The byte the CPU reads at `addr`.
    pub open spec fn read_spec(self, addr: u16) -> u8 {
        if addr <= 0x00FF && self.in_bios {
            match self.bios {
                Some(b) => b@[addr as int],
                None => 0xFF,
            }
        } else if addr <= 0x3FFF {
            rom_byte(self.rom@, addr as int)
        } else if addr <= 0x7FFF {
            rom_byte(self.rom@, self.rom_bank * 0x4000 + (addr - 0x4000))
        } else if addr <= 0x9FFF {
            self.vram@[addr - 0x8000]
        } else if addr <= 0xBFFF {
            if self.ram_enabled {
                self.eram@[addr - 0xA000]
            } else {
                0xFF
            }
        } else if addr <= 0xDFFF {
            self.wram@[addr - 0xC000]
        } else if addr <= 0xFDFF {
            self.wram@[addr - 0xE000]
        } else if addr <= 0xFE9F {
            self.oam@[addr - 0xFE00]
        } else if addr <= 0xFEFF {
            0xFF
        } else if addr == 0xFF00 {
            self.joypad.register_value()
        } else if addr <= 0xFF7F {
            self.io@[addr - 0xFF00]
        } else if addr <= 0xFFFE {
            self.hram@[addr - 0xFF80]
        } else {
            self.interrupt_enable
        }
    }

    /// The memory after the CPU writes `value` at `addr`. Writes to the ROM
    /// area drive the bank controller; writes to cartridge RAM need it enabled.
    pub open spec fn write_spec(self, addr: u16, value: u8) -> Mmu {
        if addr <= 0x1FFF {
            Mmu { ram_enabled: value % 16 == 0x0A, ..self }
        } else if addr <= 0x3FFF {
            Mmu { rom_bank: rom_bank_for(value), ..self }
        } else if addr <= 0x5FFF {
            Mmu { ram_bank: (value % 4) as u8, ..self }
        } else if addr <= 0x7FFF {
            self
        } else if addr <= 0x9FFF {
            Mmu { vram: spec_array_update(self.vram, addr - 0x8000, value), ..self }
        } else if addr <= 0xBFFF {
            if self.ram_enabled {
                Mmu { eram: spec_array_update(self.eram, addr - 0xA000, value), ..self }
            } else {
                self
            }
        } else if addr <= 0xDFFF {
            Mmu { wram: spec_array_update(self.wram, addr - 0xC000, value), ..self }
        } else if addr <= 0xFDFF {
            Mmu { wram: spec_array_update(self.wram, addr - 0xE000, value), ..self }
        } else if addr <= 0xFE9F {
            Mmu { oam: spec_array_update(self.oam, addr - 0xFE00, value), ..self }
        } else if addr <= 0xFEFF {
            self
        } else if addr == 0xFF00 {
            Mmu { joypad: self.joypad.written(value), ..self }
        } else if addr <= 0xFF7F {
            Mmu { io: spec_array_update(self.io, addr - 0xFF00, value), ..self }
        } else if addr <= 0xFFFE {
            Mmu { hram: spec_array_update(self.hram, addr - 0xFF80, value), ..self }
        } else {
            Mmu { interrupt_enable: value, ..self }
        }
    }

    /// The little-endian word the CPU reads at `addr` (the second byte at
    /// `addr + 1`, wrapping).
    pub open spec fn read_word_spec(self, addr: u16) -> int {
        self.read_spec(addr) + 256 * self.read_spec(((addr + 1) % 0x10000) as u16)
    }

    pub fn new(joypad: Joypad) -> (m: Self)
        ensures
            m.rom@ == zeros(0x8000),
            m.vram@ == zeros(0x2000),
            m.eram@ == zeros(0x2000),
            m.wram@ == zeros(0x2000),
            m.oam@ == zeros(0xA0),
            m.io@ == zeros(0x80),
            m.hram@ == zeros(0x7F),
            m.interrupt_enable == 0,
            m.rom_bank == 0,
            m.ram_bank == 0,
            !m.ram_enabled,
            m.mbc_type == 0,
            m.bios is None,
            m.in_bios,
            m.joypad == joypad,
    {
        let m = Self {
            rom: vec![0u8; 0x8000],
            vram: [0u8; 0x2000],
            eram: [0u8; 0x2000],
            wram: [0u8; 0x2000],
            oam: [0u8; 0xA0],
            io: [0u8; 0x80],
            hram: [0u8; 0x7F],
            interrupt_enable: 0,
            rom_bank: 0,
            ram_bank: 0,
            ram_enabled: false,
            mbc_type: 0,
            bios: None,
            in_bios: true,
            joypad,
        };
        assert(m.rom@ =~= zeros(0x8000));
        assert(m.vram@ =~= zeros(0x2000));
        assert(m.eram@ =~= zeros(0x2000));
        assert(m.wram@ =~= zeros(0x2000));
        assert(m.oam@ =~= zeros(0xA0));
        assert(m.io@ =~= zeros(0x80));
        assert(m.hram@ =~= zeros(0x7F));
        m
    }

    /// Clears all RAM and returns the bank controller and boot overlay to
    /// their power-on state; the cartridge, boot ROM and joypad stay.
    pub fn reset(&mut self)
        ensures
            final(self).vram@ == zeros(0x2000),
            final(self).eram@ == zeros(0x2000),
            final(self).wram@ == zeros(0x2000),
            final(self).oam@ == zeros(0xA0),
            final(self).io@ == zeros(0x80),
            final(self).hram@ == zeros(0x7F),
            final(self).interrupt_enable == 0,
            final(self).rom_bank == 1,
            final(self).ram_bank == 0,
            !final(self).ram_enabled,
            final(self).in_bios,
            final(self).mbc_type == 0,
            final(self).rom == old(self).rom,
            final(self).bios == old(self).bios,
            final(self).joypad == old(self).joypad,
    {
        self.vram = [0u8; 0x2000];
        self.eram = [0u8; 0x2000];
        self.wram = [0u8; 0x2000];
        self.oam = [0u8; 0xA0];
        self.io = [0u8; 0x80];
        self.hram = [0u8; 0x7F];
        self.interrupt_enable = 0;

        self.rom_bank = 1;
        self.ram_bank = 0;
        self.ram_enabled = false;
        self.in_bios = true;
        self.mbc_type = 0;
        assert(self.vram@ =~= zeros(0x2000));
        assert(self.eram@ =~= zeros(0x2000));
        assert(self.wram@ =~= zeros(0x2000));
        assert(self.oam@ =~= zeros(0xA0));
        assert(self.io@ =~= zeros(0x80));
        assert(self.hram@ =~= zeros(0x7F));
    }

    /// Inserts a cartridge; the controller type comes from header byte 0x147
    /// (0 when the image is shorter).
    pub fn load_rom(&mut self, data: Vec<u8>)
        ensures
            *final(self) == (Mmu {
                rom: data,
                mbc_type: mbc_for(
                    if 0x147 < data@.len() {
                        data@[0x147] as int
                    } else {
                        0
                    },
                ),
                ..*old(self)
            }),
    {
        self.rom = data;
        let header: u8 = if 0x147 < self.rom.len() {
            self.rom[0x147]
        } else {
            0
        };
        self.mbc_type = match header {
            0x01..=0x03 => 1,
            0x0F..=0x13 => 3,
            _ => 0,
        };
    }

    /// Installs a boot ROM and maps it over the start of the cartridge.
    pub fn load_bios(&mut self, bios: Vec<u8>)
        ensures
            *final(self) == (Mmu { bios: Some(bios), in_bios: true, ..*old(self) }),
    {
        self.bios = Some(bios);
        self.in_bios = true;
    }

    pub fn read_byte(&self, addr: u16) -> (r: u8)
        requires
            self.readable(addr),
        ensures
            r == self.read_spec(addr),
    {
        match addr {
            0x0000..=0x00FF if self.in_bios => {
                match &self.bios {
                    Some(b) => b[addr as usize],
                    None => 0xFF,
                }
            },
            0x0000..=0x3FFF => {
                if (addr as usize) < self.rom.len() {
                    self.rom[addr as usize]
                } else {
                    0xFF
                }
            },
            0x4000..=0x7FFF => {
                let bank_offset: usize = (self.rom_bank as usize) * 0x4000;
                let i: usize = bank_offset + (addr as usize - 0x4000);
                if i < self.rom.len() {
                    self.rom[i]
                } else {
                    0xFF
                }
            },
            0x8000..=0x9FFF => self.vram[(addr - 0x8000) as usize],
            0xA000..=0xBFFF => {
                if self.ram_enabled {
                    self.eram[(addr - 0xA000) as usize]
                } else {
                    0xFF
                }
            },
            0xC000..=0xDFFF => self.wram[(addr - 0xC000) as usize],
            0xE000..=0xFDFF => self.wram[(addr - 0xE000) as usize],
            0xFE00..=0xFE9F => self.oam[(addr - 0xFE00) as usize],
            0xFEA0..=0xFEFF => 0xFF,
            0xFF00 => self.joypad.read_joypad(),
            0xFF01..=0xFF7F => self.io[(addr - 0xFF00) as usize],
            0xFF80..=0xFFFE => self.hram[(addr - 0xFF80) as usize],
            0xFFFF => self.interrupt_enable,
        }
    }

    pub fn write_byte(&mut self, addr: u16, value: u8)
        ensures
            *final(self) == old(self).write_spec(addr, value),
    {
        let ghost m0: Mmu = *self;
        match addr {
            0x0000..=0x1FFF => self.enable_ram(value),
            0x2000..=0x3FFF => self.switch_rom_bank(value),
            0x4000..=0x5FFF => self.switch_ram_bank(value),
            0x8000..=0x9FFF => {
                self.vram[(addr - 0x8000) as usize] = value;
                assert(self.vram =~= spec_array_update(m0.vram, addr - 0x8000, value));
            },
            0xA000..=0xBFFF => {
                if self.ram_enabled {
                    self.eram[(addr - 0xA000) as usize] = value;
                    assert(self.eram =~= spec_array_update(m0.eram, addr - 0xA000, value));
                }
            },
            0xC000..=0xDFFF => {
                self.wram[(addr - 0xC000) as usize] = value;
                assert(self.wram =~= spec_array_update(m0.wram, addr - 0xC000, value));
            },
            0xE000..=0xFDFF => {
                self.wram[(addr - 0xE000) as usize] = value;
                assert(self.wram =~= spec_array_update(m0.wram, addr - 0xE000, value));
            },
            0xFE00..=0xFE9F => {
                self.oam[(addr - 0xFE00) as usize] = value;
                assert(self.oam =~= spec_array_update(m0.oam, addr - 0xFE00, value));
            },
            0xFEA0..=0xFEFF => {},
            0xFF00 => self.joypad.write_joypad(value),
            0xFF01..=0xFF7F => {
                self.io[(addr - 0xFF00) as usize] = value;
                assert(self.io =~= spec_array_update(m0.io, addr - 0xFF00, value));
            },
            0xFF80..=0xFFFE => {
                self.hram[(addr - 0xFF80) as usize] = value;
                assert(self.hram =~= spec_array_update(m0.hram, addr - 0xFF80, value));
            },
            0xFFFF => self.interrupt_enable = value,
            _ => {},
        }
    }

    pub fn read_word(&self, addr: u16) -> (r: u16)
        requires
            self.readable(addr),
            self.readable(addr.wrapping_add(1)),
        ensures
            r == self.read_word_spec(addr),
    {
        let lo: u16 = self.read_byte(addr) as u16;
        let hi: u16 = self.read_byte(addr.wrapping_add(1)) as u16;
        assert((hi << 8u16) | lo == hi * 256 + lo) by (bit_vector)
            requires
                hi < 256,
                lo < 256,
        ;
        (hi << 8) | lo
    }

    pub fn write_word(&mut self, addr: u16, value: u16)
        ensures
            *final(self) == old(self).write_spec(addr, (value % 256) as u8).write_spec(
                ((addr + 1) % 0x10000) as u16,
                (value / 256) as u8,
            ),
    {
        assert(value as u8 == value % 256 && (value >> 8u16) as u8 == value / 256) by (bit_vector);
        self.write_byte(addr, value as u8);
        self.write_byte(addr.wrapping_add(1), (value >> 8) as u8);
    }

    /// Cartridge RAM is enabled by a write whose low nibble is 0xA.
    pub fn enable_ram(&mut self, value: u8)
        ensures
            *final(self) == (Mmu { ram_enabled: value % 16 == 0x0A, ..*old(self) }),
    {
        assert(value & 0x0F == value % 16) by (bit_vector);
        self.ram_enabled = (value & 0x0F) == 0x0A;
    }

    pub fn switch_rom_bank(&mut self, value: u8)
        ensures
            *final(self) == (Mmu { rom_bank: rom_bank_for(value), ..*old(self) }),
    {
        let bank: u8 = value & 0x1F;
        assert(value & 0x1F == value % 32) by (bit_vector);
        self.rom_bank = if bank == 0 {
            1
        } else {
            bank
        };
    }

    pub fn switch_ram_bank(&mut self, value: u8)
        ensures
            *final(self) == (Mmu { ram_bank: (value % 4) as u8, ..*old(self) }),
    {
        assert(value & 0x03 == value % 4) by (bit_vector);
        self.ram_bank = value & 0x03;
    }

    /// Copies the 160 bytes at `start * 0x100` into sprite attribute memory.
    pub fn dma_transfer(&mut self, start: u8)
        requires
            forall|i: int| 0 <= i < 0xA0 ==> old(self).readable(#[trigger] dma_source(start, i)),
        ensures
            final(self).oam@ == Seq::new(
                0xA0,
                |i: int| old(self).read_spec(dma_source(start, i)),
            ),
            *final(self) == (Mmu { oam: final(self).oam, ..*old(self) }),
    {
        let ghost m0: Mmu = *self;
        let base: u16 = (start as u16) << 8;
        assert(base == start * 0x100) by (bit_vector)
            requires
                base == (start as u16) << 8u16,
        ;
        let mut i: u16 = 0;
        while i < 0xA0
            invariant
                i <= 0xA0,
                base == start * 0x100,
                *self == (Mmu { oam: self.oam, ..m0 }),
                forall|j: int| 0 <= j < 0xA0 ==> m0.readable(#[trigger] dma_source(start, j)),
                forall|j: int| 0 <= j < i ==> self.oam@[j] == m0.read_spec(#[trigger] dma_source(start, j)),
                forall|j: int| i <= j < 0xA0 ==> #[trigger] self.oam@[j] == m0.oam@[j],
            decreases 0xA0 - i,
        {
            assert(base + i == dma_source(start, i as int));
            assert(m0.readable(dma_source(start, i as int)));
            let byte: u8 = self.read_byte(base + i);
            assert(byte == m0.read_spec(dma_source(start, i as int)));
            self.oam[i as usize] = byte;
            i += 1;
        }
        assert(self.oam@ =~= Seq::new(0xA0, |j: int| m0.read_spec(dma_source(start, j))));
    }
}

impl Mmu {
    /// The byte of RAM that `addr` names, as (block, offset), where the
    /// address is backed by memory that keeps what is written: 0 video RAM,
    /// 1 cartridge RAM (while enabled), 2 work RAM (also through its echo at
    /// 0xE000), 3 sprite attributes, 4 I/O registers, 5 high RAM, 6 the
    /// interrupt-enable register.
    pub open spec fn ram_cell(self, addr: u16) -> Option<(int, int)> {
        if 0x8000 <= addr <= 0x9FFF {
            Some((0, addr - 0x8000))
        } else if 0xA000 <= addr <= 0xBFFF && self.ram_enabled {
            Some((1, addr - 0xA000))
        } else if 0xC000 <= addr <= 0xDFFF {
            Some((2, addr - 0xC000))
        } else if 0xE000 <= addr <= 0xFDFF {
            Some((2, addr - 0xE000))
        } else if 0xFE00 <= addr <= 0xFE9F {
            Some((3, addr - 0xFE00))
        } else if 0xFF01 <= addr <= 0xFF7F {
            Some((4, addr - 0xFF00))
        } else if 0xFF80 <= addr <= 0xFFFE {
            Some((5, addr - 0xFF80))
        } else if addr == 0xFFFF {
            Some((6, 0))
        } else {
            None
        }
    }
}

/// A byte written to RAM is read back.
pub proof fn lemma_read_after_write(m: Mmu, addr: u16, value: u8)
    requires
        m.ram_cell(addr) is Some,
    ensures
        m.write_spec(addr, value).read_spec(addr) == value,
{
}

/// A write to RAM changes no other byte the CPU can read.
pub proof fn lemma_write_leaves_others(m: Mmu, a: u16, b: u16, value: u8)
    requires
        m.ram_cell(b) is Some,
        m.ram_cell(a) != m.ram_cell(b),
    ensures
        m.write_spec(b, value).read_spec(a) == m.read_spec(a),
{
}

/// 0xE000..=0xFDFF mirrors work RAM: both addresses read, and are written
/// as, the same byte.
pub proof fn lemma_echo_ram(m: Mmu, a: u16)
    requires
        0xC000 <= a <= 0xDDFF,
    ensures
        m.read_spec((a + 0x2000) as u16) == m.read_spec(a),
        m.ram_cell((a + 0x2000) as u16) == m.ram_cell(a),
{
}

/// A word written to two RAM bytes is read back.
pub proof fn lemma_word_roundtrip(m: Mmu, addr: u16, value: u16)
    requires
        m.ram_cell(addr) is Some,
        m.ram_cell(((addr + 1) % 0x10000) as u16) is Some,
        m.ram_cell(addr) != m.ram_cell(((addr + 1) % 0x10000) as u16),
    ensures
        m.write_spec(addr, (value % 256) as u8).write_spec(
            ((addr + 1) % 0x10000) as u16,
            (value / 256) as u8,
        ).read_word_spec(addr) == value,
{
    let next: u16 = ((addr + 1) % 0x10000) as u16;
    let m1 = m.write_spec(addr, (value % 256) as u8);
    lemma_read_after_write(m, addr, (value % 256) as u8);
    assert(m1.ram_cell(next) == m.ram_cell(next));
    assert(m1.ram_cell(addr) == m.ram_cell(addr));
    lemma_read_after_write(m1, next, (value / 256) as u8);
    lemma_write_leaves_others(m1, addr, next, (value / 256) as u8);
}

/// A write of `value` to 0x2000..=0x3FFF selects ROM bank `value & 0x1F`
/// (0 meaning 1), so every bank from 1 to 31 can be selected, and the area
/// 0x4000..=0x7FFF then reads that bank of the cartridge (0xFF past its end).
pub proof fn lemma_rom_bank_switch(m: Mmu, addr: u16, value: u8, k: u16)
    requires
        0x2000 <= addr <= 0x3FFF,
        k < 0x4000,
    ensures
        ({
            let bank: int = if value & 0x1F == 0 {
                1
            } else {
                (value & 0x1F) as int
            };
            let m2 = m.write_spec(addr, value);
            &&& m2.rom_bank == bank
            &&& 1 <= value < 32 ==> m2.rom_bank == value
            &&& m2.read_spec((0x4000 + k) as u16) == if bank * 0x4000 + k < m.rom@.len() {
                m.rom@[bank * 0x4000 + k]
            } else {
                0xFF
            }
        }),
{
    assert(value & 0x1F == value % 32) by (bit_vector);
    assert(1 <= value < 32 ==> value & 0x1F == value) by (bit_vector);
}

/// Cartridge RAM reads 0xFF and ignores writes until a value with low
/// nibble 0xA is written to 0x0000..=0x1FFF.
pub proof fn lemma_cartridge_ram_gate(m: Mmu, a: u16, value: u8, enable: u16)
    requires
        0xA000 <= a <= 0xBFFF,
        enable <= 0x1FFF,
    ensures
        !m.ram_enabled ==> m.read_spec(a) == 0xFF && m.write_spec(a, value) == m,
        m.write_spec(enable, 0x0A).ram_enabled,
        m.write_spec(enable, value).ram_enabled == (value & 0x0F == 0x0A),
        m.ram_enabled ==> m.read_spec(a) == m.eram@[a - 0xA000],
{
    assert(value & 0x0F == value % 16) by (bit_vector);
}

/// The joypad register reads back the key groups selected by a write.
pub proof fn lemma_joypad_register(m: Mmu, value: u8)
    ensures
        m.write_spec(0xFF00, value).read_spec(0xFF00) & 0x30 == value & 0x30,
        m.write_spec(0xFF00, value).read_spec(0xFF00) >= 0xC0,
{
    crate::input::lemma_register_selection(m.joypad, value);
}


/// A write to 0x4000..=0x5FFF selects RAM bank `value & 0x03`; writes to
/// 0x6000..=0x7FFF and to 0xFEA0..=0xFEFF change nothing, and the latter
/// area reads 0xFF.
pub proof fn lemma_ignored_and_bank_writes(m: Mmu, addr: u16, value: u8)
    ensures
        0x4000 <= addr <= 0x5FFF ==> m.write_spec(addr, value).ram_bank == value & 0x03,
        0x6000 <= addr <= 0x7FFF ==> m.write_spec(addr, value) == m,
        0xFEA0 <= addr <= 0xFEFF ==> m.write_spec(addr, value) == m && m.read_spec(addr) == 0xFF,
{
    assert(value & 0x03 == value % 4) by (bit_vector);
}

/// While the boot ROM is mapped, 0x0000..=0x00FF reads the boot ROM (0xFF
/// when none is loaded); otherwise 0x0000..=0x3FFF reads the cartridge's
/// first bank (0xFF past the end of the image).
pub proof fn lemma_boot_overlay(m: Mmu, addr: u16)
    requires
        addr <= 0x3FFF,
    ensures
        m.in_bios && addr <= 0xFF ==> m.read_spec(addr) == match m.bios {
            Some(b) => b@[addr as int],
            None => 0xFFu8,
        },
        !(m.in_bios && addr <= 0xFF) ==> m.read_spec(addr) == if (addr as int) < m.rom@.len() {
            m.rom@[addr as int]
        } else {
            0xFFu8
        },
{
}

/// Words are little endian: the low byte is at `addr`, the high byte at
/// `addr + 1`; a word written to two RAM bytes puts its low byte first.
pub proof fn lemma_word_little_endian(m: Mmu, addr: u16, value: u16)
    ensures
        m.read_word_spec(addr) % 256 == m.read_spec(addr),
        m.read_word_spec(addr) / 256 == m.read_spec(((addr + 1) % 0x10000) as u16),
        m.ram_cell(addr) is Some ==> m.write_spec(addr, (value % 256) as u8).read_spec(addr)
            == value % 256,
{
}

} // verus!
