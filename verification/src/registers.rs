//! The eight-bit register file of the Game Boy CPU (a Z80-like design),
//! its sixteen-bit register pairs and the four flags kept in `F`.
use vstd::prelude::*;

verus! {

/// Bit of the zero flag in `F`.
pub const FLAG_Z: u8 = 0x80;

/// Bit of the subtract flag in `F`.
pub const FLAG_N: u8 = 0x40;

/// Bit of the half-carry flag in `F`.
pub const FLAG_H: u8 = 0x20;

/// Bit of the carry flag in `F`.
pub const FLAG_C: u8 = 0x10;

pub struct Registers {
    pub a: u8,
    pub f: u8,
    pub b: u8,
    pub c: u8,
    pub d: u8,
    pub e: u8,
    pub h: u8,
    pub l: u8,
}

#[derive(Debug, Copy, Clone, PartialEq, Eq, Structural)]
pub enum Register8 {
    A,
    F,
    B,
    C,
    D,
    E,
    H,
    L,
}

#[derive(Debug, Copy, Clone, PartialEq, Eq, Structural)]
pub enum Register16 {
    AF,
    BC,
    DE,
    HL,
}

/// The sixteen-bit value whose high byte is `hi` and whose low byte is `lo`.
pub open spec fn word(hi: u8, lo: u8) -> int {
    hi * 256 + lo
}

/// The high byte of a sixteen-bit value.
pub open spec fn high_byte(v: u16) -> u8 {
    (v / 256) as u8
}

/// The low byte of a sixteen-bit value.
pub open spec fn low_byte(v: u16) -> u8 {
    (v % 256) as u8
}

/// Only the upper four bits of `F` exist in hardware.
pub open spec fn flag_bits(v: u8) -> u8 {
    (v - v % 16) as u8
}

pub open spec fn flag_z(f: u8) -> bool {
    f & FLAG_Z != 0
}

pub open spec fn flag_n(f: u8) -> bool {
    f & FLAG_N != 0
}

pub open spec fn flag_h(f: u8) -> bool {
    f & FLAG_H != 0
}

pub open spec fn flag_c(f: u8) -> bool {
    f & FLAG_C != 0
}

pub proof fn lemma_word_bits(hi: u8, lo: u8)
    ensures
        ((hi as u16) << 8u16) | (lo as u16) == word(hi, lo),
        word(hi, lo) <= 0xFFFF,
{
    assert(((hi as u16) << 8u16) | (lo as u16) == (hi as u16) * 256 + (lo as u16)) by (bit_vector);
}

pub proof fn lemma_split_bits(v: u16)
    ensures
        (v >> 8u16) as u8 == high_byte(v),
        v as u8 == low_byte(v),
        (v & 0xF0) as u8 == flag_bits(low_byte(v)),
{
    assert((v >> 8u16) as u8 == v / 256) by (bit_vector);
    assert(v as u8 == v % 256) by (bit_vector);
    assert((v & 0xF0) as u8 == (v % 256) - (v % 256) % 16) by (bit_vector);
}

pub proof fn lemma_flag_bits(v: u8)
    ensures
        v & 0xF0 == flag_bits(v),
{
    assert(v & 0xF0 == v - v % 16) by (bit_vector);
}

impl Registers {
    /// The pair `AF`; the low nibble of `F` reads as zero.
    pub open spec fn af(self) -> int {
        word(self.a, flag_bits(self.f))
    }

    pub open spec fn bc(self) -> int {
        word(self.b, self.c)
    }

    pub open spec fn de(self) -> int {
        word(self.d, self.e)
    }

    pub open spec fn hl(self) -> int {
        word(self.h, self.l)
    }

    pub open spec fn with_af(self, v: u16) -> Registers {
        Registers { a: high_byte(v), f: flag_bits(low_byte(v)), ..self }
    }

    pub open spec fn with_bc(self, v: u16) -> Registers {
        Registers { b: high_byte(v), c: low_byte(v), ..self }
    }

    pub open spec fn with_de(self, v: u16) -> Registers {
        Registers { d: high_byte(v), e: low_byte(v), ..self }
    }

    pub open spec fn with_hl(self, v: u16) -> Registers {
        Registers { h: high_byte(v), l: low_byte(v), ..self }
    }

    /// What `get_8` reads from the register `reg`.
    pub open spec fn reg8(self, reg: Register8) -> u8 {
        match reg {
            Register8::A => self.a,
            Register8::F => flag_bits(self.f),
            Register8::B => self.b,
            Register8::C => self.c,
            Register8::D => self.d,
            Register8::E => self.e,
            Register8::H => self.h,
            Register8::L => self.l,
        }
    }

    /// The registers after `set_8` writes `v` into `reg`.
    pub open spec fn with_reg8(self, reg: Register8, v: u8) -> Registers {
        match reg {
            Register8::A => Registers { a: v, ..self },
            Register8::F => Registers { f: flag_bits(v), ..self },
            Register8::B => Registers { b: v, ..self },
            Register8::C => Registers { c: v, ..self },
            Register8::D => Registers { d: v, ..self },
            Register8::E => Registers { e: v, ..self },
            Register8::H => Registers { h: v, ..self },
            Register8::L => Registers { l: v, ..self },
        }
    }

    /// `F` with the flag bit `mask` set to `v`, the other bits kept.
    pub open spec fn with_flag(self, mask: u8, v: bool) -> Registers {
        Registers { f: if v { self.f | mask } else { self.f & !mask }, ..self }
    }

    // === AF ===
    pub fn get_af(&self) -> (r: u16)
        ensures
            r == self.af(),
    {
        proof {
            lemma_flag_bits(self.f);
            lemma_word_bits(self.a, flag_bits(self.f));
        }
        ((self.a as u16) << 8) | ((self.f & 0xF0) as u16)
    }

    pub fn set_af(&mut self, value: u16)
        ensures
            *final(self) == old(self).with_af(value),
    {
        proof {
            lemma_split_bits(value);
        }
        self.a = (value >> 8) as u8;
        self.f = (value & 0xF0) as u8;
    }

    // === BC ===
    pub fn get_bc(&self) -> (r: u16)
        ensures
            r == self.bc(),
    {
        proof {
            lemma_word_bits(self.b, self.c);
        }
        ((self.b as u16) << 8) | (self.c as u16)
    }

    pub fn set_bc(&mut self, value: u16)
        ensures
            *final(self) == old(self).with_bc(value),
    {
        proof {
            lemma_split_bits(value);
        }
        self.b = (value >> 8) as u8;
        self.c = value as u8;
    }

    // === DE ===
    pub fn get_de(&self) -> (r: u16)
        ensures
            r == self.de(),
    {
        proof {
            lemma_word_bits(self.d, self.e);
        }
        ((self.d as u16) << 8) | (self.e as u16)
    }

    pub fn set_de(&mut self, value: u16)
        ensures
            *final(self) == old(self).with_de(value),
    {
        proof {
            lemma_split_bits(value);
        }
        self.d = (value >> 8) as u8;
        self.e = value as u8;
    }

    // === HL ===
    pub fn get_hl(&self) -> (r: u16)
        ensures
            r == self.hl(),
    {
        proof {
            lemma_word_bits(self.h, self.l);
        }
        ((self.h as u16) << 8) | (self.l as u16)
    }

    pub fn set_hl(&mut self, value: u16)
        ensures
            *final(self) == old(self).with_hl(value),
    {
        proof {
            lemma_split_bits(value);
        }
        self.h = (value >> 8) as u8;
        self.l = value as u8;
    }

    // === Single registers ===
    pub fn get_a(&self) -> (r: u8)
        ensures
            r == self.a,
    {
        self.a
    }

    pub fn set_a(&mut self, value: u8)
        ensures
            *final(self) == (Registers { a: value, ..*old(self) }),
    {
        self.a = value;
    }

    /// Only the upper four bits of `F` are meaningful.
    pub fn get_f(&self) -> (r: u8)
        ensures
            r == flag_bits(self.f),
    {
        proof {
            lemma_flag_bits(self.f);
        }
        self.f & 0xF0
    }

    pub fn set_f(&mut self, value: u8)
        ensures
            *final(self) == (Registers { f: flag_bits(value), ..*old(self) }),
    {
        proof {
            lemma_flag_bits(value);
        }
        self.f = value & 0xF0;
    }

    pub fn get_b(&self) -> (r: u8)
        ensures
            r == self.b,
    {
        self.b
    }

    pub fn set_b(&mut self, value: u8)
        ensures
            *final(self) == (Registers { b: value, ..*old(self) }),
    {
        self.b = value;
    }

    pub fn get_c(&self) -> (r: u8)
        ensures
            r == self.c,
    {
        self.c
    }

    pub fn set_c(&mut self, value: u8)
        ensures
            *final(self) == (Registers { c: value, ..*old(self) }),
    {
        self.c = value;
    }

    pub fn get_d(&self) -> (r: u8)
        ensures
            r == self.d,
    {
        self.d
    }

    pub fn set_d(&mut self, value: u8)
        ensures
            *final(self) == (Registers { d: value, ..*old(self) }),
    {
        self.d = value;
    }

    pub fn get_e(&self) -> (r: u8)
        ensures
            r == self.e,
    {
        self.e
    }

    pub fn set_e(&mut self, value: u8)
        ensures
            *final(self) == (Registers { e: value, ..*old(self) }),
    {
        self.e = value;
    }

    pub fn get_h(&self) -> (r: u8)
        ensures
            r == self.h,
    {
        self.h
    }

    pub fn set_h(&mut self, value: u8)
        ensures
            *final(self) == (Registers { h: value, ..*old(self) }),
    {
        self.h = value;
    }

    pub fn get_l(&self) -> (r: u8)
        ensures
            r == self.l,
    {
        self.l
    }

    pub fn set_l(&mut self, value: u8)
        ensures
            *final(self) == (Registers { l: value, ..*old(self) }),
    {
        self.l = value;
    }

    // ===================== FLAGS =====================
    pub fn get_flag_z(&self) -> (r: bool)
        ensures
            r == flag_z(self.f),
    {
        self.f & 0b1000_0000 != 0
    }

    pub fn get_flag_n(&self) -> (r: bool)
        ensures
            r == flag_n(self.f),
    {
        self.f & 0b0100_0000 != 0
    }

    pub fn get_flag_h(&self) -> (r: bool)
        ensures
            r == flag_h(self.f),
    {
        self.f & 0b0010_0000 != 0
    }

    pub fn get_flag_c(&self) -> (r: bool)
        ensures
            r == flag_c(self.f),
    {
        self.f & 0b0001_0000 != 0
    }

    pub fn set_flag_z(&mut self, value: bool)
        ensures
            *final(self) == old(self).with_flag(FLAG_Z, value),
            flag_z(final(self).f) == value,
            flag_n(final(self).f) == flag_n(old(self).f),
            flag_h(final(self).f) == flag_h(old(self).f),
            flag_c(final(self).f) == flag_c(old(self).f),
    {
        let ghost f0: u8 = self.f;
        if value {
            self.f |= 0b1000_0000;
        } else {
            self.f &= !0b1000_0000u8;
        }
        proof {
            lemma_flag_update(f0);
        }
    }

    pub fn set_flag_n(&mut self, value: bool)
        ensures
            *final(self) == old(self).with_flag(FLAG_N, value),
            flag_n(final(self).f) == value,
            flag_z(final(self).f) == flag_z(old(self).f),
            flag_h(final(self).f) == flag_h(old(self).f),
            flag_c(final(self).f) == flag_c(old(self).f),
    {
        let ghost f0: u8 = self.f;
        if value {
            self.f |= 0b0100_0000;
        } else {
            self.f &= !0b0100_0000u8;
        }
        proof {
            lemma_flag_update(f0);
        }
    }

    pub fn set_flag_h(&mut self, value: bool)
        ensures
            *final(self) == old(self).with_flag(FLAG_H, value),
            flag_h(final(self).f) == value,
            flag_z(final(self).f) == flag_z(old(self).f),
            flag_n(final(self).f) == flag_n(old(self).f),
            flag_c(final(self).f) == flag_c(old(self).f),
    {
        let ghost f0: u8 = self.f;
        if value {
            self.f |= 0b0010_0000;
        } else {
            self.f &= !0b0010_0000u8;
        }
        proof {
            lemma_flag_update(f0);
        }
    }

    pub fn set_flag_c(&mut self, value: bool)
        ensures
            *final(self) == old(self).with_flag(FLAG_C, value),
            flag_c(final(self).f) == value,
            flag_z(final(self).f) == flag_z(old(self).f),
            flag_n(final(self).f) == flag_n(old(self).f),
            flag_h(final(self).f) == flag_h(old(self).f),
    {
        let ghost f0: u8 = self.f;
        if value {
            self.f |= 0b0001_0000;
        } else {
            self.f &= !0b0001_0000u8;
        }
        proof {
            lemma_flag_update(f0);
        }
    }

    // ======= 8-bit access by name ======= //
    pub fn get_8(&self, reg: Register8) -> (r: u8)
        ensures
            r == self.reg8(reg),
    {
        match reg {
            Register8::A => self.get_a(),
            Register8::F => self.get_f(),
            Register8::B => self.get_b(),
            Register8::C => self.get_c(),
            Register8::D => self.get_d(),
            Register8::E => self.get_e(),
            Register8::H => self.get_h(),
            Register8::L => self.get_l(),
        }
    }

    pub fn set_8(&mut self, reg: Register8, value: u8)
        ensures
            *final(self) == old(self).with_reg8(reg, value),
    {
        match reg {
            Register8::A => self.set_a(value),
            Register8::F => self.set_f(value),
            Register8::B => self.set_b(value),
            Register8::C => self.set_c(value),
            Register8::D => self.set_d(value),
            Register8::E => self.set_e(value),
            Register8::H => self.set_h(value),
            Register8::L => self.set_l(value),
        }
    }
}

/// Setting or clearing one flag bit leaves the other three flags as they were.
pub proof fn lemma_flag_update(f: u8)
    ensures
        flag_z(f | FLAG_Z) && !flag_z(f & !FLAG_Z),
        flag_n(f | FLAG_N) && !flag_n(f & !FLAG_N),
        flag_h(f | FLAG_H) && !flag_h(f & !FLAG_H),
        flag_c(f | FLAG_C) && !flag_c(f & !FLAG_C),
        flag_n(f | FLAG_Z) == flag_n(f) && flag_n(f & !FLAG_Z) == flag_n(f),
        flag_h(f | FLAG_Z) == flag_h(f) && flag_h(f & !FLAG_Z) == flag_h(f),
        flag_c(f | FLAG_Z) == flag_c(f) && flag_c(f & !FLAG_Z) == flag_c(f),
        flag_z(f | FLAG_N) == flag_z(f) && flag_z(f & !FLAG_N) == flag_z(f),
        flag_h(f | FLAG_N) == flag_h(f) && flag_h(f & !FLAG_N) == flag_h(f),
        flag_c(f | FLAG_N) == flag_c(f) && flag_c(f & !FLAG_N) == flag_c(f),
        flag_z(f | FLAG_H) == flag_z(f) && flag_z(f & !FLAG_H) == flag_z(f),
        flag_n(f | FLAG_H) == flag_n(f) && flag_n(f & !FLAG_H) == flag_n(f),
        flag_c(f | FLAG_H) == flag_c(f) && flag_c(f & !FLAG_H) == flag_c(f),
        flag_z(f | FLAG_C) == flag_z(f) && flag_z(f & !FLAG_C) == flag_z(f),
        flag_n(f | FLAG_C) == flag_n(f) && flag_n(f & !FLAG_C) == flag_n(f),
        flag_h(f | FLAG_C) == flag_h(f) && flag_h(f & !FLAG_C) == flag_h(f),
{
    assert(((f | 0x80) & 0x80 != 0) && ((f & !0x80u8) & 0x80 == 0)) by (bit_vector);
    assert(((f | 0x40) & 0x40 != 0) && ((f & !0x40u8) & 0x40 == 0)) by (bit_vector);
    assert(((f | 0x20) & 0x20 != 0) && ((f & !0x20u8) & 0x20 == 0)) by (bit_vector);
    assert(((f | 0x10) & 0x10 != 0) && ((f & !0x10u8) & 0x10 == 0)) by (bit_vector);
    assert(forall|m: u8, k: u8|
        (m == 0x80u8 || m == 0x40u8 || m == 0x20u8 || m == 0x10u8) && (k == 0x80u8 || k == 0x40u8
            || k == 0x20u8 || k == 0x10u8) && m != k ==> ((f | m) & k != 0) == (f & k != 0) && ((f
            & !m) & k != 0) == (f & k != 0)) by (bit_vector);
}

/// Writing a register pair and reading it back gives the value written;
/// for `AF` the low nibble reads as zero.
pub proof fn lemma_pair_roundtrip(regs: Registers, v: u16)
    ensures
        regs.with_bc(v).bc() == v,
        regs.with_de(v).de() == v,
        regs.with_hl(v).hl() == v,
        regs.with_af(v).af() == v - v % 16,
{
    assert(flag_bits(flag_bits(low_byte(v))) == flag_bits(low_byte(v)));
}

/// Writing back what a pair holds leaves the registers unchanged
/// (for `AF`, up to the low nibble of `F`, which reads as zero).
pub proof fn lemma_pair_rewrite(regs: Registers)
    ensures
        regs.with_bc(regs.bc() as u16) == regs,
        regs.with_de(regs.de() as u16) == regs,
        regs.with_hl(regs.hl() as u16) == regs,
        regs.with_af(regs.af() as u16) == (Registers { f: flag_bits(regs.f), ..regs }),
{
}

/// An eight-bit write is read back by `get_8` (`F` keeps only its upper
/// nibble) and leaves every other register as it was.
pub proof fn lemma_reg8_roundtrip(regs: Registers, reg: Register8, other: Register8, v: u8)
    ensures
        regs.with_reg8(reg, v).reg8(reg) == (if reg == Register8::F {
            flag_bits(v)
        } else {
            v
        }),
        other != reg ==> regs.with_reg8(reg, v).reg8(other) == regs.reg8(other),
{
}

/// A register pair is made of its two eight-bit halves.
pub proof fn lemma_pair_halves(regs: Registers)
    ensures
        regs.bc() == word(regs.reg8(Register8::B), regs.reg8(Register8::C)),
        regs.de() == word(regs.reg8(Register8::D), regs.reg8(Register8::E)),
        regs.hl() == word(regs.reg8(Register8::H), regs.reg8(Register8::L)),
        regs.af() == word(regs.reg8(Register8::A), regs.reg8(Register8::F)),
{
}


/// In each pair the first register is the high byte and the second the low
/// byte; the low nibble of `F` reads as zero in `AF`.
pub proof fn lemma_pair_bytes(regs: Registers)
    ensures
        regs.bc() / 256 == regs.b && regs.bc() % 256 == regs.c,
        regs.de() / 256 == regs.d && regs.de() % 256 == regs.e,
        regs.hl() / 256 == regs.h && regs.hl() % 256 == regs.l,
        regs.af() / 256 == regs.a && regs.af() % 256 == regs.f & 0xF0,
{
    lemma_flag_bits(regs.f);
}

} // verus!
