//! The CPU state (registers, stack pointer, program counter and memory)
//! and the eight-bit arithmetic on the accumulator.
use vstd::prelude::*;
use crate::memory::{Memory, MEMORY_SIZE};
use crate::registers::{Registers, flag_bits, flag_c, flag_h, flag_n, flag_z};

verus! {

pub struct CPU {
    pub regs: Registers,
    pub sp: u16,
    pub pc: u16,
    pub memory: Memory,
}

/// The flag byte with Z, N, H and C set as given; the low nibble is zero.
pub open spec fn flags_byte(z: bool, n: bool, h: bool, c: bool) -> u8 {
    ((if z { 0x80int } else { 0 }) + (if n { 0x40int } else { 0 }) + (if h { 0x20int } else { 0 })
        + (if c { 0x10int } else { 0 })) as u8
}

/// The carry flag as the number added by `ADC` or subtracted by `SBC`.
pub open spec fn carry_in(f: u8) -> u8 {
    if flag_c(f) { 1 } else { 0 }
}

/// `a + v + cin` modulo 256.
pub open spec fn add_result(a: u8, v: u8, cin: u8) -> u8 {
    ((a + v + cin) % 256) as u8
}

/// Flags after `a + v + cin`: Z when the byte is zero, N clear, H on a carry
/// out of bit 3, C on a carry out of bit 7.
pub open spec fn add_flags(a: u8, v: u8, cin: u8) -> u8 {
    flags_byte(add_result(a, v, cin) == 0, false, a % 16 + v % 16 + cin > 15, a + v + cin > 255)
}

/// `a - v - cin` modulo 256.
pub open spec fn sub_result(a: u8, v: u8, cin: u8) -> u8 {
    ((a - v - cin + 512) % 256) as u8
}

/// Flags after `a - v - cin`: Z when the byte is zero, N set, H on a borrow
/// from bit 4, C on a borrow from bit 8.
pub open spec fn sub_flags(a: u8, v: u8, cin: u8) -> u8 {
    flags_byte(sub_result(a, v, cin) == 0, true, a % 16 < v % 16 + cin, a < v + cin)
}

proof fn lemma_flags_accumulate(z: bool, n: bool, h: bool, c: bool)
    ensures
        (((if z { 0x80u8 } else { 0u8 }) | (if n { 0x40u8 } else { 0u8 })) | (if h {
            0x20u8
        } else {
            0u8
        })) | (if c { 0x10u8 } else { 0u8 }) == flags_byte(z, n, h, c),
{
    let zz: u8 = if z { 0x80u8 } else { 0u8 };
    let nn: u8 = if n { 0x40u8 } else { 0u8 };
    let hh: u8 = if h { 0x20u8 } else { 0u8 };
    let cc: u8 = if c { 0x10u8 } else { 0u8 };
    assert(((zz | nn) | hh) | cc == zz + nn + hh + cc) by (bit_vector)
        requires
            zz == 0x80 || zz == 0,
            nn == 0x40 || nn == 0,
            hh == 0x20 || hh == 0,
            cc == 0x10 || cc == 0,
    ;
}

proof fn lemma_low_nibble(x: u8)
    ensures
        x & 0x0F == x % 16,
{
    assert(x & 0x0F == x % 16) by (bit_vector);
}

/// The flag byte built by an ALU operation reads back flag by flag through
/// the flag getters, and its low nibble is zero.
pub proof fn lemma_flags_byte(z: bool, n: bool, h: bool, c: bool)
    ensures
        flag_z(flags_byte(z, n, h, c)) == z,
        flag_n(flags_byte(z, n, h, c)) == n,
        flag_h(flags_byte(z, n, h, c)) == h,
        flag_c(flags_byte(z, n, h, c)) == c,
        flag_bits(flags_byte(z, n, h, c)) == flags_byte(z, n, h, c),
{
    let f: u8 = flags_byte(z, n, h, c);
    let zz: u8 = if z { 0x80u8 } else { 0u8 };
    let nn: u8 = if n { 0x40u8 } else { 0u8 };
    let hh: u8 = if h { 0x20u8 } else { 0u8 };
    let cc: u8 = if c { 0x10u8 } else { 0u8 };
    assert(f == zz + nn + hh + cc);
    assert((f & 0x80 != 0) == (zz == 0x80) && (f & 0x40 != 0) == (nn == 0x40) && (f & 0x20 != 0)
        == (hh == 0x20) && (f & 0x10 != 0) == (cc == 0x10)) by (bit_vector)
        requires
            zz == 0x80 || zz == 0,
            nn == 0x40 || nn == 0,
            hh == 0x20 || hh == 0,
            cc == 0x10 || cc == 0,
            f == zz + nn + hh + cc,
    ;
}

impl CPU {
    pub fn new() -> (cpu: Self)
        ensures
            cpu.regs == (Registers { a: 0, f: 0, b: 0, c: 0, d: 0, e: 0, h: 0, l: 0 }),
            cpu.sp == 0xFFFE,
            cpu.pc == 0x0100,
            cpu.memory@ == Seq::new(MEMORY_SIZE as nat, |i: int| 0u8),
    {
        CPU {
            regs: Registers { a: 0, f: 0, b: 0, c: 0, d: 0, e: 0, h: 0, l: 0 },
            sp: 0xFFFE,
            pc: 0x0100,  // entry point of a cartridge
            memory: Memory::new(),
        }
    }

    /// Reads the instruction byte at `pc` and moves `pc` on by one, wrapping.
    pub fn fetch_byte(&mut self) -> (byte: u8)
        ensures
            byte == old(self).memory@[old(self).pc as int],
            final(self).pc == (old(self).pc + 1) % 0x10000,
            final(self).regs == old(self).regs,
            final(self).sp == old(self).sp,
            final(self).memory@ == old(self).memory@,
    {
        let byte: u8 = self.memory.read_byte(self.pc);
        self.pc = self.pc.wrapping_add(1);
        byte
    }

    /// Writes the flags of an ALU operation into `F`.
    fn write_flags(&mut self, half: bool, carry: bool, subtract: bool)
        ensures
            final(self).regs == (Registers {
                f: flags_byte(old(self).regs.a == 0, subtract, half, carry),
                ..old(self).regs
            }),
            final(self).sp == old(self).sp,
            final(self).pc == old(self).pc,
            final(self).memory@ == old(self).memory@,
    {
        let ghost z: bool = self.regs.a == 0;
        self.regs.f = 0;
        if self.regs.a == 0 {
            self.regs.f |= 0b1000_0000;  // Z
        }
        if subtract {
            self.regs.f |= 0b0100_0000;  // N
        }
        if half {
            self.regs.f |= 0b0010_0000;  // H
        }
        if carry {
            self.regs.f |= 0b0001_0000;  // C
        }
        proof {
            lemma_flags_accumulate(z, subtract, half, carry);
            let zz: u8 = if z { 0x80u8 } else { 0u8 };
            assert(0u8 | 0x80u8 == 0x80u8 && 0u8 | 0u8 == 0u8) by (bit_vector);
            assert(forall|x: u8| #[trigger] (x | 0u8) == x) by (bit_vector);
        }
    }

    /// `A := A + value`; flags Z, H (carry from bit 3) and C (carry from bit 7), N cleared.
    pub fn ADD_A(&mut self, value: u8)
        ensures
            final(self).regs == (Registers {
                a: add_result(old(self).regs.a, value, 0),
                f: add_flags(old(self).regs.a, value, 0),
                ..old(self).regs
            }),
            final(self).sp == old(self).sp,
            final(self).pc == old(self).pc,
            final(self).memory@ == old(self).memory@,
    {
        let a: u8 = self.regs.a;
        let result: u8 = a.wrapping_add(value);
        proof {
            lemma_low_nibble(a);
            lemma_low_nibble(value);
        }
        // half carry: the low nibbles overflow 0xF
        let half_carry: bool = (a & 0x0F) + (value & 0x0F) > 0x0F;
        // carry: the sum overflows 0xFF
        let carry: bool = (a as u16) + (value as u16) > 0xFF;
        self.regs.a = result;
        self.write_flags(half_carry, carry, false);
    }

    /// `A := A + value + carry`; flags as for `ADD_A`, counting the carry in.
    pub fn ADC_A_Carry(&mut self, value: u8)
        ensures
            final(self).regs == (Registers {
                a: add_result(old(self).regs.a, value, carry_in(old(self).regs.f)),
                f: add_flags(old(self).regs.a, value, carry_in(old(self).regs.f)),
                ..old(self).regs
            }),
            final(self).sp == old(self).sp,
            final(self).pc == old(self).pc,
            final(self).memory@ == old(self).memory@,
    {
        let a: u8 = self.regs.a;
        // the carry flag (bit 4 of F)
        let carry_in: u8 = if (self.regs.f & 0b0001_0000) != 0 { 1 } else { 0 };
        let result: u8 = a.wrapping_add(value).wrapping_add(carry_in);
        proof {
            lemma_low_nibble(a);
            lemma_low_nibble(value);
        }
        let half_carry: bool = (a & 0x0f) + (value & 0x0F) + carry_in > 0x0F;
        let full_carry: bool = (a as u16) + (value as u16) + (carry_in as u16) > 0xFF;
        self.regs.a = result;
        self.write_flags(half_carry, full_carry, false);
    }

    /// `A := A - value`; flags Z, N set, H (borrow from bit 4) and C (borrow).
    pub fn SUB_A(&mut self, value: u8)
        ensures
            final(self).regs == (Registers {
                a: sub_result(old(self).regs.a, value, 0),
                f: sub_flags(old(self).regs.a, value, 0),
                ..old(self).regs
            }),
            final(self).sp == old(self).sp,
            final(self).pc == old(self).pc,
            final(self).memory@ == old(self).memory@,
    {
        let a: u8 = self.regs.a;
        let result: u8 = a.wrapping_sub(value);
        proof {
            lemma_low_nibble(a);
            lemma_low_nibble(value);
        }
        // half borrow: the low nibble of A is below that of value
        let half_borrow: bool = (a & 0x0F) < (value & 0x0F);
        let borrow: bool = a < value;
        self.regs.a = result;
        self.write_flags(half_borrow, borrow, true);
    }

    /// `A := A - value - carry`; flags as for `SUB_A`, counting the carry in.
    pub fn SBC_A(&mut self, value: u8)
        ensures
            final(self).regs == (Registers {
                a: sub_result(old(self).regs.a, value, carry_in(old(self).regs.f)),
                f: sub_flags(old(self).regs.a, value, carry_in(old(self).regs.f)),
                ..old(self).regs
            }),
            final(self).sp == old(self).sp,
            final(self).pc == old(self).pc,
            final(self).memory@ == old(self).memory@,
    {
        let a: u8 = self.regs.a;
        let carry_in: u8 = if (self.regs.f & 0b0001_0000) != 0 { 1 } else { 0 };
        let result: u8 = a.wrapping_sub(value).wrapping_sub(carry_in);
        proof {
            lemma_low_nibble(a);
            lemma_low_nibble(value);
        }
        let half_borrow: bool = (a & 0x0F) < ((value & 0x0F) + carry_in);
        let borrow: bool = (a as u16) < (value as u16 + carry_in as u16);
        self.regs.a = result;
        self.write_flags(half_borrow, borrow, true);
    }
}

/// Subtracting what was added gives the accumulator back.
pub proof fn lemma_add_then_sub(a: u8, v: u8)
    ensures
        sub_result(add_result(a, v, 0), v, 0) == a,
        add_result(sub_result(a, v, 0), v, 0) == a,
{
}

/// With the carry flag clear, `ADC` is `ADD` and `SBC` is `SUB`.
pub proof fn lemma_carry_clear(a: u8, v: u8, f: u8)
    requires
        !flag_c(f),
    ensures
        add_result(a, v, carry_in(f)) == add_result(a, v, 0),
        add_flags(a, v, carry_in(f)) == add_flags(a, v, 0),
        sub_result(a, v, carry_in(f)) == sub_result(a, v, 0),
        sub_flags(a, v, carry_in(f)) == sub_flags(a, v, 0),
{
}

/// The carry flag of an addition is set exactly when the byte wrapped, and
/// the zero flag of a subtraction exactly when both operands were equal.
pub proof fn lemma_flag_meaning(a: u8, v: u8)
    ensures
        flag_c(add_flags(a, v, 0)) == (add_result(a, v, 0) < a),
        flag_z(sub_flags(a, v, 0)) == (a == v),
        flag_c(sub_flags(a, v, 0)) == (a < v),
        flag_n(sub_flags(a, v, 0)),
        !flag_n(add_flags(a, v, 0)),
{
    lemma_flags_byte(
        add_result(a, v, 0) == 0,
        false,
        a % 16 + v % 16 > 15,
        a + v > 255,
    );
    lemma_flags_byte(sub_result(a, v, 0) == 0, true, a % 16 < v % 16, a < v);
}


/// The carry taken in by `ADC` and `SBC` is bit 4 of `F`.
pub proof fn lemma_carry_in_bit(f: u8)
    ensures
        carry_in(f) == (f >> 4u8) & 1,
{
    assert(((f & 0x10 != 0) ==> (f >> 4u8) & 1 == 1) && ((f & 0x10 == 0) ==> (f >> 4u8) & 1 == 0))
        by (bit_vector);
}

/// Addition on the accumulator: the new A and the carry flag together make
/// the true sum (A + 256·C = a + v + carry in); H is the carry out of the low
/// nibbles; Z says the new A is zero; N is clear; the low nibble of F is 0.
pub proof fn lemma_add_arithmetic(a: u8, v: u8, cin: u8)
    requires
        cin <= 1,
    ensures
        add_result(a, v, cin) + 256 * (if flag_c(add_flags(a, v, cin)) {
            1int
        } else {
            0
        }) == a + v + cin,
        flag_h(add_flags(a, v, cin)) == ((a & 0x0F) + (v & 0x0F) + cin > 0x0F),
        flag_z(add_flags(a, v, cin)) == (add_result(a, v, cin) == 0),
        !flag_n(add_flags(a, v, cin)),
        add_flags(a, v, cin) & 0x0F == 0,
{
    let z = add_result(a, v, cin) == 0;
    let h = a % 16 + v % 16 + cin > 15;
    let c = a + v + cin > 255;
    lemma_flags_byte(z, false, h, c);
    lemma_low_nibble(a);
    lemma_low_nibble(v);
    let f: u8 = add_flags(a, v, cin);
    assert(f & 0x0F == f % 16) by (bit_vector);
}

/// Subtraction on the accumulator: the new A is the true difference plus
/// 256 exactly when the carry (borrow) flag is set; H is the borrow from the
/// low nibbles; Z says the new A is zero; N is set; the low nibble of F is 0.
pub proof fn lemma_sub_arithmetic(a: u8, v: u8, cin: u8)
    requires
        cin <= 1,
    ensures
        sub_result(a, v, cin) == a - v - cin + 256 * (if flag_c(sub_flags(a, v, cin)) {
            1int
        } else {
            0
        }),
        flag_h(sub_flags(a, v, cin)) == ((a & 0x0F) < (v & 0x0F) + cin),
        flag_z(sub_flags(a, v, cin)) == (sub_result(a, v, cin) == 0),
        flag_n(sub_flags(a, v, cin)),
        sub_flags(a, v, cin) & 0x0F == 0,
{
    let z = sub_result(a, v, cin) == 0;
    let h = a % 16 < v % 16 + cin;
    let c = a < v + cin;
    lemma_flags_byte(z, true, h, c);
    lemma_low_nibble(a);
    lemma_low_nibble(v);
    let f: u8 = sub_flags(a, v, cin);
    assert(f & 0x0F == f % 16) by (bit_vector);
}

} // verus!
