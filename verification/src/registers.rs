use crate::bits::{high_byte, lemma_bytes, lemma_word, low_byte, word};
use crate::consts;
use vstd::prelude::*;

verus! {

/// The register file. Only the upper four bits of `f` are flags; every
/// instruction keeps its lower four bits at zero once they are zero.
#[derive(Debug, Clone, Copy, PartialEq, Eq, Structural)]
pub struct Registers {
    pub a: u8,
    pub b: u8,
    pub c: u8,
    pub d: u8,
    pub e: u8,
    pub f: u8,
    pub h: u8,
    pub l: u8,
    pub sp: u16,
    pub pc: u16,
}

impl Default for Registers {
    fn default() -> (regs: Registers)
        ensures
            regs == (Registers {
                a: 0,
                b: 0,
                c: 0,
                d: 0,
                e: 0,
                f: 0,
                h: 0,
                l: 0,
                sp: 0,
                pc: 0,
            }),
    {
        Registers { a: 0, b: 0, c: 0, d: 0, e: 0, f: 0, h: 0, l: 0, sp: 0, pc: 0 }
    }
}

/// The flag byte with the bits of `mask` set or cleared.
pub open spec fn with_bits(f: u8, mask: u8, value: bool) -> u8 {
    if value {
        f | mask
    } else {
        f & (0xff ^ mask)
    }
}

impl Registers {
    pub open spec fn af(self) -> u16 {
        word(self.a, self.f & 0xf0)
    }

    pub open spec fn bc(self) -> u16 {
        word(self.b, self.c)
    }

    pub open spec fn de(self) -> u16 {
        word(self.d, self.e)
    }

    pub open spec fn hl(self) -> u16 {
        word(self.h, self.l)
    }

    pub open spec fn with_af(self, value: u16) -> Registers {
        Registers { a: high_byte(value), f: low_byte(value) & 0xf0, ..self }
    }

    pub open spec fn with_bc(self, value: u16) -> Registers {
        Registers { b: high_byte(value), c: low_byte(value), ..self }
    }

    pub open spec fn with_de(self, value: u16) -> Registers {
        Registers { d: high_byte(value), e: low_byte(value), ..self }
    }

    pub open spec fn with_hl(self, value: u16) -> Registers {
        Registers { h: high_byte(value), l: low_byte(value), ..self }
    }

    pub open spec fn zf(self) -> bool {
        self.f & consts::Z_FLAG != 0
    }

    pub open spec fn nf(self) -> bool {
        self.f & consts::N_FLAG != 0
    }

    pub open spec fn hf(self) -> bool {
        self.f & consts::H_FLAG != 0
    }

    pub open spec fn cf(self) -> bool {
        self.f & consts::C_FLAG != 0
    }

    pub open spec fn with_z(self, value: bool) -> Registers {
        Registers { f: with_bits(self.f, consts::Z_FLAG, value), ..self }
    }

    pub open spec fn with_n(self, value: bool) -> Registers {
        Registers { f: with_bits(self.f, consts::N_FLAG, value), ..self }
    }

    pub open spec fn with_h(self, value: bool) -> Registers {
        Registers { f: with_bits(self.f, consts::H_FLAG, value), ..self }
    }

    pub open spec fn with_c(self, value: bool) -> Registers {
        Registers { f: with_bits(self.f, consts::C_FLAG, value), ..self }
    }

    /// All four flags at once.
    pub open spec fn with_flags(self, z: bool, n: bool, h: bool, c: bool) -> Registers {
        self.with_z(z).with_n(n).with_h(h).with_c(c)
    }

    /// The lower four bits of `f` are zero.
    pub open spec fn flags_clean(self) -> bool {
        self.f & 0x0f == 0
    }

    pub fn get_af(&self) -> (value: u16)
        ensures
            value == self.af(),
    {
        proof {
            lemma_word(self.a, self.f & 0xf0);
        }
        ((self.a as u16) << 8) | (self.f & 0xf0) as u16
    }

    pub fn set_af(&mut self, value: u16)
        ensures
            *final(self) == old(self).with_af(value),
    {
        proof {
            lemma_bytes(value);
        }
        self.a = (value >> 8) as u8;
        self.f = (value & 0xf0) as u8;
    }

    pub fn get_bc(&self) -> (value: u16)
        ensures
            value == self.bc(),
    {
        proof {
            lemma_word(self.b, self.c);
        }
        ((self.b as u16) << 8) | self.c as u16
    }

    pub fn set_bc(&mut self, value: u16)
        ensures
            *final(self) == old(self).with_bc(value),
    {
        proof {
            lemma_bytes(value);
        }
        self.b = (value >> 8) as u8;
        self.c = (value & 0xff) as u8;
    }

    pub fn get_de(&self) -> (value: u16)
        ensures
            value == self.de(),
    {
        proof {
            lemma_word(self.d, self.e);
        }
        ((self.d as u16) << 8) | self.e as u16
    }

    pub fn set_de(&mut self, value: u16)
        ensures
            *final(self) == old(self).with_de(value),
    {
        proof {
            lemma_bytes(value);
        }
        self.d = (value >> 8) as u8;
        self.e = (value & 0xff) as u8;
    }

    pub fn get_hl(&self) -> (value: u16)
        ensures
            value == self.hl(),
    {
        proof {
            lemma_word(self.h, self.l);
        }
        ((self.h as u16) << 8) | self.l as u16
    }

    pub fn set_hl(&mut self, value: u16)
        ensures
            *final(self) == old(self).with_hl(value),
    {
        proof {
            lemma_bytes(value);
        }
        self.h = (value >> 8) as u8;
        self.l = (value & 0xff) as u8;
    }

    pub fn get_z_flag(&self) -> (value: bool)
        ensures
            value == self.zf(),
    {
        (self.f & consts::Z_FLAG) != 0
    }

    pub fn set_z_flag(&mut self, value: bool)
        ensures
            *final(self) == old(self).with_z(value),
    {
        if value {
            self.f |= consts::Z_FLAG;
        } else {
            self.f &= 0xff ^ consts::Z_FLAG;
        }
    }

    pub fn get_n_flag(&self) -> (value: bool)
        ensures
            value == self.nf(),
    {
        (self.f & consts::N_FLAG) != 0
    }

    pub fn set_n_flag(&mut self, value: bool)
        ensures
            *final(self) == old(self).with_n(value),
    {
        if value {
            self.f |= consts::N_FLAG;
        } else {
            self.f &= 0xff ^ consts::N_FLAG;
        }
    }

    pub fn get_h_flag(&self) -> (value: bool)
        ensures
            value == self.hf(),
    {
        (self.f & consts::H_FLAG) != 0
    }

    pub fn set_h_flag(&mut self, value: bool)
        ensures
            *final(self) == old(self).with_h(value),
    {
        if value {
            self.f |= consts::H_FLAG;
        } else {
            self.f &= 0xff ^ consts::H_FLAG;
        }
    }

    pub fn get_c_flag(&self) -> (value: bool)
        ensures
            value == self.cf(),
    {
        (self.f & consts::C_FLAG) != 0
    }

    pub fn set_c_flag(&mut self, value: bool)
        ensures
            *final(self) == old(self).with_c(value),
    {
        if value {
            self.f |= consts::C_FLAG;
        } else {
            self.f &= 0xff ^ consts::C_FLAG;
        }
    }
}

/// Setting the bits of one flag mask leaves the other flags and the lower
/// four bits as they were, and the flag reads back as set.
proof fn lemma_with_bits(f: u8, value: bool)
    by (bit_vector)
    ensures
        ((if value { f | 0x80 } else { f & (0xffu8 ^ 0x80u8) }) & 0x80 != 0) == value,
        (if value { f | 0x80 } else { f & (0xffu8 ^ 0x80u8) }) & 0x7f == f & 0x7f,
        ((if value { f | 0x40 } else { f & (0xffu8 ^ 0x40u8) }) & 0x40 != 0) == value,
        (if value { f | 0x40 } else { f & (0xffu8 ^ 0x40u8) }) & 0xbf == f & 0xbf,
        ((if value { f | 0x20 } else { f & (0xffu8 ^ 0x20u8) }) & 0x20 != 0) == value,
        (if value { f | 0x20 } else { f & (0xffu8 ^ 0x20u8) }) & 0xdf == f & 0xdf,
        ((if value { f | 0x10 } else { f & (0xffu8 ^ 0x10u8) }) & 0x10 != 0) == value,
        (if value { f | 0x10 } else { f & (0xffu8 ^ 0x10u8) }) & 0xef == f & 0xef,
{
}

/// What equal bits outside one flag mask mean for the other flags.
proof fn lemma_kept_bits(f: u8, g: u8)
    by (bit_vector)
    ensures
        g & 0x7f == f & 0x7f ==> (g & 0x40 == f & 0x40) && (g & 0x20 == f & 0x20) && (g & 0x10 == f
            & 0x10) && (g & 0x0f == f & 0x0f),
        g & 0xbf == f & 0xbf ==> (g & 0x80 == f & 0x80) && (g & 0x20 == f & 0x20) && (g & 0x10 == f
            & 0x10) && (g & 0x0f == f & 0x0f),
        g & 0xdf == f & 0xdf ==> (g & 0x80 == f & 0x80) && (g & 0x40 == f & 0x40) && (g & 0x10 == f
            & 0x10) && (g & 0x0f == f & 0x0f),
        g & 0xef == f & 0xef ==> (g & 0x80 == f & 0x80) && (g & 0x40 == f & 0x40) && (g & 0x20 == f
            & 0x20) && (g & 0x0f == f & 0x0f),
{
}

/// A flag reads back as it was set, and setting it changes no other flag
/// and none of the lower four bits.
pub proof fn lemma_flag_set_get(regs: Registers, value: bool)
    ensures
        regs.with_z(value).zf() == value,
        regs.with_z(value).nf() == regs.nf(),
        regs.with_z(value).hf() == regs.hf(),
        regs.with_z(value).cf() == regs.cf(),
        regs.with_n(value).nf() == value,
        regs.with_n(value).zf() == regs.zf(),
        regs.with_n(value).hf() == regs.hf(),
        regs.with_n(value).cf() == regs.cf(),
        regs.with_h(value).hf() == value,
        regs.with_h(value).zf() == regs.zf(),
        regs.with_h(value).nf() == regs.nf(),
        regs.with_h(value).cf() == regs.cf(),
        regs.with_c(value).cf() == value,
        regs.with_c(value).zf() == regs.zf(),
        regs.with_c(value).nf() == regs.nf(),
        regs.with_c(value).hf() == regs.hf(),
        regs.with_z(value).f & 0x0f == regs.f & 0x0f,
        regs.with_n(value).f & 0x0f == regs.f & 0x0f,
        regs.with_h(value).f & 0x0f == regs.f & 0x0f,
        regs.with_c(value).f & 0x0f == regs.f & 0x0f,
{
    lemma_with_bits(regs.f, value);
    lemma_kept_bits(regs.f, regs.with_z(value).f);
    lemma_kept_bits(regs.f, regs.with_n(value).f);
    lemma_kept_bits(regs.f, regs.with_h(value).f);
    lemma_kept_bits(regs.f, regs.with_c(value).f);
}

/// After all four flags are set they read back as given, and the lower four
/// bits of `f` are what they were.
pub proof fn lemma_flags_set_get(regs: Registers, z: bool, n: bool, h: bool, c: bool)
    ensures
        regs.with_flags(z, n, h, c).zf() == z,
        regs.with_flags(z, n, h, c).nf() == n,
        regs.with_flags(z, n, h, c).hf() == h,
        regs.with_flags(z, n, h, c).cf() == c,
        regs.with_flags(z, n, h, c).f & 0x0f == regs.f & 0x0f,
{
    let r1 = regs.with_z(z);
    let r2 = r1.with_n(n);
    let r3 = r2.with_h(h);
    lemma_flag_set_get(regs, z);
    lemma_flag_set_get(r1, n);
    lemma_flag_set_get(r2, h);
    lemma_flag_set_get(r3, c);
}

/// A register pair reads back the value it was set to. AF drops the lower
/// four bits of the value.
pub proof fn lemma_pair_set_get(regs: Registers, value: u16)
    ensures
        regs.with_bc(value).bc() == value,
        regs.with_de(value).de() == value,
        regs.with_hl(value).hl() == value,
        regs.with_af(value).af() == value & 0xfff0,
        regs.with_af(value).flags_clean(),
{
    let lo = low_byte(value);
    assert((lo & 0xf0) & 0xf0 == lo & 0xf0 && (lo & 0xf0) & 0x0f == 0) by (bit_vector);
    assert(value & 0xfff0 == (value / 256) * 256 + (((value % 256) as u8) & 0xf0)) by (bit_vector);
}

} // verus!
