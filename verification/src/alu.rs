//! The arithmetic of the instruction set as pure functions: each returns the
//! result with the carries that the flags are set from.

use crate::bits::{lemma_masks, lemma_nibble, lemma_sign_extend};
use vstd::prelude::*;

verus! {

/// An 8-bit result with the carry out of bit 3 and out of bit 7.
#[derive(Debug, Clone, Copy, PartialEq, Eq, Structural)]
pub struct Alu8 {
    pub value: u8,
    pub half_carry: bool,
    pub carry: bool,
}

/// A 16-bit result with the two carries that the instruction defines.
#[derive(Debug, Clone, Copy, PartialEq, Eq, Structural)]
pub struct Alu16 {
    pub value: u16,
    pub half_carry: bool,
    pub carry: bool,
}

pub open spec fn bit(c: bool) -> int {
    if c {
        1
    } else {
        0
    }
}

/// `a + b + c` modulo 256, with the carries out of bit 3 and bit 7.
pub open spec fn add8(a: u8, b: u8, c: bool) -> Alu8 {
    Alu8 {
        value: ((a + b + bit(c)) % 256) as u8,
        half_carry: a % 16 + b % 16 + bit(c) > 15,
        carry: a + b + bit(c) > 255,
    }
}

/// `a - b - c` modulo 256, with the borrows into bit 3 and bit 7.
pub open spec fn sub8(a: u8, b: u8, c: bool) -> Alu8 {
    Alu8 {
        value: ((a - b - bit(c)) % 256) as u8,
        half_carry: a % 16 < b % 16 + bit(c),
        carry: a < b + bit(c),
    }
}

/// `a + 1` modulo 256 with the carry out of bit 3.
pub open spec fn inc8(a: u8) -> (u8, bool) {
    (((a + 1) % 256) as u8, a % 16 == 15)
}

/// `a - 1` modulo 256 with the borrow into bit 3.
pub open spec fn dec8(a: u8) -> (u8, bool) {
    (((a - 1) % 256) as u8, a % 16 == 0)
}

/// The correction that decimal adjust applies to the accumulator.
pub open spec fn daa_correction(a: u8, n: bool, h: bool, c: bool) -> int {
    (if h || (!n && a % 16 > 9) {
        0x06int
    } else {
        0
    }) + (if daa_carry(a, n, c) {
        0x60int
    } else {
        0
    })
}

/// The carry that decimal adjust leaves.
pub open spec fn daa_carry(a: u8, n: bool, c: bool) -> bool {
    c || (!n && a > 0x99)
}

/// The accumulator after decimal adjust: the correction is subtracted after
/// a subtraction and added otherwise.
pub open spec fn daa8(a: u8, n: bool, h: bool, c: bool) -> u8 {
    if n {
        ((a - daa_correction(a, n, h, c)) % 256) as u8
    } else {
        ((a + daa_correction(a, n, h, c)) % 256) as u8
    }
}

/// `a + b` modulo 65536, with the carries out of bit 11 and bit 15.
pub open spec fn add16(a: u16, b: u16) -> Alu16 {
    Alu16 {
        value: ((a + b) % 65536) as u16,
        half_carry: a % 4096 + b % 4096 > 4095,
        carry: a + b > 65535,
    }
}

/// The value of a byte read as a two's complement number.
pub open spec fn signed(e: u8) -> int {
    if e < 0x80 {
        e as int
    } else {
        e - 256
    }
}

/// `a` plus the signed byte `e`, modulo 65536. The carries are those of
/// adding `e` to the low byte of `a`.
pub open spec fn add_signed16(a: u16, e: u8) -> Alu16 {
    Alu16 {
        value: ((a + signed(e)) % 65536) as u16,
        half_carry: a % 16 + e % 16 > 15,
        carry: a % 256 + e > 255,
    }
}

/// Rotate left; bit 7 goes to bit 0 and to the carry.
pub open spec fn rlc8(a: u8) -> (u8, bool) {
    (((a * 2) % 256 + a / 128) as u8, a >= 128)
}

/// Rotate left through the carry.
pub open spec fn rl8(a: u8, c: bool) -> (u8, bool) {
    (((a * 2) % 256 + bit(c)) as u8, a >= 128)
}

/// Rotate right; bit 0 goes to bit 7 and to the carry.
pub open spec fn rrc8(a: u8) -> (u8, bool) {
    ((a / 2 + (a % 2) * 128) as u8, a % 2 == 1)
}

/// Rotate right through the carry.
pub open spec fn rr8(a: u8, c: bool) -> (u8, bool) {
    ((a / 2 + bit(c) * 128) as u8, a % 2 == 1)
}

/// Shift left; bit 7 goes to the carry.
pub open spec fn sla8(a: u8) -> (u8, bool) {
    (((a * 2) % 256) as u8, a >= 128)
}

/// Shift right keeping bit 7; bit 0 goes to the carry.
pub open spec fn sra8(a: u8) -> (u8, bool) {
    ((a / 2 + (a / 128) * 128) as u8, a % 2 == 1)
}

/// Shift right; bit 0 goes to the carry.
pub open spec fn srl8(a: u8) -> (u8, bool) {
    ((a / 2) as u8, a % 2 == 1)
}

/// The two halves of the byte exchanged.
pub open spec fn swap8(a: u8) -> u8 {
    ((a % 16) * 16 + a / 16) as u8
}

/// True when bit `n` of `a` is set.
pub open spec fn bit_set(a: u8, n: usize) -> bool {
    (a >> n) & 1 != 0
}

/// `a` with bit `n` set.
pub open spec fn with_bit(a: u8, n: usize) -> u8 {
    a | (1u8 << n)
}

/// `a` with bit `n` cleared.
pub open spec fn without_bit(a: u8, n: usize) -> u8 {
    a & (0xffu8 ^ (1u8 << n))
}

proof fn lemma_shifts(a: u8)
    ensures
        (a & 0x7f) << 1 == (a * 2) % 256,
        (a & 1) << 7 == (a % 2) * 128,
        a & 0x80 == (a / 128) * 128,
        (a & 0xf) << 4 == (a % 16) * 16,
        (a >> 7) & 1 == a / 128,
        (a & 0xfe) >> 1 == a / 2,
        (a & 0xf0) >> 4 == a / 16,
        (a & 0x80 != 0) == (a >= 128),
        (a & 1 != 0) == (a % 2 == 1),
{
    assert((a & 0x7f) << 1 == (a * 2) % 256 && (a & 1) << 7 == (a % 2) * 128 && a & 0x80 == (a
        / 128) * 128 && (a & 0xf) << 4 == (a % 16) * 16) by (bit_vector);
    assert((a >> 7) & 1 == a / 128 && (a & 0xfe) >> 1 == a / 2 && (a & 0xf0) >> 4 == a / 16 && (a
        & 0x80 != 0) == (a >= 128) && (a & 1 != 0) == (a % 2 == 1)) by (bit_vector);
}

pub fn add_bytes(a: u8, b: u8, carry: bool) -> (r: Alu8)
    ensures
        r == add8(a, b, carry),
{
    let c: u8 = if carry { 1 } else { 0 };
    proof {
        lemma_nibble(a);
        lemma_nibble(b);
    }
    let value = a.wrapping_add(b).wrapping_add(c);
    let carry = (a as u16) + (b as u16) + (c as u16) > 0xff;
    let half_carry = (a & 0xf) + (b & 0xf) + c > 0xf;
    Alu8 { value, half_carry, carry }
}

pub fn sub_bytes(a: u8, b: u8, carry: bool) -> (r: Alu8)
    ensures
        r == sub8(a, b, carry),
{
    let c: u8 = if carry { 1 } else { 0 };
    proof {
        lemma_nibble(a);
        lemma_nibble(b);
    }
    let value = a.wrapping_sub(b).wrapping_sub(c);
    let carry = (a as u16) < (b as u16) + (c as u16);
    let half_carry = (a & 0xf) < (b & 0xf) + c;
    Alu8 { value, half_carry, carry }
}

pub fn inc(a: u8) -> (r: (u8, bool))
    ensures
        r == inc8(a),
{
    proof {
        lemma_nibble(a);
        let n = a & 0xf;
        assert(((((n + 1) as u8) & 0x10) == 0x10) == (n == 15)) by (bit_vector)
            requires
                n <= 15,
        ;
    }
    let value = a.wrapping_add(1);
    let half_carry = ((a & 0xf) + 1) & 0x10 == 0x10;
    (value, half_carry)
}

pub fn dec(a: u8) -> (r: (u8, bool))
    ensures
        r == dec8(a),
{
    proof {
        lemma_nibble(a);
    }
    let value = a.wrapping_sub(1);
    let half_carry = (a & 0xf) < 1;
    (value, half_carry)
}

/// Decimal adjust of the accumulator after an addition or subtraction of
/// packed decimal numbers. Returns the adjusted value and the new carry.
pub fn daa(a: u8, n: bool, h: bool, c: bool) -> (r: (u8, bool))
    ensures
        r == (daa8(a, n, h, c), daa_carry(a, n, c)),
{
    proof {
        lemma_nibble(a);
    }
    let mut correction: u8 = 0;
    let mut carry = false;
    if h || (!n && (a & 0xf) > 0x9) {
        correction += 0x6;
    }
    if c || (!n && a > 0x99) {
        correction += 0x60;
        carry = true;
    }
    let value = if n {
        a.wrapping_sub(correction)
    } else {
        a.wrapping_add(correction)
    };
    (value, carry)
}

pub fn add_words(a: u16, b: u16) -> (r: Alu16)
    ensures
        r == add16(a, b),
{
    proof {
        lemma_masks(a);
        lemma_masks(b);
    }
    let value = a.wrapping_add(b);
    let carry = (a as u32) + (b as u32) > 0xffff;
    let half_carry = ((a & 0xfff) + (b & 0xfff)) > 0xfff;
    Alu16 { value, half_carry, carry }
}

/// Adds a signed byte to a 16-bit value, as the stack pointer arithmetic
/// does.
pub fn add_signed(a: u16, e: u8) -> (r: Alu16)
    ensures
        r == add_signed16(a, e),
{
    let b = (e as i8) as u16;  // sign extension
    proof {
        lemma_sign_extend(e);
        lemma_masks(a);
        lemma_masks(b);
    }
    let value = a.wrapping_add(b);
    let carry = ((a & 0xff) + (b & 0xff)) > 0xff;
    let half_carry = ((a & 0xf) + (b & 0xf)) > 0xf;
    proof {
        if e < 0x80 {
            assert(b == e && b % 256 == e && b % 16 == e % 16);
            assert(value == (a + signed(e)) % 65536);
        } else {
            assert(b == 0xff00 + e && b % 256 == e && b % 16 == e % 16);
            assert(value == (a + signed(e)) % 65536);
        }
    }
    Alu16 { value, half_carry, carry }
}

pub fn rlc(a: u8) -> (r: (u8, bool))
    ensures
        r == rlc8(a),
{
    proof {
        lemma_shifts(a);
    }
    let value = ((a & 0x7f) << 1) + ((a >> 7) & 1);
    let carry = (a & 0x80) != 0;
    (value, carry)
}

pub fn rl(a: u8, carry: bool) -> (r: (u8, bool))
    ensures
        r == rl8(a, carry),
{
    proof {
        lemma_shifts(a);
    }
    let c: u8 = if carry { 1 } else { 0 };
    let value = ((a & 0x7f) << 1) + c;
    let carry = (a & 0x80) != 0;
    (value, carry)
}

pub fn rrc(a: u8) -> (r: (u8, bool))
    ensures
        r == rrc8(a),
{
    proof {
        lemma_shifts(a);
    }
    let value = ((a & 0xfe) >> 1) + ((a & 1) << 7);
    let carry = (a & 1) != 0;
    (value, carry)
}

pub fn rr(a: u8, carry: bool) -> (r: (u8, bool))
    ensures
        r == rr8(a, carry),
{
    proof {
        lemma_shifts(a);
    }
    let c: u8 = if carry { 0x80 } else { 0 };
    let value = ((a & 0xfe) >> 1) + c;
    let carry = (a & 1) != 0;
    (value, carry)
}

pub fn sla(a: u8) -> (r: (u8, bool))
    ensures
        r == sla8(a),
{
    proof {
        lemma_shifts(a);
    }
    let value = (a & 0x7f) << 1;
    let carry = (a & 0x80) != 0;
    (value, carry)
}

pub fn sra(a: u8) -> (r: (u8, bool))
    ensures
        r == sra8(a),
{
    proof {
        lemma_shifts(a);
    }
    let msb = a & 0x80;
    let value = ((a & 0xfe) >> 1) + msb;
    let carry = (a & 1) != 0;
    (value, carry)
}

pub fn srl(a: u8) -> (r: (u8, bool))
    ensures
        r == srl8(a),
{
    proof {
        lemma_shifts(a);
    }
    let value = (a & 0xfe) >> 1;
    let carry = (a & 1) != 0;
    (value, carry)
}

pub fn swap(a: u8) -> (value: u8)
    ensures
        value == swap8(a),
{
    proof {
        lemma_shifts(a);
    }
    ((a & 0xf0) >> 4) + ((a & 0xf) << 4)
}

/// Adding `b` and then subtracting the same `b` gives `a` back.
pub proof fn lemma_add_then_sub(a: u8, b: u8)
    ensures
        sub8(add8(a, b, false).value, b, false).value == a,
        add8(sub8(a, b, false).value, b, false).value == a,
{
    let s = add8(a, b, false).value;
    assert(s == if a + b > 255 { a + b - 256 } else { a + b });
    assert(sub8(s, b, false).value == if s < b { s - b + 256 } else { s - b });
    let d = sub8(a, b, false).value;
    assert(d == if a < b { a - b + 256 } else { a - b });
    assert(add8(d, b, false).value == if d + b > 255 { d + b - 256 } else { d + b });
}

} // verus!
