//! Bit-level facts that tie the shifts and masks of the executable code to
//! the arithmetic of the contracts.

use vstd::prelude::*;

verus! {

/// The 16-bit value with high byte `hi` and low byte `lo`.
pub open spec fn word(hi: u8, lo: u8) -> u16 {
    (hi * 256 + lo) as u16
}

/// The high byte of a 16-bit value.
pub open spec fn high_byte(v: u16) -> u8 {
    (v / 256) as u8
}

/// The low byte of a 16-bit value.
pub open spec fn low_byte(v: u16) -> u8 {
    (v % 256) as u8
}

/// An 8-bit two's complement offset as the 16-bit value that adds it modulo
/// 65536.
pub open spec fn sign_extend(e: u8) -> u16 {
    if e < 0x80 {
        e as u16
    } else {
        (0xff00 + e) as u16
    }
}

pub proof fn lemma_word(hi: u8, lo: u8)
    by (bit_vector)
    ensures
        ((hi as u16) << 8) | (lo as u16) == hi * 256 + lo,
{
}

pub proof fn lemma_bytes(v: u16)
    by (bit_vector)
    ensures
        (v >> 8) as u8 == (v / 256) as u8,
        (v & 0xff) as u8 == (v % 256) as u8,
        (v & 0xf0) as u8 == ((v % 256) as u8) & 0xf0,
{
}

pub proof fn lemma_masks(v: u16)
    by (bit_vector)
    ensures
        v & 0xff == v % 256,
        v & 0xf == v % 16,
        v & 0xfff == v % 4096,
{
}

pub proof fn lemma_nibble(a: u8)
    by (bit_vector)
    ensures
        a & 0xf == a % 16,
        a & 0xf <= 15,
{
}

pub proof fn lemma_sign_extend(e: u8)
    by (bit_vector)
    ensures
        (e as i8) as u16 == (if e < 0x80 {
            e as u16
        } else {
            (0xff00 + e) as u16
        }),
{
}

/// Splitting a value into bytes and joining them again gives the value.
pub proof fn lemma_word_of_bytes(v: u16)
    ensures
        word(high_byte(v), low_byte(v)) == v,
{
}

/// The bytes of a joined word are the bytes it was joined from.
pub proof fn lemma_bytes_of_word(hi: u8, lo: u8)
    ensures
        high_byte(word(hi, lo)) == hi,
        low_byte(word(hi, lo)) == lo,
{
}

} // verus!
