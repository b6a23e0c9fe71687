use vstd::prelude::*;

verus! {

pub const Z_FLAG: u8 = 0x80;

pub const N_FLAG: u8 = 0x40;

pub const H_FLAG: u8 = 0x20;

pub const C_FLAG: u8 = 0x10;

pub const VBLANK_INTERRUPT: u8 = 0x01;

pub const LCD_STAT_INTERRUPT: u8 = 0x02;

pub const TIMER_INTERRUPT: u8 = 0x04;

pub const SERIAL_INTERRUPT: u8 = 0x08;

pub const JOYPAD_INTERRUPT: u8 = 0x10;

/// Handler entry points, indexed by interrupt bit number.
pub const INTERRUPT_HANDLER: [u16; 5] = [0x40, 0x48, 0x50, 0x58, 0x60];

} // verus!
