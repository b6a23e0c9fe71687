use vstd::prelude::*;

verus! {

/// Interrupt state shared by the CPU, the bus and the timer.
///
/// Both bytes use the same layout: bit 0 VBlank, bit 1 LCD-STAT, bit 2 timer,
/// bit 3 serial, bit 4 joypad. The upper three bits carry no meaning but are
/// stored as written.
pub struct Context {
    pub interrupt_flag: u8,
    pub interrupt_enable: u8,
}

impl Default for Context {
    fn default() -> (ctx: Context)
        ensures
            ctx.interrupt_flag == 0,
            ctx.interrupt_enable == 0,
    {
        Context { interrupt_flag: 0, interrupt_enable: 0 }
    }
}

} // verus!
