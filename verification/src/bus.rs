use crate::context::Context;
use crate::timer::Timer;
use vstd::prelude::*;

verus! {

pub const CART_ROM_SIZE: usize = 32768;

pub const CART_RAM_SIZE: usize = 8192;

pub const WORK_RAM_SIZE: usize = 8192;

pub const HIGH_RAM_SIZE: usize = 127;

/// The memory bus: cartridge ROM and RAM, work RAM, high RAM, the timer, and
/// the bytes that the program has sent to the serial data register.
pub struct Bus {
    pub cart_rom: [u8; 32768],
    pub cart_ram: [u8; 8192],
    pub work_ram: [u8; 8192],
    pub high_ram: [u8; 127],
    pub timer: Timer,
    /// Bytes written to 0xff01, oldest first, until `take_serial` hands them
    /// out.
    pub serial: Vec<u8>,
}

/// The bus as plain values.
#[verifier::ext_equal]
pub struct BusView {
    pub cart_rom: Seq<u8>,
    pub cart_ram: Seq<u8>,
    pub work_ram: Seq<u8>,
    pub high_ram: Seq<u8>,
    pub timer: Timer,
    pub serial: Seq<u8>,
}

impl View for Bus {
    type V = BusView;

    open spec fn view(&self) -> BusView {
        BusView {
            cart_rom: self.cart_rom@,
            cart_ram: self.cart_ram@,
            work_ram: self.work_ram@,
            high_ram: self.high_ram@,
            timer: self.timer,
            serial: self.serial@,
        }
    }
}

impl BusView {
    /// The bus after power-on: all memory zero, the timer at rest, nothing
    /// sent.
    pub open spec fn blank() -> BusView {
        BusView {
            cart_rom: Seq::new(CART_ROM_SIZE as nat, |i: int| 0u8),
            cart_ram: Seq::new(CART_RAM_SIZE as nat, |i: int| 0u8),
            work_ram: Seq::new(WORK_RAM_SIZE as nat, |i: int| 0u8),
            high_ram: Seq::new(HIGH_RAM_SIZE as nat, |i: int| 0u8),
            timer: Timer {
                div: 0,
                tima: 0,
                tma: 0,
                tac: 0,
                timer_counter: 0,
                divider_counter: 0,
            },
            serial: Seq::empty(),
        }
    }

    /// Every region has the size of its address range.
    pub open spec fn wf(self) -> bool {
        &&& self.cart_rom.len() == CART_ROM_SIZE
        &&& self.cart_ram.len() == CART_RAM_SIZE
        &&& self.work_ram.len() == WORK_RAM_SIZE
        &&& self.high_ram.len() == HIGH_RAM_SIZE
    }

    /// The byte that a read of `addr` returns. Addresses that no region
    /// decodes read as 0xff.
    pub open spec fn read(self, ctx: Context, addr: u16) -> u8 {
        if addr <= 0x7fff {
            self.cart_rom[addr as int]
        } else if 0xa000 <= addr <= 0xbfff {
            self.cart_ram[addr - 0xa000]
        } else if 0xc000 <= addr <= 0xdfff {
            self.work_ram[addr - 0xc000]
        } else if addr == 0xff04 {
            self.timer.div
        } else if addr == 0xff05 {
            self.timer.tima
        } else if addr == 0xff06 {
            self.timer.tma
        } else if addr == 0xff07 {
            self.timer.tac
        } else if addr == 0xff0f {
            ctx.interrupt_flag
        } else if 0xff80 <= addr <= 0xfffe {
            self.high_ram[addr - 0xff80]
        } else if addr == 0xffff {
            ctx.interrupt_enable
        } else {
            0xff
        }
    }

    /// The bus and the interrupt state after `value` is written to `addr`.
    /// Writes to ROM and to undecoded addresses change nothing; a write to
    /// 0xff01 appends the byte to the serial output; any write to 0xff04
    /// clears DIV.
    pub open spec fn write(self, ctx: Context, addr: u16, value: u8) -> (BusView, Context) {
        if 0xa000 <= addr <= 0xbfff {
            (BusView { cart_ram: self.cart_ram.update(addr - 0xa000, value), ..self }, ctx)
        } else if 0xc000 <= addr <= 0xdfff {
            (BusView { work_ram: self.work_ram.update(addr - 0xc000, value), ..self }, ctx)
        } else if addr == 0xff01 {
            (BusView { serial: self.serial.push(value), ..self }, ctx)
        } else if addr == 0xff04 {
            (BusView { timer: Timer { div: 0, ..self.timer }, ..self }, ctx)
        } else if addr == 0xff05 {
            (BusView { timer: Timer { tima: value, ..self.timer }, ..self }, ctx)
        } else if addr == 0xff06 {
            (BusView { timer: Timer { tma: value, ..self.timer }, ..self }, ctx)
        } else if addr == 0xff07 {
            (BusView { timer: Timer { tac: value, ..self.timer }, ..self }, ctx)
        } else if addr == 0xff0f {
            (self, Context { interrupt_flag: value, ..ctx })
        } else if 0xff80 <= addr <= 0xfffe {
            (BusView { high_ram: self.high_ram.update(addr - 0xff80, value), ..self }, ctx)
        } else if addr == 0xffff {
            (self, Context { interrupt_enable: value, ..ctx })
        } else {
            (self, ctx)
        }
    }

    /// The bus and the interrupt state one bus tick later: the timer has
    /// made one tick, and nothing else has changed.
    pub open spec fn tick(self, ctx: Context) -> (BusView, Context) {
        let (timer, c) = self.timer.tick_spec(ctx);
        (BusView { timer, ..self }, c)
    }
}

/// True for the addresses that store what is written to them.
pub open spec fn is_ram(addr: u16) -> bool {
    (0xa000 <= addr <= 0xbfff) || (0xc000 <= addr <= 0xdfff) || (0xff80 <= addr <= 0xfffe)
}

impl Bus {
    pub fn new() -> (bus: Bus)
        ensures
            bus@ == BusView::blank(),
    {
        let bus = Bus {
            cart_rom: [0; 32768],
            cart_ram: [0; 8192],
            work_ram: [0; 8192],
            high_ram: [0; 127],
            timer: Timer::default(),
            serial: Vec::new(),
        };
        assert(bus@ =~= BusView::blank());
        bus
    }

    /// Advances the timer by one tick. The bus has no other periodic work.
    pub fn tick(&mut self, ctx: &mut Context)
        ensures
            (final(self)@, *final(ctx)) == old(self)@.tick(*old(ctx)),
    {
        self.timer.tick(ctx);
    }

    pub fn read(&mut self, ctx: &Context, addr: u16) -> (value: u8)
        ensures
            value == old(self)@.read(*ctx, addr),
            *final(self) == *old(self),
    {
        if addr <= 0x7fff {
            self.cart_rom[addr as usize]
        } else if 0xa000 <= addr && addr <= 0xbfff {
            self.cart_ram[addr as usize - 0xa000]
        } else if 0xc000 <= addr && addr <= 0xdfff {
            self.work_ram[addr as usize - 0xc000]
        } else if addr == 0xff04 {
            self.timer.div
        } else if addr == 0xff05 {
            self.timer.tima
        } else if addr == 0xff06 {
            self.timer.tma
        } else if addr == 0xff07 {
            self.timer.tac
        } else if addr == 0xff0f {
            ctx.interrupt_flag
        } else if 0xff80 <= addr && addr <= 0xfffe {
            self.high_ram[addr as usize - 0xff80]
        } else if addr == 0xffff {
            ctx.interrupt_enable
        } else {
            0xff
        }
    }

    pub fn write(&mut self, ctx: &mut Context, addr: u16, value: u8)
        ensures
            (final(self)@, *final(ctx)) == old(self)@.write(*old(ctx), addr, value),
    {
        if 0xa000 <= addr && addr <= 0xbfff {
            self.cart_ram[addr as usize - 0xa000] = value;
        } else if 0xc000 <= addr && addr <= 0xdfff {
            self.work_ram[addr as usize - 0xc000] = value;
        } else if addr == 0xff01 {
            self.serial.push(value);
        } else if addr == 0xff04 {
            // Writing any value to this register resets it to 0x00.
            self.timer.div = 0;
        } else if addr == 0xff05 {
            self.timer.tima = value;
        } else if addr == 0xff06 {
            self.timer.tma = value;
        } else if addr == 0xff07 {
            self.timer.tac = value;
        } else if addr == 0xff0f {
            ctx.interrupt_flag = value;
        } else if 0xff80 <= addr && addr <= 0xfffe {
            self.high_ram[addr as usize - 0xff80] = value;
        } else if addr == 0xffff {
            ctx.interrupt_enable = value;
        }
    }

    /// Hands out the bytes sent to the serial data register since the last
    /// call, oldest first, and starts an empty record.
    pub fn take_serial(&mut self) -> (bytes: Vec<u8>)
        ensures
            bytes@ == old(self)@.serial,
            final(self)@ == (BusView { serial: Seq::empty(), ..old(self)@ }),
    {
        let mut bytes = Vec::new();
        std::mem::swap(&mut bytes, &mut self.serial);
        bytes
    }
}

/// Whatever is written to DIV, it reads back as zero.
pub proof fn lemma_div_write_reads_zero(bus: BusView, ctx: Context, value: u8)
    ensures
        ({
            let (b, c) = bus.write(ctx, 0xff04, value);
            b.read(c, 0xff04) == 0
        }),
{
}

/// A RAM address reads back the byte last written to it, and a write there
/// leaves every other address as it read before.
pub proof fn lemma_ram_read_after_write(bus: BusView, ctx: Context, addr: u16, value: u8, other: u16)
    requires
        bus.wf(),
        is_ram(addr),
    ensures
        ({
            let (b, c) = bus.write(ctx, addr, value);
            &&& b.read(c, addr) == value
            &&& other != addr ==> b.read(c, other) == bus.read(ctx, other)
            &&& b.wf()
        }),
{
}

/// Writes to cartridge ROM and to undecoded addresses are dropped.
pub proof fn lemma_rom_write_dropped(bus: BusView, ctx: Context, addr: u16, value: u8)
    requires
        addr <= 0x7fff,
    ensures
        bus.write(ctx, addr, value) == (bus, ctx),
{
}

} // verus!
