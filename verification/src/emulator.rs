use crate::bus::BusView;
use crate::cpu::CPU;
use crate::registers::Registers;
use crate::state::{CpuState, UndefinedOpcode};
use crate::timing::{elapsed, lemma_step_cost, MAX_STEP_TICKS};
use vstd::prelude::*;

verus! {

/// Bus ticks in one video frame.
pub const FRAME_TICKS: isize = 17556;

/// The machine together with the tick budget that runs it frame by frame.
pub struct Emulator {
    cpu: CPU,
    clocks: isize,
}

/// The emulator as plain values.
#[verifier::ext_equal]
pub struct EmulatorView {
    pub cpu: CpuState,
    /// Ticks of the budget not yet used. It is zero or negative between
    /// frames: a frame ends with the step that uses up the budget, and what
    /// that step took beyond it is charged to the next frame.
    pub clocks: int,
}

/// The register values that the boot ROM leaves behind.
pub open spec fn boot_registers() -> Registers {
    Registers {
        a: 0x00,
        f: 0x80,
        b: 0x00,
        c: 0x13,
        d: 0x00,
        e: 0xd8,
        h: 0x01,
        l: 0x4d,
        sp: 0xfffe,
        pc: 0x0100,
    }
}

/// The cartridge ROM with `image` copied to its start. An image longer than
/// the ROM is cut off at the end of the ROM.
pub open spec fn loaded(rom: Seq<u8>, image: Seq<u8>) -> Seq<u8> {
    Seq::new(
        rom.len(),
        |i: int|
            if i < image.len() {
                image[i]
            } else {
                rom[i]
            },
    )
}

/// Steps the machine until the budget `clocks` is used up or a step faults.
/// Returns the machine, what is left of the budget, and the fault if there
/// was one.
pub open spec fn run_frame(s: CpuState, clocks: int) -> (CpuState, int, Option<UndefinedOpcode>)
    decreases clocks + MAX_STEP_TICKS,
{
    if clocks <= 0 {
        (s, clocks, None)
    } else {
        proof {
            lemma_step_cost(s);
            assert(elapsed(s.ticks, s.step().ticks) >= 1);
        }
        let left = clocks - elapsed(s.ticks, s.step().ticks);
        match s.fault() {
            Some(fault) => (s.step(), left, Some(fault)),
            None => run_frame(s.step(), left),
        }
    }
}

impl View for Emulator {
    type V = EmulatorView;

    closed spec fn view(&self) -> EmulatorView {
        EmulatorView { cpu: self.cpu@, clocks: self.clocks as int }
    }
}

impl Emulator {
    /// The decode tables are in place and no budget is left over.
    pub closed spec fn wf(&self) -> bool {
        &&& self.cpu.wf()
        &&& -MAX_STEP_TICKS < self.clocks <= 0
    }

    pub fn new() -> (emulator: Emulator)
        ensures
            emulator.wf(),
            emulator@ == (EmulatorView { cpu: CpuState::blank(), clocks: 0 }),
    {
        Emulator { cpu: CPU::new(), clocks: 0 }
    }

    /// Puts the registers into the state that the boot ROM leaves behind,
    /// with interrupts disabled and the halt ended. Memory is kept.
    pub fn init(&mut self)
        ensures
            final(self).wf() == old(self).wf(),
            final(self)@ == (EmulatorView {
                cpu: CpuState {
                    regs: boot_registers(),
                    halted: false,
                    prev_ei: false,
                    ime: false,
                    ..old(self)@.cpu
                },
                ..old(self)@
            }),
    {
        self.cpu.registers.a = 0x00;
        self.cpu.registers.b = 0x00;
        self.cpu.registers.c = 0x13;
        self.cpu.registers.d = 0x00;
        self.cpu.registers.e = 0xd8;
        self.cpu.registers.f = 0x80;
        self.cpu.registers.h = 0x01;
        self.cpu.registers.l = 0x4d;
        self.cpu.registers.pc = 0x100;
        self.cpu.registers.sp = 0xfffe;
        self.cpu.is_halt = false;
        self.cpu.prev_ei = false;
        self.cpu.interrupt_master_enable = false;
    }

    /// Copies the image to the start of the cartridge ROM. The bytes of the
    /// ROM after the end of the image stay as they are; the part of an image
    /// that lies beyond the 32 KiB of the ROM is left out.
    pub fn load_rom(&mut self, rom_data: &[u8])
        ensures
            final(self).wf() == old(self).wf(),
            final(self)@ == (EmulatorView {
                cpu: CpuState {
                    bus: BusView {
                        cart_rom: loaded(old(self)@.cpu.bus.cart_rom, rom_data@),
                        ..old(self)@.cpu.bus
                    },
                    ..old(self)@.cpu
                },
                ..old(self)@
            }),
    {
        let n = if rom_data.len() < 32768 {
            rom_data.len()
        } else {
            32768
        };
        for i in 0..n
            invariant
                n <= 32768,
                n <= rom_data@.len(),
                self.clocks == old(self).clocks,
                self.cpu.wf() == old(self).cpu.wf(),
                self.cpu@ == (CpuState {
                    bus: BusView { cart_rom: self.cpu.bus.cart_rom@, ..old(self).cpu.bus@ },
                    ..old(self).cpu@
                }),
                forall|k: int| 0 <= k < i ==> self.cpu.bus.cart_rom@[k] == rom_data@[k],
                forall|k: int|
                    i <= k < 32768 ==> self.cpu.bus.cart_rom@[k] == old(self).cpu.bus.cart_rom@[k],
        {
            self.cpu.bus.cart_rom[i] = rom_data[i];
        }
        assert(self.cpu.bus.cart_rom@ =~= loaded(old(self).cpu.bus.cart_rom@, rom_data@));
    }

    /// Runs the machine for one frame: adds the ticks of a frame to the
    /// budget and steps until the budget is used up. The last step may take
    /// the budget below zero; the next frame starts from there.
    ///
    /// A step that fetches an opcode without an instruction ends the frame
    /// at once. The fault is returned and the rest of the budget is dropped.
    pub fn next_frame(&mut self) -> (r: Result<(), UndefinedOpcode>)
        requires
            old(self).wf(),
        ensures
            final(self).wf(),
            ({
                let (cpu, left, fault) = run_frame(old(self)@.cpu, old(self)@.clocks + FRAME_TICKS);
                match fault {
                    Some(f) => {
                        &&& r == Err::<(), UndefinedOpcode>(f)
                        &&& final(self)@ == (EmulatorView { cpu, clocks: 0 })
                    },
                    None => {
                        &&& r == Ok::<(), UndefinedOpcode>(())
                        &&& final(self)@ == (EmulatorView { cpu, clocks: left })
                    },
                }
            }),
    {
        self.clocks += FRAME_TICKS;
        while self.clocks > 0
            invariant
                self.cpu.wf(),
                -MAX_STEP_TICKS < self.clocks <= FRAME_TICKS,
                run_frame(self.cpu@, self.clocks as int) == run_frame(
                    old(self)@.cpu,
                    old(self)@.clocks + FRAME_TICKS,
                ),
            decreases self.clocks + MAX_STEP_TICKS,
        {
            proof {
                lemma_step_cost(self.cpu@);
            }
            let before = self.cpu.tick_count;
            match self.cpu.execute() {
                Ok(()) => {
                    let spent = self.cpu.tick_count.wrapping_sub(before);
                    assert(spent == elapsed(before, self.cpu.tick_count));
                    self.clocks -= spent;
                },
                Err(fault) => {
                    self.clocks = 0;
                    return Err(fault);
                },
            }
        }
        Ok(())
    }

    /// The machine, for inspection.
    pub fn cpu(&self) -> (cpu: &CPU)
        ensures
            cpu@ == self@.cpu,
            self.wf() ==> cpu.wf(),
    {
        &self.cpu
    }

    /// Hands out the bytes that the program has sent to the serial data
    /// register since the last call, oldest first.
    pub fn take_serial(&mut self) -> (bytes: Vec<u8>)
        ensures
            final(self).wf() == old(self).wf(),
            bytes@ == old(self)@.cpu.bus.serial,
            final(self)@ == (EmulatorView {
                cpu: CpuState {
                    bus: BusView { serial: Seq::empty(), ..old(self)@.cpu.bus },
                    ..old(self)@.cpu
                },
                ..old(self)@
            }),
    {
        self.cpu.bus.take_serial()
    }
}

} // verus!
