//! The machine as a value, and what each micro-operation and instruction
//! makes of it. The interpreter's contracts are stated over these functions.

use crate::alu::{
    add16, add8, add_signed16, bit_set, daa8, daa_carry, dec8, inc8, rl8, rlc8, rr8, rrc8, sla8,
    sra8, srl8, sub8, swap8, with_bit, without_bit,
};
use crate::bits::{high_byte, low_byte, word};
use crate::bus::BusView;
use crate::context::Context;
use crate::inst::{decode, decode_prefixed, Inst, JumpCond, Op16, Op8};
use crate::registers::Registers;
use vstd::prelude::*;

verus! {

/// The state of the processor with its bus and interrupt lines.
#[verifier::ext_equal]
pub struct CpuState {
    pub regs: Registers,
    pub bus: BusView,
    pub ctx: Context,
    pub halted: bool,
    /// The previous step executed EI.
    pub prev_ei: bool,
    pub ime: bool,
    /// Bus ticks counted so far, modulo the width of the counter.
    pub ticks: isize,
}

/// What a step reports when it fetches an opcode that has no instruction.
#[derive(Debug, Clone, Copy, PartialEq, Eq, Structural)]
pub struct UndefinedOpcode {
    pub opcode: u8,
    /// Where the opcode was fetched from.
    pub address: u16,
}

/// The tick counter one tick later. It starts again from the smallest value
/// after the largest.
pub open spec fn next_tick(t: isize) -> isize {
    if t == isize::MAX {
        isize::MIN
    } else {
        (t + 1) as isize
    }
}

/// An integer reduced to 16 bits.
pub open spec fn wrap16(x: int) -> u16 {
    (x % 65536) as u16
}

/// The handler address of interrupt number `i`.
pub open spec fn handler(i: int) -> u16 {
    (0x40 + 8 * i) as u16
}

/// The number of the lowest set bit among the five interrupt bits.
pub open spec fn lowest_pending(p: u8) -> int {
    if p & 0x01 != 0 {
        0
    } else if p & 0x02 != 0 {
        1
    } else if p & 0x04 != 0 {
        2
    } else if p & 0x08 != 0 {
        3
    } else {
        4
    }
}

/// The byte with only bit `i` set, for the five interrupt bits.
pub open spec fn interrupt_bit(i: int) -> u8 {
    if i == 0 {
        0x01
    } else if i == 1 {
        0x02
    } else if i == 2 {
        0x04
    } else if i == 3 {
        0x08
    } else {
        0x10
    }
}

/// The result and the carry of a prefixed rotate or shift of `a`.
pub open spec fn shifted(inst: Inst, a: u8, c: bool) -> (u8, bool) {
    match inst {
        Inst::RLC(_) => rlc8(a),
        Inst::RRC(_) => rrc8(a),
        Inst::RL(_) => rl8(a, c),
        Inst::RR(_) => rr8(a, c),
        Inst::SLA(_) => sla8(a),
        Inst::SRA(_) => sra8(a),
        Inst::SWAP(_) => (swap8(a), false),
        _ => srl8(a),
    }
}

impl CpuState {
    /// The machine after power-on: registers and memory zero, interrupts
    /// disabled, not halted.
    pub open spec fn blank() -> CpuState {
        CpuState {
            regs: Registers { a: 0, b: 0, c: 0, d: 0, e: 0, f: 0, h: 0, l: 0, sp: 0, pc: 0 },
            bus: BusView::blank(),
            ctx: Context { interrupt_flag: 0, interrupt_enable: 0 },
            halted: false,
            prev_ei: false,
            ime: false,
            ticks: 0,
        }
    }

    pub open spec fn with_regs(self, regs: Registers) -> CpuState {
        CpuState { regs, ..self }
    }

    pub open spec fn with_pc(self, pc: u16) -> CpuState {
        CpuState { regs: Registers { pc, ..self.regs }, ..self }
    }

    pub open spec fn with_sp(self, sp: u16) -> CpuState {
        CpuState { regs: Registers { sp, ..self.regs }, ..self }
    }

    /// One bus tick: the counter advances and the timer makes one tick.
    #[verifier::opaque]
    pub open spec fn tick(self) -> CpuState {
        let (bus, ctx) = self.bus.tick(self.ctx);
        CpuState { bus, ctx, ticks: next_tick(self.ticks), ..self }
    }

    /// A memory read. It costs one tick, which passes before the byte is
    /// taken.
    #[verifier::opaque]
    pub open spec fn read(self, addr: u16) -> (CpuState, u8) {
        let s = self.tick();
        (s, s.bus.read(s.ctx, addr))
    }

    /// A memory write. It costs one tick, which passes before the byte is
    /// stored.
    #[verifier::opaque]
    pub open spec fn write(self, addr: u16, value: u8) -> CpuState {
        let s = self.tick();
        let (bus, ctx) = s.bus.write(s.ctx, addr, value);
        CpuState { bus, ctx, ..s }
    }

    /// Reads the byte at PC and moves PC past it.
    #[verifier::opaque]
    pub open spec fn fetch(self) -> (CpuState, u8) {
        let (s, value) = self.read(self.regs.pc);
        (s.with_pc(wrap16(self.regs.pc + 1)), value)
    }

    /// Fetches a little-endian word.
    #[verifier::opaque]
    pub open spec fn fetch_word(self) -> (CpuState, u16) {
        let (s1, lower) = self.fetch();
        let (s2, upper) = s1.fetch();
        (s2, word(upper, lower))
    }

    /// Evaluates a 16-bit operand. Immediate forms fetch their bytes.
    #[verifier::opaque]
    pub open spec fn get16(self, src: Op16) -> (CpuState, u16) {
        match src {
            Op16::RegBC => (self, self.regs.bc()),
            Op16::RegDE => (self, self.regs.de()),
            Op16::RegHL => (self, self.regs.hl()),
            Op16::RegSP => (self, self.regs.sp),
            Op16::RegAF => (self, self.regs.af()),
            Op16::Imm => self.fetch_word(),
            Op16::AddImmToFF00 => {
                let (s, offset) = self.fetch();
                (s, (0xff00 + offset) as u16)
            },
            Op16::AddRegCToFF00 => (self, (0xff00 + self.regs.c) as u16),
            Op16::AddrImm | Op16::AddImmToSP => (self, 0),
        }
    }

    /// Stores to a 16-bit operand. The memory form fetches its address and
    /// writes the low byte first.
    #[verifier::opaque]
    pub open spec fn set16(self, dst: Op16, value: u16) -> CpuState {
        match dst {
            Op16::RegBC => self.with_regs(self.regs.with_bc(value)),
            Op16::RegDE => self.with_regs(self.regs.with_de(value)),
            Op16::RegHL => self.with_regs(self.regs.with_hl(value)),
            Op16::RegSP => self.with_sp(value),
            Op16::RegAF => self.with_regs(self.regs.with_af(value)),
            Op16::AddrImm => {
                let (s, addr) = self.fetch_word();
                s.write(addr, low_byte(value)).write(wrap16(addr + 1), high_byte(value))
            },
            _ => self,
        }
    }

    /// Evaluates an 8-bit operand.
    #[verifier::opaque]
    pub open spec fn get8(self, src: Op8) -> (CpuState, u8) {
        match src {
            Op8::RegA => (self, self.regs.a),
            Op8::RegB => (self, self.regs.b),
            Op8::RegC => (self, self.regs.c),
            Op8::RegD => (self, self.regs.d),
            Op8::RegE => (self, self.regs.e),
            Op8::RegH => (self, self.regs.h),
            Op8::RegL => (self, self.regs.l),
            Op8::Imm => self.fetch(),
            Op8::Addr(op) => {
                let (s, addr) = self.get16(op);
                s.read(addr)
            },
        }
    }

    /// Stores to an 8-bit operand.
    #[verifier::opaque]
    pub open spec fn set8(self, dst: Op8, value: u8) -> CpuState {
        match dst {
            Op8::RegA => self.with_regs(Registers { a: value, ..self.regs }),
            Op8::RegB => self.with_regs(Registers { b: value, ..self.regs }),
            Op8::RegC => self.with_regs(Registers { c: value, ..self.regs }),
            Op8::RegD => self.with_regs(Registers { d: value, ..self.regs }),
            Op8::RegE => self.with_regs(Registers { e: value, ..self.regs }),
            Op8::RegH => self.with_regs(Registers { h: value, ..self.regs }),
            Op8::RegL => self.with_regs(Registers { l: value, ..self.regs }),
            Op8::Imm => self,
            Op8::Addr(op) => {
                let (s, addr) = self.get16(op);
                s.write(addr, value)
            },
        }
    }

    /// True when the flags meet the condition.
    pub open spec fn holds(self, cond: JumpCond) -> bool {
        match cond {
            JumpCond::NONE => true,
            JumpCond::NZ => !self.regs.zf(),
            JumpCond::Z => self.regs.zf(),
            JumpCond::NC => !self.regs.cf(),
            JumpCond::C => self.regs.cf(),
        }
    }

    /// Pushes a word: SP goes down by two, the low byte is written at SP
    /// and the high byte above it.
    #[verifier::opaque]
    pub open spec fn push(self, value: u16) -> CpuState {
        let sp = wrap16(self.regs.sp - 2);
        self.with_sp(sp).write(sp, low_byte(value)).write(wrap16(sp + 1), high_byte(value))
    }

    /// Reads the word at SP. SP itself stays.
    #[verifier::opaque]
    pub open spec fn peek(self) -> (CpuState, u16) {
        let (s1, lower) = self.read(self.regs.sp);
        let (s2, upper) = s1.read(wrap16(self.regs.sp + 1));
        (s2, word(upper, lower))
    }

    /// Returns to the address on the stack: two reads, one idle tick, then
    /// PC and SP change.
    #[verifier::opaque]
    pub open spec fn ret(self) -> CpuState {
        let (s, addr) = self.peek();
        let s = s.tick();
        s.with_regs(Registers { pc: addr, sp: wrap16(s.regs.sp + 2), ..s.regs })
    }

    /// Calls `addr`: PC is pushed, one idle tick passes, PC changes.
    #[verifier::opaque]
    pub open spec fn call(self, addr: u16) -> CpuState {
        self.push(self.regs.pc).tick().with_pc(addr)
    }

    #[verifier::opaque]
    pub open spec fn ld(self, dst: Op8, src: Op8) -> CpuState {
        let (s, value) = self.get8(src);
        s.set8(dst, value)
    }

    /// The loads through HL that move HL by `step` afterwards.
    #[verifier::opaque]
    pub open spec fn ld_step(self, dst: Op8, step: int) -> CpuState {
        let hl = self.regs.hl();
        if dst == Op8::RegA {
            let (s, value) = self.read(hl);
            s.with_regs(Registers { a: value, ..s.regs }.with_hl(wrap16(hl + step)))
        } else {
            let s = self.write(hl, self.regs.a);
            s.with_regs(s.regs.with_hl(wrap16(hl + step)))
        }
    }

    #[verifier::opaque]
    pub open spec fn ld16(self, dst: Op16, src: Op16) -> CpuState {
        if dst == Op16::AddrImm && src == Op16::RegSP {
            self.set16(Op16::AddrImm, self.regs.sp)
        } else if dst == Op16::RegSP && src == Op16::RegHL {
            let s = self.tick();
            s.with_sp(s.regs.hl())
        } else if dst == Op16::RegHL && src == Op16::AddImmToSP {
            let (s, e) = self.fetch();
            let s = s.tick();
            let r = add_signed16(self.regs.sp, e);
            s.with_regs(s.regs.with_hl(r.value).with_flags(false, false, r.half_carry, r.carry))
        } else {
            let (s, value) = self.get16(src);
            s.set16(dst, value)
        }
    }

    #[verifier::opaque]
    pub open spec fn push_op(self, op: Op16) -> CpuState {
        let (s, value) = self.get16(op);
        s.tick().push(value)
    }

    #[verifier::opaque]
    pub open spec fn pop_op(self, op: Op16) -> CpuState {
        let (s, value) = self.peek();
        s.with_sp(wrap16(s.regs.sp + 2)).set16(op, value)
    }

    /// ADD and ADC: `carry` tells whether the carry flag takes part.
    #[verifier::opaque]
    pub open spec fn add(self, op: Op8, carry: bool) -> CpuState {
        let (s, b) = self.get8(op);
        let r = add8(s.regs.a, b, carry && s.regs.cf());
        s.with_regs(
            Registers { a: r.value, ..s.regs }.with_flags(
                r.value == 0,
                false,
                r.half_carry,
                r.carry,
            ),
        )
    }

    /// SUB, SBC and CP: `carry` tells whether the carry flag takes part,
    /// `store` whether the result goes to the accumulator.
    #[verifier::opaque]
    pub open spec fn sub(self, op: Op8, carry: bool, store: bool) -> CpuState {
        let (s, b) = self.get8(op);
        let r = sub8(s.regs.a, b, carry && s.regs.cf());
        let a = if store {
            r.value
        } else {
            s.regs.a
        };
        s.with_regs(
            Registers { a, ..s.regs }.with_flags(r.value == 0, true, r.half_carry, r.carry),
        )
    }

    #[verifier::opaque]
    pub open spec fn and(self, op: Op8) -> CpuState {
        let (s, b) = self.get8(op);
        let value = s.regs.a & b;
        s.with_regs(Registers { a: value, ..s.regs }.with_flags(value == 0, false, true, false))
    }

    #[verifier::opaque]
    pub open spec fn or(self, op: Op8) -> CpuState {
        let (s, b) = self.get8(op);
        let value = s.regs.a | b;
        s.with_regs(Registers { a: value, ..s.regs }.with_flags(value == 0, false, false, false))
    }

    #[verifier::opaque]
    pub open spec fn xor(self, op: Op8) -> CpuState {
        let (s, b) = self.get8(op);
        let value = s.regs.a ^ b;
        s.with_regs(Registers { a: value, ..s.regs }.with_flags(value == 0, false, false, false))
    }

    #[verifier::opaque]
    pub open spec fn inc(self, op: Op8) -> CpuState {
        let (s, a) = self.get8(op);
        let (value, half_carry) = inc8(a);
        let s = s.set8(op, value);
        s.with_regs(s.regs.with_z(value == 0).with_n(false).with_h(half_carry))
    }

    #[verifier::opaque]
    pub open spec fn dec(self, op: Op8) -> CpuState {
        let (s, a) = self.get8(op);
        let (value, half_carry) = dec8(a);
        let s = s.set8(op, value);
        s.with_regs(s.regs.with_z(value == 0).with_n(true).with_h(half_carry))
    }

    #[verifier::opaque]
    pub open spec fn daa(self) -> CpuState {
        let r = self.regs;
        let value = daa8(r.a, r.nf(), r.hf(), r.cf());
        self.with_regs(
            Registers { a: value, ..r }.with_z(value == 0).with_h(false).with_c(
                daa_carry(r.a, r.nf(), r.cf()),
            ),
        )
    }

    #[verifier::opaque]
    pub open spec fn cpl(self) -> CpuState {
        self.with_regs(Registers { a: self.regs.a ^ 0xff, ..self.regs }.with_n(true).with_h(true))
    }

    #[verifier::opaque]
    pub open spec fn add_hl(self, op: Op16) -> CpuState {
        let s = self.tick();
        let (s, b) = s.get16(op);
        let r = add16(s.regs.hl(), b);
        s.with_regs(
            s.regs.with_hl(r.value).with_n(false).with_h(r.half_carry).with_c(r.carry),
        )
    }

    #[verifier::opaque]
    pub open spec fn step16(self, op: Op16, step: int) -> CpuState {
        let (s, a) = self.get16(op);
        s.tick().set16(op, wrap16(a + step))
    }

    #[verifier::opaque]
    pub open spec fn add_sp(self) -> CpuState {
        let (s, e) = self.fetch();
        let s = s.tick().tick();
        let r = add_signed16(self.regs.sp, e);
        s.with_regs(
            Registers { sp: r.value, ..s.regs }.with_flags(false, false, r.half_carry, r.carry),
        )
    }

    /// The four accumulator rotates: like the prefixed ones on A, but Z is
    /// always cleared.
    #[verifier::opaque]
    pub open spec fn rotate_a(self, r: (u8, bool)) -> CpuState {
        self.with_regs(Registers { a: r.0, ..self.regs }.with_flags(false, false, false, r.1))
    }

    #[verifier::opaque]
    pub open spec fn ccf(self) -> CpuState {
        self.with_regs(self.regs.with_n(false).with_h(false).with_c(!self.regs.cf()))
    }

    #[verifier::opaque]
    pub open spec fn scf(self) -> CpuState {
        self.with_regs(self.regs.with_n(false).with_h(false).with_c(true))
    }

    #[verifier::opaque]
    pub open spec fn jp(self, cond: JumpCond, op: Op16) -> CpuState {
        if cond == JumpCond::NONE && op == Op16::RegHL {
            self.with_pc(self.regs.hl())
        } else {
            let (s, addr) = self.get16(op);
            if s.holds(cond) {
                s.tick().with_pc(addr)
            } else {
                s
            }
        }
    }

    #[verifier::opaque]
    pub open spec fn jr(self, cond: JumpCond) -> CpuState {
        let (s, e) = self.fetch();
        if s.holds(cond) {
            let s = s.tick();
            s.with_pc(add_signed16(s.regs.pc, e).value)
        } else {
            s
        }
    }

    #[verifier::opaque]
    pub open spec fn call_cond(self, cond: JumpCond) -> CpuState {
        let (s, addr) = self.fetch_word();
        if s.holds(cond) {
            s.call(addr)
        } else {
            s
        }
    }

    /// RET spends one idle tick before the condition is looked at, whether
    /// there is a condition or not, and whether it holds or not.
    #[verifier::opaque]
    pub open spec fn ret_cond(self, cond: JumpCond) -> CpuState {
        let s = self.tick();
        if s.holds(cond) {
            s.ret()
        } else {
            s
        }
    }

    #[verifier::opaque]
    pub open spec fn reti(self) -> CpuState {
        CpuState { ime: true, ..self.ret() }
    }

    /// The prefixed rotates and shifts: the operand is replaced by the
    /// result, the flags are set from it and from the bit shifted out.
    #[verifier::opaque]
    pub open spec fn shift(self, inst: Inst, op: Op8) -> CpuState {
        let (s, a) = self.get8(op);
        let r = shifted(inst, a, s.regs.cf());
        let s = s.set8(op, r.0);
        s.with_regs(s.regs.with_flags(r.0 == 0, false, false, r.1))
    }

    #[verifier::opaque]
    pub open spec fn test_bit(self, n: usize, op: Op8) -> CpuState {
        let (s, a) = self.get8(op);
        s.with_regs(s.regs.with_z(!bit_set(a, n)).with_n(false).with_h(true))
    }

    #[verifier::opaque]
    pub open spec fn set_bit(self, n: usize, op: Op8) -> CpuState {
        let (s, a) = self.get8(op);
        s.set8(op, with_bit(a, n))
    }

    #[verifier::opaque]
    pub open spec fn reset_bit(self, n: usize, op: Op8) -> CpuState {
        let (s, a) = self.get8(op);
        s.set8(op, without_bit(a, n))
    }

    /// The state after an instruction, starting right after its opcode has
    /// been fetched.
    pub open spec fn execute(self, inst: Inst) -> CpuState {
        match inst {
            Inst::LD(dst, src) => self.ld(dst, src),
            Inst::LDI(dst, _) => self.ld_step(dst, 1),
            Inst::LDD(dst, _) => self.ld_step(dst, -1),
            Inst::LD16(dst, src) => self.ld16(dst, src),
            Inst::PUSH(op) => self.push_op(op),
            Inst::POP(op) => self.pop_op(op),
            Inst::ADD(op) => self.add(op, false),
            Inst::ADC(op) => self.add(op, true),
            Inst::SUB(op) => self.sub(op, false, true),
            Inst::SBC(op) => self.sub(op, true, true),
            Inst::AND(op) => self.and(op),
            Inst::XOR(op) => self.xor(op),
            Inst::OR(op) => self.or(op),
            Inst::CP(op) => self.sub(op, false, false),
            Inst::INC(op) => self.inc(op),
            Inst::DEC(op) => self.dec(op),
            Inst::DAA => self.daa(),
            Inst::CPL => self.cpl(),
            Inst::ADDHL(op) => self.add_hl(op),
            Inst::INC16(op) => self.step16(op, 1),
            Inst::DEC16(op) => self.step16(op, -1),
            Inst::ADDSP => self.add_sp(),
            Inst::RLCA => self.rotate_a(rlc8(self.regs.a)),
            Inst::RLA => self.rotate_a(rl8(self.regs.a, self.regs.cf())),
            Inst::RRCA => self.rotate_a(rrc8(self.regs.a)),
            Inst::RRA => self.rotate_a(rr8(self.regs.a, self.regs.cf())),
            Inst::CCF => self.ccf(),
            Inst::SCF => self.scf(),
            Inst::HALT => CpuState { halted: true, ..self },
            Inst::DI => CpuState { ime: false, ..self },
            Inst::JP(cond, op) => self.jp(cond, op),
            Inst::JR(cond) => self.jr(cond),
            Inst::CALL(cond) => self.call_cond(cond),
            Inst::RET(cond) => self.ret_cond(cond),
            Inst::RETI => self.reti(),
            Inst::RST(addr) => self.call(addr),
            Inst::RLC(op)
            | Inst::RRC(op)
            | Inst::RL(op)
            | Inst::RR(op)
            | Inst::SLA(op)
            | Inst::SRA(op)
            | Inst::SWAP(op)
            | Inst::SRL(op) => self.shift(inst, op),
            Inst::BIT(n, op) => self.test_bit(n, op),
            Inst::SET(n, op) => self.set_bit(n, op),
            Inst::RES(n, op) => self.reset_bit(n, op),
            // NOP, STOP and EI change nothing by themselves; UNK and PREFIX
            // are dealt with before an instruction is executed.
            _ => self,
        }
    }

    /// The interrupts that are both requested and enabled.
    pub open spec fn pending(self) -> u8 {
        self.ctx.interrupt_flag & self.ctx.interrupt_enable & 0x1f
    }

    /// Accepts interrupt number `i`: IME and the request bit are cleared.
    pub open spec fn acknowledge(self, i: int) -> CpuState {
        CpuState {
            ime: false,
            ctx: Context {
                interrupt_flag: self.ctx.interrupt_flag & (0xffu8 ^ interrupt_bit(i)),
                ..self.ctx
            },
            ..self
        }
    }

    /// Services interrupt number `i`: it is accepted, two idle ticks pass,
    /// PC is pushed, one more tick passes, and PC becomes the handler
    /// address.
    #[verifier::opaque]
    pub open spec fn dispatch(self, i: int) -> CpuState {
        self.acknowledge(i).tick().tick().push(self.regs.pc).tick().with_pc(handler(i))
    }

    /// Fetches and executes one instruction, then applies the delayed
    /// effect of EI: IME becomes true if the previous step executed EI.
    /// An opcode without an instruction stops the step after its fetch.
    pub open spec fn run(self) -> CpuState {
        let (s, opcode) = self.fetch();
        let inst = decode(opcode);
        if inst is UNK {
            s
        } else {
            let done = if inst is PREFIX {
                let (s2, second) = s.fetch();
                s2.execute(decode_prefixed(second))
            } else {
                s.execute(inst)
            };
            CpuState { ime: done.ime || self.prev_ei, prev_ei: inst is EI, ..done }
        }
    }

    /// The state with the halt ended.
    pub open spec fn woken(self) -> CpuState {
        CpuState { halted: false, ..self }
    }

    /// True when the step is the service of an interrupt.
    pub open spec fn dispatches(self) -> bool {
        self.pending() != 0 && self.ime
    }

    /// True when the step fetches and executes an instruction.
    pub open spec fn runs(self) -> bool {
        !self.dispatches() && (self.pending() != 0 || !self.halted)
    }

    /// One step: the service of the lowest pending interrupt if IME allows
    /// it, else one idle tick if halted, else one instruction. A pending
    /// interrupt ends the halt whether or not it is serviced.
    pub open spec fn step(self) -> CpuState {
        if self.dispatches() {
            self.woken().dispatch(lowest_pending(self.pending()))
        } else if self.runs() {
            self.woken().run()
        } else {
            self.tick()
        }
    }

    /// The fault of the step, if it fetches an opcode without an
    /// instruction.
    pub open spec fn fault(self) -> Option<UndefinedOpcode> {
        let opcode = self.woken().fetch().1;
        if self.runs() && decode(opcode) is UNK {
            Some(UndefinedOpcode { opcode, address: self.regs.pc })
        } else {
            None
        }
    }
}

} // verus!
