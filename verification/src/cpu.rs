use crate::alu;
use crate::bits::{lemma_bytes, lemma_word};
use crate::bus::Bus;
use crate::consts;
use crate::context::Context;
use crate::inst::{
    decode, decode_prefixed, generate_inst_table, generate_prefix_inst_table,
    lemma_decode_prefixed_well_formed, lemma_decode_well_formed, Inst, JumpCond, Op16, Op8,
};
use crate::registers::lemma_flag_set_get;
pub use crate::registers::Registers;
use crate::state::{interrupt_bit, lowest_pending, CpuState};
pub use crate::state::UndefinedOpcode;
use vstd::prelude::*;

verus! {

/// The processor with its bus, its interrupt state and its decode tables.
pub struct CPU {
    pub bus: Bus,
    pub registers: Registers,
    pub ctx: Context,
    pub is_halt: bool,
    pub prev_ei: bool,
    pub interrupt_master_enable: bool,
    pub tick_count: isize,
    pub inst_table: [Inst; 256],
    pub prefix_inst_table: [Inst; 256],
}

impl View for CPU {
    type V = CpuState;

    open spec fn view(&self) -> CpuState {
        CpuState {
            regs: self.registers,
            bus: self.bus@,
            ctx: self.ctx,
            halted: self.is_halt,
            prev_ei: self.prev_ei,
            ime: self.interrupt_master_enable,
            ticks: self.tick_count,
        }
    }
}

impl CPU {
    /// The two tables hold what the opcodes decode to.
    pub open spec fn wf(&self) -> bool {
        &&& forall|opcode: u8| #[trigger] self.inst_table@[opcode as int] == decode(opcode)
        &&& forall|opcode: u8| #[trigger]
            self.prefix_inst_table@[opcode as int] == decode_prefixed(opcode)
    }

    /// What no instruction changes: the decode tables, and the record of
    /// whether the previous step executed EI.
    pub open spec fn keeps_tables(&self, before: &CPU) -> bool {
        &&& self.inst_table == before.inst_table
        &&& self.prefix_inst_table == before.prefix_inst_table
        &&& self.prev_ei == before.prev_ei
    }

    /// The registers of `self` are those of `before`, but for PC.
    pub open spec fn moves_pc_only(&self, before: &CPU) -> bool {
        self.registers == (Registers { pc: self.registers.pc, ..before.registers })
    }

    /// A processor with cleared registers and memory, interrupts disabled.
    pub fn new() -> (cpu: CPU)
        ensures
            cpu.wf(),
            cpu@ == CpuState::blank(),
    {
        CPU {
            bus: Bus::new(),
            registers: Registers::default(),
            ctx: Context::default(),
            is_halt: false,
            prev_ei: false,
            interrupt_master_enable: false,
            tick_count: 0,
            inst_table: generate_inst_table(),
            prefix_inst_table: generate_prefix_inst_table(),
        }
    }

    fn tick(&mut self)
        ensures
            final(self)@ == old(self)@.tick(),
            final(self).keeps_tables(old(self)),
            final(self).registers == old(self).registers,
    {
        proof {
            reveal(CpuState::tick);
        }
        self.tick_count = self.tick_count.wrapping_add(1);
        self.bus.tick(&mut self.ctx);
    }

    fn read(&mut self, addr: u16) -> (value: u8)
        ensures
            (final(self)@, value) == old(self)@.read(addr),
            final(self).keeps_tables(old(self)),
            final(self).registers == old(self).registers,
    {
        proof {
            reveal(CpuState::read);
        }
        self.tick();
        self.bus.read(&self.ctx, addr)
    }

    fn write(&mut self, addr: u16, value: u8)
        ensures
            final(self)@ == old(self)@.write(addr, value),
            final(self).keeps_tables(old(self)),
            final(self).registers == old(self).registers,
    {
        proof {
            reveal(CpuState::write);
        }
        self.tick();
        self.bus.write(&mut self.ctx, addr, value);
    }

    fn fetch(&mut self) -> (value: u8)
        ensures
            (final(self)@, value) == old(self)@.fetch(),
            final(self).keeps_tables(old(self)),
            final(self).moves_pc_only(old(self)),
    {
        proof {
            reveal(CpuState::fetch);
        }
        let value = self.read(self.registers.pc);
        self.registers.pc = self.registers.pc.wrapping_add(1);
        value
    }

    fn fetch_word(&mut self) -> (value: u16)
        ensures
            (final(self)@, value) == old(self)@.fetch_word(),
            final(self).keeps_tables(old(self)),
            final(self).moves_pc_only(old(self)),
    {
        proof {
            reveal(CpuState::fetch_word);
        }
        let lower = self.fetch();
        let upper = self.fetch();
        proof {
            lemma_word(upper, lower);
        }
        ((upper as u16) << 8) | (lower as u16)
    }

    fn get16(&mut self, src: Op16) -> (value: u16)
        requires
            src.readable(),
        ensures
            (final(self)@, value) == old(self)@.get16(src),
            final(self).keeps_tables(old(self)),
            final(self).moves_pc_only(old(self)),
    {
        proof {
            reveal(CpuState::get16);
        }
        match src {
            Op16::RegBC => self.registers.get_bc(),
            Op16::RegDE => self.registers.get_de(),
            Op16::RegHL => self.registers.get_hl(),
            Op16::RegSP => self.registers.sp,
            Op16::RegAF => self.registers.get_af(),
            Op16::Imm => self.fetch_word(),
            Op16::AddImmToFF00 => {
                let offset = self.fetch() as u16;
                0xff00u16.wrapping_add(offset)
            },
            Op16::AddRegCToFF00 => {
                let offset = self.registers.c as u16;
                0xff00u16.wrapping_add(offset)
            },
            Op16::AddrImm | Op16::AddImmToSP => vstd::pervasive::unreached(),
        }
    }

    fn set16(&mut self, dst: Op16, value: u16)
        requires
            dst.writable(),
        ensures
            final(self)@ == old(self)@.set16(dst, value),
            final(self).keeps_tables(old(self)),
    {
        proof {
            reveal(CpuState::set16);
        }
        match dst {
            Op16::RegBC => self.registers.set_bc(value),
            Op16::RegDE => self.registers.set_de(value),
            Op16::RegHL => self.registers.set_hl(value),
            Op16::RegSP => self.registers.sp = value,
            Op16::RegAF => self.registers.set_af(value),
            Op16::AddrImm => {
                let addr = self.fetch_word();
                proof {
                    lemma_bytes(value);
                }
                self.write(addr, (value & 0xff) as u8);
                self.write(addr.wrapping_add(1), (value >> 8) as u8);
            },
            Op16::Imm | Op16::AddImmToSP | Op16::AddImmToFF00 | Op16::AddRegCToFF00 => {
                vstd::pervasive::unreached()
            },
        }
    }

    fn get8(&mut self, src: Op8) -> (value: u8)
        requires
            src.readable(),
        ensures
            (final(self)@, value) == old(self)@.get8(src),
            final(self).keeps_tables(old(self)),
            final(self).moves_pc_only(old(self)),
    {
        proof {
            reveal(CpuState::get8);
        }
        match src {
            Op8::RegA => self.registers.a,
            Op8::RegB => self.registers.b,
            Op8::RegC => self.registers.c,
            Op8::RegD => self.registers.d,
            Op8::RegE => self.registers.e,
            Op8::RegH => self.registers.h,
            Op8::RegL => self.registers.l,
            Op8::Imm => self.fetch(),
            Op8::Addr(op) => {
                let addr = self.get16(op);
                self.read(addr)
            },
        }
    }

    fn set8(&mut self, dst: Op8, value: u8)
        requires
            dst.writable(),
        ensures
            final(self)@ == old(self)@.set8(dst, value),
            final(self).keeps_tables(old(self)),
    {
        proof {
            reveal(CpuState::set8);
        }
        match dst {
            Op8::RegA => self.registers.a = value,
            Op8::RegB => self.registers.b = value,
            Op8::RegC => self.registers.c = value,
            Op8::RegD => self.registers.d = value,
            Op8::RegE => self.registers.e = value,
            Op8::RegH => self.registers.h = value,
            Op8::RegL => self.registers.l = value,
            Op8::Imm => vstd::pervasive::unreached(),
            Op8::Addr(op) => {
                let addr = self.get16(op);
                self.write(addr, value);
            },
        }
    }

    fn is_jump_cond_satisfied(&self, cond: JumpCond) -> (taken: bool)
        ensures
            taken == self@.holds(cond),
    {
        match cond {
            JumpCond::NONE => true,
            JumpCond::NZ => !self.registers.get_z_flag(),
            JumpCond::Z => self.registers.get_z_flag(),
            JumpCond::NC => !self.registers.get_c_flag(),
            JumpCond::C => self.registers.get_c_flag(),
        }
    }
}


impl CPU {
    fn push(&mut self, value: u16)
        ensures
            final(self)@ == old(self)@.push(value),
            final(self).keeps_tables(old(self)),
    {
        proof {
            reveal(CpuState::push);
        }
        proof {
            lemma_bytes(value);
        }
        self.registers.sp = self.registers.sp.wrapping_sub(2);
        self.write(self.registers.sp, (value & 0xff) as u8);
        self.write(self.registers.sp.wrapping_add(1), (value >> 8) as u8);
    }

    fn peek(&mut self) -> (value: u16)
        ensures
            (final(self)@, value) == old(self)@.peek(),
            final(self).keeps_tables(old(self)),
            final(self).registers == old(self).registers,
    {
        proof {
            reveal(CpuState::peek);
        }
        let lower = self.read(self.registers.sp);
        let upper = self.read(self.registers.sp.wrapping_add(1));
        proof {
            lemma_word(upper, lower);
        }
        ((upper as u16) << 8) | (lower as u16)
    }

    fn ret(&mut self)
        ensures
            final(self)@ == old(self)@.ret(),
            final(self).keeps_tables(old(self)),
    {
        proof {
            reveal(CpuState::ret);
        }
        let addr = self.peek();
        self.tick();
        self.registers.pc = addr;
        self.registers.sp = self.registers.sp.wrapping_add(2);
    }

    fn call(&mut self, addr: u16)
        ensures
            final(self)@ == old(self)@.call(addr),
            final(self).keeps_tables(old(self)),
    {
        proof {
            reveal(CpuState::call);
        }
        self.push(self.registers.pc);
        self.tick();
        self.registers.pc = addr;
    }

    fn load(&mut self, dst: Op8, src: Op8)
        requires
            dst.writable(),
            src.readable(),
        ensures
            final(self)@ == old(self)@.ld(dst, src),
            final(self).keeps_tables(old(self)),
    {
        proof {
            reveal(CpuState::ld);
        }
        let value = self.get8(src);
        self.set8(dst, value);
    }

    fn load_step(&mut self, dst: Op8, up: bool)
        ensures
            final(self)@ == old(self)@.ld_step(
                dst,
                if up {
                    1
                } else {
                    -1
                },
            ),
            final(self).keeps_tables(old(self)),
    {
        proof {
            reveal(CpuState::ld_step);
        }
        let hl = self.registers.get_hl();
        match dst {
            Op8::RegA => {
                let value = self.read(hl);
                self.registers.a = value;
            },
            _ => {
                let value = self.registers.a;
                self.write(hl, value);
            },
        }
        if up {
            self.registers.set_hl(hl.wrapping_add(1));
        } else {
            self.registers.set_hl(hl.wrapping_sub(1));
        }
    }

    fn load16(&mut self, dst: Op16, src: Op16)
        requires
            Inst::LD16(dst, src).well_formed(),
        ensures
            final(self)@ == old(self)@.ld16(dst, src),
            final(self).keeps_tables(old(self)),
    {
        proof {
            reveal(CpuState::ld16);
        }
        match (dst, src) {
            (Op16::AddrImm, Op16::RegSP) => {
                let value = self.registers.sp;
                self.set16(Op16::AddrImm, value);
            },
            (Op16::RegSP, Op16::RegHL) => {
                self.tick();
                let value = self.registers.get_hl();
                self.registers.sp = value;
            },
            (Op16::RegHL, Op16::AddImmToSP) => {
                let a = self.registers.sp;
                let e = self.fetch();
                self.tick();
                let r = alu::add_signed(a, e);
                self.registers.set_hl(r.value);
                self.registers.set_z_flag(false);
                self.registers.set_n_flag(false);
                self.registers.set_h_flag(r.half_carry);
                self.registers.set_c_flag(r.carry);
            },
            _ => {
                let value = self.get16(src);
                self.set16(dst, value);
            },
        }
    }

    fn push_operand(&mut self, op: Op16)
        requires
            op.readable(),
        ensures
            final(self)@ == old(self)@.push_op(op),
            final(self).keeps_tables(old(self)),
    {
        proof {
            reveal(CpuState::push_op);
        }
        let value = self.get16(op);
        self.tick();
        self.push(value);
    }

    fn pop_operand(&mut self, op: Op16)
        requires
            op.writable(),
        ensures
            final(self)@ == old(self)@.pop_op(op),
            final(self).keeps_tables(old(self)),
    {
        proof {
            reveal(CpuState::pop_op);
        }
        let value = self.peek();
        self.registers.sp = self.registers.sp.wrapping_add(2);
        self.set16(op, value);
    }

    fn add(&mut self, op: Op8, with_carry: bool)
        requires
            op.readable(),
        ensures
            final(self)@ == old(self)@.add(op, with_carry),
            final(self).keeps_tables(old(self)),
    {
        proof {
            reveal(CpuState::add);
        }
        let b = self.get8(op);
        let a = self.registers.a;
        let carry = with_carry && self.registers.get_c_flag();
        let r = alu::add_bytes(a, b, carry);
        self.registers.a = r.value;
        self.registers.set_z_flag(r.value == 0);
        self.registers.set_n_flag(false);
        self.registers.set_h_flag(r.half_carry);
        self.registers.set_c_flag(r.carry);
    }

    fn subtract(&mut self, op: Op8, with_carry: bool, store: bool)
        requires
            op.readable(),
        ensures
            final(self)@ == old(self)@.sub(op, with_carry, store),
            final(self).keeps_tables(old(self)),
    {
        proof {
            reveal(CpuState::sub);
        }
        let b = self.get8(op);
        let a = self.registers.a;
        let carry = with_carry && self.registers.get_c_flag();
        let r = alu::sub_bytes(a, b, carry);
        if store {
            self.registers.a = r.value;
        }
        self.registers.set_z_flag(r.value == 0);
        self.registers.set_n_flag(true);
        self.registers.set_h_flag(r.half_carry);
        self.registers.set_c_flag(r.carry);
    }

    fn and(&mut self, op: Op8)
        requires
            op.readable(),
        ensures
            final(self)@ == old(self)@.and(op),
            final(self).keeps_tables(old(self)),
    {
        proof {
            reveal(CpuState::and);
        }
        let b = self.get8(op);
        let a = self.registers.a;
        let value = a & b;
        self.registers.a = value;
        self.registers.set_z_flag(value == 0);
        self.registers.set_n_flag(false);
        self.registers.set_h_flag(true);
        self.registers.set_c_flag(false);
    }

    fn or(&mut self, op: Op8)
        requires
            op.readable(),
        ensures
            final(self)@ == old(self)@.or(op),
            final(self).keeps_tables(old(self)),
    {
        proof {
            reveal(CpuState::or);
        }
        let b = self.get8(op);
        let a = self.registers.a;
        let value = a | b;
        self.registers.a = value;
        self.registers.set_z_flag(value == 0);
        self.registers.set_n_flag(false);
        self.registers.set_h_flag(false);
        self.registers.set_c_flag(false);
    }

    fn xor(&mut self, op: Op8)
        requires
            op.readable(),
        ensures
            final(self)@ == old(self)@.xor(op),
            final(self).keeps_tables(old(self)),
    {
        proof {
            reveal(CpuState::xor);
        }
        let b = self.get8(op);
        let a = self.registers.a;
        let value = a ^ b;
        self.registers.a = value;
        self.registers.set_z_flag(value == 0);
        self.registers.set_n_flag(false);
        self.registers.set_h_flag(false);
        self.registers.set_c_flag(false);
    }

    fn increment(&mut self, op: Op8)
        requires
            op.readable(),
            op.writable(),
        ensures
            final(self)@ == old(self)@.inc(op),
            final(self).keeps_tables(old(self)),
    {
        proof {
            reveal(CpuState::inc);
        }
        let a = self.get8(op);
        let (value, half_carry) = alu::inc(a);
        self.set8(op, value);
        self.registers.set_z_flag(value == 0);
        self.registers.set_n_flag(false);
        self.registers.set_h_flag(half_carry);
    }

    fn decrement(&mut self, op: Op8)
        requires
            op.readable(),
            op.writable(),
        ensures
            final(self)@ == old(self)@.dec(op),
            final(self).keeps_tables(old(self)),
    {
        proof {
            reveal(CpuState::dec);
        }
        let a = self.get8(op);
        let (value, half_carry) = alu::dec(a);
        self.set8(op, value);
        self.registers.set_z_flag(value == 0);
        self.registers.set_n_flag(true);
        self.registers.set_h_flag(half_carry);
    }

    fn decimal_adjust(&mut self)
        ensures
            final(self)@ == old(self)@.daa(),
            final(self).keeps_tables(old(self)),
    {
        proof {
            reveal(CpuState::daa);
        }
        let (value, carry) = alu::daa(
            self.registers.a,
            self.registers.get_n_flag(),
            self.registers.get_h_flag(),
            self.registers.get_c_flag(),
        );
        self.registers.a = value;
        self.registers.set_z_flag(value == 0);
        self.registers.set_h_flag(false);
        self.registers.set_c_flag(carry);
    }

    fn complement(&mut self)
        ensures
            final(self)@ == old(self)@.cpl(),
            final(self).keeps_tables(old(self)),
    {
        proof {
            reveal(CpuState::cpl);
        }
        self.registers.a ^= 0xff;
        self.registers.set_n_flag(true);
        self.registers.set_h_flag(true);
    }

    fn add_hl(&mut self, op: Op16)
        requires
            op.readable(),
        ensures
            final(self)@ == old(self)@.add_hl(op),
            final(self).keeps_tables(old(self)),
    {
        proof {
            reveal(CpuState::add_hl);
        }
        self.tick();
        let a = self.registers.get_hl();
        let b = self.get16(op);
        let r = alu::add_words(a, b);
        self.registers.set_hl(r.value);
        self.registers.set_n_flag(false);
        self.registers.set_h_flag(r.half_carry);
        self.registers.set_c_flag(r.carry);
    }

    fn step16(&mut self, op: Op16, up: bool)
        requires
            op.readable(),
            op.writable(),
        ensures
            final(self)@ == old(self)@.step16(
                op,
                if up {
                    1
                } else {
                    -1
                },
            ),
            final(self).keeps_tables(old(self)),
    {
        proof {
            reveal(CpuState::step16);
        }
        let a = self.get16(op);
        let value = if up {
            a.wrapping_add(1)
        } else {
            a.wrapping_sub(1)
        };
        self.tick();
        self.set16(op, value);
    }

    fn add_sp(&mut self)
        ensures
            final(self)@ == old(self)@.add_sp(),
            final(self).keeps_tables(old(self)),
    {
        proof {
            reveal(CpuState::add_sp);
        }
        let a = self.registers.sp;
        let e = self.fetch();
        self.tick();
        let r = alu::add_signed(a, e);
        self.tick();
        self.registers.sp = r.value;
        self.registers.set_z_flag(false);
        self.registers.set_n_flag(false);
        self.registers.set_h_flag(r.half_carry);
        self.registers.set_c_flag(r.carry);
    }

    fn rotate_a(&mut self, r: (u8, bool))
        ensures
            final(self)@ == old(self)@.rotate_a(r),
            final(self).keeps_tables(old(self)),
    {
        proof {
            reveal(CpuState::rotate_a);
        }
        self.registers.a = r.0;
        self.registers.set_z_flag(false);
        self.registers.set_n_flag(false);
        self.registers.set_h_flag(false);
        self.registers.set_c_flag(r.1);
    }

    fn jump(&mut self, cond: JumpCond, op: Op16)
        requires
            op.readable(),
        ensures
            final(self)@ == old(self)@.jp(cond, op),
            final(self).keeps_tables(old(self)),
    {
        proof {
            reveal(CpuState::jp);
        }
        match (cond, op) {
            (JumpCond::NONE, Op16::RegHL) => {
                self.registers.pc = self.registers.get_hl();
            },
            _ => {
                let addr = self.get16(op);
                if self.is_jump_cond_satisfied(cond) {
                    self.tick();
                    self.registers.pc = addr;
                }
            },
        }
    }

    fn jump_relative(&mut self, cond: JumpCond)
        ensures
            final(self)@ == old(self)@.jr(cond),
            final(self).keeps_tables(old(self)),
    {
        proof {
            reveal(CpuState::jr);
        }
        let e = self.fetch();
        if self.is_jump_cond_satisfied(cond) {
            self.tick();
            self.registers.pc = alu::add_signed(self.registers.pc, e).value;
        }
    }

    fn call_cond(&mut self, cond: JumpCond)
        ensures
            final(self)@ == old(self)@.call_cond(cond),
            final(self).keeps_tables(old(self)),
    {
        proof {
            reveal(CpuState::call_cond);
        }
        let addr = self.fetch_word();
        if self.is_jump_cond_satisfied(cond) {
            self.call(addr);
        }
    }

    fn ret_cond(&mut self, cond: JumpCond)
        ensures
            final(self)@ == old(self)@.ret_cond(cond),
            final(self).keeps_tables(old(self)),
    {
        proof {
            reveal(CpuState::ret_cond);
        }
        self.tick();
        if self.is_jump_cond_satisfied(cond) {
            self.ret();
        }
    }

    fn shift(&mut self, inst: Inst, op: Op8)
        requires
            op.readable(),
            op.writable(),
        ensures
            final(self)@ == old(self)@.shift(inst, op),
            final(self).keeps_tables(old(self)),
    {
        proof {
            reveal(CpuState::shift);
        }
        let a = self.get8(op);
        let c = self.registers.get_c_flag();
        let r = match inst {
            Inst::RLC(_) => alu::rlc(a),
            Inst::RRC(_) => alu::rrc(a),
            Inst::RL(_) => alu::rl(a, c),
            Inst::RR(_) => alu::rr(a, c),
            Inst::SLA(_) => alu::sla(a),
            Inst::SRA(_) => alu::sra(a),
            Inst::SWAP(_) => (alu::swap(a), false),
            _ => alu::srl(a),
        };
        self.set8(op, r.0);
        self.registers.set_z_flag(r.0 == 0);
        self.registers.set_n_flag(false);
        self.registers.set_h_flag(false);
        self.registers.set_c_flag(r.1);
    }

    fn test_bit(&mut self, n: usize, op: Op8)
        requires
            n < 8,
            op.readable(),
        ensures
            final(self)@ == old(self)@.test_bit(n, op),
            final(self).keeps_tables(old(self)),
    {
        proof {
            reveal(CpuState::test_bit);
        }
        let a = self.get8(op);
        self.registers.set_z_flag(((a >> n) & 1) == 0);
        self.registers.set_n_flag(false);
        self.registers.set_h_flag(true);
    }

    fn set_bit(&mut self, n: usize, op: Op8)
        requires
            n < 8,
            op.readable(),
            op.writable(),
        ensures
            final(self)@ == old(self)@.set_bit(n, op),
            final(self).keeps_tables(old(self)),
    {
        proof {
            reveal(CpuState::set_bit);
        }
        let a = self.get8(op);
        let value = a | (1u8 << n);
        self.set8(op, value);
    }

    fn reset_bit(&mut self, n: usize, op: Op8)
        requires
            n < 8,
            op.readable(),
            op.writable(),
        ensures
            final(self)@ == old(self)@.reset_bit(n, op),
            final(self).keeps_tables(old(self)),
    {
        proof {
            reveal(CpuState::reset_bit);
        }
        let a = self.get8(op);
        let value = a & (0xffu8 ^ (1u8 << n));
        self.set8(op, value);
    }
}


/// True for the instructions that `execute_load` deals with.
spec fn is_load(inst: Inst) -> bool {
    match inst {
        Inst::LD(_, _)
        | Inst::LDI(_, _)
        | Inst::LDD(_, _)
        | Inst::LD16(_, _)
        | Inst::PUSH(_)
        | Inst::POP(_) => true,
        _ => false,
    }
}

/// True for the instructions that `execute_arith` deals with.
spec fn is_arith(inst: Inst) -> bool {
    match inst {
        Inst::ADD(_)
        | Inst::ADC(_)
        | Inst::SUB(_)
        | Inst::SBC(_)
        | Inst::AND(_)
        | Inst::OR(_)
        | Inst::XOR(_)
        | Inst::CP(_) => true,
        _ => false,
    }
}

/// True for the instructions that `execute_step` deals with.
spec fn is_step(inst: Inst) -> bool {
    match inst {
        Inst::INC(_)
        | Inst::DEC(_)
        | Inst::DAA
        | Inst::CPL
        | Inst::ADDHL(_)
        | Inst::INC16(_)
        | Inst::DEC16(_)
        | Inst::ADDSP => true,
        _ => false,
    }
}

/// True for the instructions that `execute_rotate` deals with.
spec fn is_rotate(inst: Inst) -> bool {
    match inst {
        Inst::RLCA
        | Inst::RLA
        | Inst::RRCA
        | Inst::RRA
        | Inst::CCF
        | Inst::SCF => true,
        _ => false,
    }
}

/// True for the instructions that `execute_flow` deals with.
spec fn is_flow(inst: Inst) -> bool {
    match inst {
        Inst::NOP
        | Inst::HALT
        | Inst::STOP
        | Inst::DI
        | Inst::EI
        | Inst::JP(_, _)
        | Inst::JR(_)
        | Inst::CALL(_)
        | Inst::RET(_)
        | Inst::RETI
        | Inst::RST(_) => true,
        _ => false,
    }
}

/// The shifted one of the five interrupt bits is the bit of that number.
proof fn lemma_interrupt_bit(i: usize)
    by (bit_vector)
    requires
        i < 5,
    ensures
        1u8 << i == (if i == 0 {
            0x01u8
        } else if i == 1 {
            0x02u8
        } else if i == 2 {
            0x04u8
        } else if i == 3 {
            0x08u8
        } else {
            0x10u8
        }),
{
}

/// A byte with one of the five interrupt bits set has a lowest one, and
/// toggling a bit that is set clears it.
proof fn lemma_pending_bits(interrupt: u8, flag: u8)
    by (bit_vector)
    ensures
        interrupt & 0x1f != 0 ==> interrupt & 0x01 != 0 || interrupt & 0x02 != 0 || interrupt
            & 0x04 != 0 || interrupt & 0x08 != 0 || interrupt & 0x10 != 0,
        flag & 0x01 != 0 ==> flag ^ 0x01 == flag & (0xffu8 ^ 0x01u8),
        flag & 0x02 != 0 ==> flag ^ 0x02 == flag & (0xffu8 ^ 0x02u8),
        flag & 0x04 != 0 ==> flag ^ 0x04 == flag & (0xffu8 ^ 0x04u8),
        flag & 0x08 != 0 ==> flag ^ 0x08 == flag & (0xffu8 ^ 0x08u8),
        flag & 0x10 != 0 ==> flag ^ 0x10 == flag & (0xffu8 ^ 0x10u8),
{
}

/// What is pending lies within the five interrupt bits, and each of its
/// bits is a request.
proof fn lemma_pending_is_requested(flag: u8, enable: u8)
    by (bit_vector)
    ensures
        (flag & enable & 0x1f) & 0x1f == flag & enable & 0x1f,
        (flag & enable & 0x1f) & 0x01 != 0 ==> flag & 0x01 != 0,
        (flag & enable & 0x1f) & 0x02 != 0 ==> flag & 0x02 != 0,
        (flag & enable & 0x1f) & 0x04 != 0 ==> flag & 0x04 != 0,
        (flag & enable & 0x1f) & 0x08 != 0 ==> flag & 0x08 != 0,
        (flag & enable & 0x1f) & 0x10 != 0 ==> flag & 0x10 != 0,
{
}

impl CPU {
    /// Services the interrupt of the lowest bit set in `interrupt`, which is
    /// one of the five interrupt bits and is requested.
    fn handle_interrupt(&mut self, interrupt: u8)
        requires
            interrupt & 0x1f != 0,
            old(self).ctx.interrupt_flag & interrupt_bit(lowest_pending(interrupt)) != 0,
        ensures
            final(self)@ == old(self)@.dispatch(lowest_pending(interrupt)),
            final(self).keeps_tables(old(self)),
    {
        let mut i: usize = 0;
        while i < 5
            invariant
                i <= 5,
                *self == *old(self),
                interrupt & 0x1f != 0,
                self.ctx.interrupt_flag & interrupt_bit(lowest_pending(interrupt)) != 0,
                forall|j: int| 0 <= j < i ==> interrupt & #[trigger] interrupt_bit(j) == 0,
            decreases 5 - i,
        {
            proof {
                reveal(CpuState::dispatch);
                lemma_interrupt_bit(i);
                lemma_pending_bits(interrupt, self.ctx.interrupt_flag);
                assert(i > 0 ==> interrupt & interrupt_bit(0) == 0);
                assert(i > 1 ==> interrupt & interrupt_bit(1) == 0);
                assert(i > 2 ==> interrupt & interrupt_bit(2) == 0);
                assert(i > 3 ==> interrupt & interrupt_bit(3) == 0);
            }
            if interrupt & (1u8 << i) != 0 {
                self.interrupt_master_enable = false;
                self.ctx.interrupt_flag ^= 1u8 << i;
                self.tick();
                self.tick();
                self.push(self.registers.pc);
                self.tick();
                self.registers.pc = consts::INTERRUPT_HANDLER[i];
                return ;
            }
            i += 1;
        }
        proof {
            // One of the five bits is set, so the loop has returned.
            lemma_pending_bits(interrupt, self.ctx.interrupt_flag);
            assert(interrupt & interrupt_bit(0) == 0);
            assert(interrupt & interrupt_bit(1) == 0);
            assert(interrupt & interrupt_bit(2) == 0);
            assert(interrupt & interrupt_bit(3) == 0);
            assert(interrupt & interrupt_bit(4) == 0);
            assert(false);
        }
    }

    /// Fetches the byte after the prefix and executes what it stands for.
    fn execute_prefix_inst(&mut self) -> (inst: Inst)
        requires
            old(self).wf(),
        ensures
            ({
                let (s, opcode) = old(self)@.fetch();
                &&& inst == decode_prefixed(opcode)
                &&& final(self)@ == s.execute(inst)
            }),
            final(self).keeps_tables(old(self)),
    {
        let opcode = self.fetch();
        let inst = self.prefix_inst_table[opcode as usize];
        proof {
            assert(self.prefix_inst_table@[opcode as int] == decode_prefixed(opcode));
            lemma_decode_prefixed_well_formed(opcode);
        }
        match inst {
            Inst::RLC(op)
            | Inst::RRC(op)
            | Inst::RL(op)
            | Inst::RR(op)
            | Inst::SLA(op)
            | Inst::SRA(op)
            | Inst::SWAP(op)
            | Inst::SRL(op) => {
                self.shift(inst, op);
            },
            Inst::BIT(n, op) => {
                self.test_bit(n, op);
            },
            Inst::SET(n, op) => {
                self.set_bit(n, op);
            },
            Inst::RES(n, op) => {
                self.reset_bit(n, op);
            },
            _ => vstd::pervasive::unreached(),
        }
        inst
    }

    /// The loads, PUSH and POP.
    fn execute_load(&mut self, inst: Inst)
        requires
            is_load(inst),
            inst.well_formed(),
        ensures
            final(self)@ == old(self)@.execute(inst),
            final(self).keeps_tables(old(self)),
    {
        match inst {
            Inst::LD(dst, src) => {
                self.load(dst, src);
            },
            Inst::LDI(dst, _) => {
                self.load_step(dst, true);
            },
            Inst::LDD(dst, _) => {
                self.load_step(dst, false);
            },
            Inst::LD16(dst, src) => {
                self.load16(dst, src);
            },
            Inst::PUSH(op) => {
                self.push_operand(op);
            },
            Inst::POP(op) => {
                self.pop_operand(op);
            },
            _ => vstd::pervasive::unreached(),
        }
    }

    /// The arithmetic and logic instructions.
    fn execute_arith(&mut self, inst: Inst)
        requires
            is_arith(inst),
            inst.well_formed(),
        ensures
            final(self)@ == old(self)@.execute(inst),
            final(self).keeps_tables(old(self)),
    {
        match inst {
            Inst::ADD(op) => {
                self.add(op, false);
            },
            Inst::ADC(op) => {
                self.add(op, true);
            },
            Inst::SUB(op) => {
                self.subtract(op, false, true);
            },
            Inst::SBC(op) => {
                self.subtract(op, true, true);
            },
            Inst::AND(op) => {
                self.and(op);
            },
            Inst::OR(op) => {
                self.or(op);
            },
            Inst::XOR(op) => {
                self.xor(op);
            },
            Inst::CP(op) => {
                self.subtract(op, false, false);
            },
            _ => vstd::pervasive::unreached(),
        }
    }

    /// The increments and decrements, the decimal adjust, the complement
    /// and the 16-bit additions.
    fn execute_step(&mut self, inst: Inst)
        requires
            is_step(inst),
            inst.well_formed(),
        ensures
            final(self)@ == old(self)@.execute(inst),
            final(self).keeps_tables(old(self)),
    {
        match inst {
            Inst::INC(op) => {
                self.increment(op);
            },
            Inst::DEC(op) => {
                self.decrement(op);
            },
            Inst::DAA => {
                self.decimal_adjust();
            },
            Inst::CPL => {
                self.complement();
            },
            Inst::ADDHL(op) => {
                self.add_hl(op);
            },
            Inst::INC16(op) => {
                self.step16(op, true);
            },
            Inst::DEC16(op) => {
                self.step16(op, false);
            },
            Inst::ADDSP => {
                self.add_sp();
            },
            _ => vstd::pervasive::unreached(),
        }
    }

    /// The accumulator rotates and the carry flag instructions.
    fn execute_rotate(&mut self, inst: Inst)
        requires
            is_rotate(inst),
            inst.well_formed(),
        ensures
            final(self)@ == old(self)@.execute(inst),
            final(self).keeps_tables(old(self)),
    {
        proof {
            reveal(CpuState::ccf);
            reveal(CpuState::scf);
        }
        match inst {
            Inst::RLCA => {
                self.rotate_a(alu::rlc(self.registers.a));
            },
            Inst::RLA => {
                self.rotate_a(alu::rl(self.registers.a, self.registers.get_c_flag()));
            },
            Inst::RRCA => {
                self.rotate_a(alu::rrc(self.registers.a));
            },
            Inst::RRA => {
                self.rotate_a(alu::rr(self.registers.a, self.registers.get_c_flag()));
            },
            Inst::CCF => {
                proof {
                    lemma_flag_set_get(self.registers, false);
                    lemma_flag_set_get(self.registers.with_n(false), false);
                }
                self.registers.set_n_flag(false);
                self.registers.set_h_flag(false);
                self.registers.set_c_flag(!self.registers.get_c_flag());
            },
            Inst::SCF => {
                self.registers.set_n_flag(false);
                self.registers.set_h_flag(false);
                self.registers.set_c_flag(true);
            },
            _ => vstd::pervasive::unreached(),
        }
    }

    /// The control instructions, jumps, calls and returns.
    fn execute_flow(&mut self, inst: Inst)
        requires
            is_flow(inst),
            inst.well_formed(),
        ensures
            final(self)@ == old(self)@.execute(inst),
            final(self).keeps_tables(old(self)),
    {
        proof {
            reveal(CpuState::reti);
        }
        match inst {
            Inst::NOP => {},
            Inst::HALT => {
                self.is_halt = true;
            },
            Inst::STOP => {},
            Inst::DI => {
                self.interrupt_master_enable = false;
            },
            Inst::EI => {},
            Inst::JP(cond, op) => {
                self.jump(cond, op);
            },
            Inst::JR(cond) => {
                self.jump_relative(cond);
            },
            Inst::CALL(cond) => {
                self.call_cond(cond);
            },
            Inst::RET(cond) => {
                self.ret_cond(cond);
            },
            Inst::RETI => {
                self.ret();
                self.interrupt_master_enable = true;
            },
            Inst::RST(addr) => {
                self.call(addr);
            },
            _ => vstd::pervasive::unreached(),
        }
    }

    /// Fetches one opcode and executes what it stands for. Returns the
    /// instruction executed, which after the prefix is the prefixed one, or
    /// the fault when the opcode has no instruction.
    fn execute_inst(&mut self) -> (r: Result<Inst, UndefinedOpcode>)
        requires
            old(self).wf(),
        ensures
            ({
                let (s, opcode) = old(self)@.fetch();
                let inst = decode(opcode);
                match r {
                    Err(fault) => {
                        &&& inst is UNK
                        &&& final(self)@ == s
                        &&& fault == (UndefinedOpcode { opcode, address: old(self)@.regs.pc })
                    },
                    Ok(done) => {
                        &&& !(inst is UNK)
                        &&& done == (if inst is PREFIX {
                            decode_prefixed(s.fetch().1)
                        } else {
                            inst
                        })
                        &&& inst is PREFIX ==> final(self)@ == s.fetch().0.execute(
                            decode_prefixed(s.fetch().1),
                        )
                        &&& !(inst is PREFIX) ==> final(self)@ == s.execute(inst)
                    },
                }
            }),
            final(self).keeps_tables(old(self)),
    {
        let address = self.registers.pc;
        let opcode = self.fetch();
        let inst = self.inst_table[opcode as usize];
        proof {
            assert(self.inst_table@[opcode as int] == decode(opcode));
            lemma_decode_well_formed(opcode);
        }
        match inst {
            Inst::LD(_, _)
            | Inst::LDI(_, _)
            | Inst::LDD(_, _)
            | Inst::LD16(_, _)
            | Inst::PUSH(_)
            | Inst::POP(_) => {
                self.execute_load(inst);
            },
            Inst::ADD(_)
            | Inst::ADC(_)
            | Inst::SUB(_)
            | Inst::SBC(_)
            | Inst::AND(_)
            | Inst::OR(_)
            | Inst::XOR(_)
            | Inst::CP(_) => {
                self.execute_arith(inst);
            },
            Inst::INC(_)
            | Inst::DEC(_)
            | Inst::DAA
            | Inst::CPL
            | Inst::ADDHL(_)
            | Inst::INC16(_)
            | Inst::DEC16(_)
            | Inst::ADDSP => {
                self.execute_step(inst);
            },
            Inst::RLCA
            | Inst::RLA
            | Inst::RRCA
            | Inst::RRA
            | Inst::CCF
            | Inst::SCF => {
                self.execute_rotate(inst);
            },
            Inst::NOP
            | Inst::HALT
            | Inst::STOP
            | Inst::DI
            | Inst::EI
            | Inst::JP(_, _)
            | Inst::JR(_)
            | Inst::CALL(_)
            | Inst::RET(_)
            | Inst::RETI
            | Inst::RST(_) => {
                self.execute_flow(inst);
            },
            Inst::PREFIX => {
                let prefixed = self.execute_prefix_inst();
                proof {
                    lemma_decode_prefixed_well_formed(old(self)@.fetch().0.fetch().1);
                }
                return Ok(prefixed);
            },
            Inst::UNK => {
                return Err(UndefinedOpcode { opcode, address });
            },
            _ => vstd::pervasive::unreached(),
        }
        Ok(inst)
    }

    /// Advances the machine by one step: the service of the lowest pending
    /// interrupt if the master enable allows it, else one idle tick while
    /// halted, else one instruction.
    ///
    /// Returns the fault, with the machine stopped right after the fetch,
    /// when the opcode fetched has no instruction.
    pub fn execute(&mut self) -> (r: Result<(), UndefinedOpcode>)
        requires
            old(self).wf(),
        ensures
            final(self).wf(),
            final(self)@ == old(self)@.step(),
            r == (match old(self)@.fault() {
                Some(fault) => Err::<(), UndefinedOpcode>(fault),
                None => Ok(()),
            }),
    {
        let interrupt = self.ctx.interrupt_flag & self.ctx.interrupt_enable & 0x1f;
        proof {
            lemma_pending_is_requested(self.ctx.interrupt_flag, self.ctx.interrupt_enable);
            lemma_pending_bits(interrupt, self.ctx.interrupt_flag);
        }
        if interrupt != 0 {
            self.is_halt = false;
            if self.interrupt_master_enable {
                self.handle_interrupt(interrupt);
                return Ok(());
            }
        }
        if self.is_halt {
            self.tick();
            return Ok(());
        }
        match self.execute_inst() {
            Ok(inst) => {
                if self.prev_ei {
                    self.interrupt_master_enable = true;
                }
                self.prev_ei = matches!(inst, Inst::EI);
                Ok(())
            },
            Err(fault) => Err(fault),
        }
    }
}

} // verus!
