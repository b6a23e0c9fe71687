//! How many bus ticks each operation takes.

use crate::inst::{decode, decode_prefixed, Inst, JumpCond, Op16, Op8};
use crate::state::{lowest_pending, CpuState};
use vstd::prelude::*;

verus! {

/// The number of ticks that take the counter from `before` to `after`,
/// counting through at most one wrap.
pub open spec fn elapsed(before: isize, after: isize) -> int {
    if after >= before {
        after - before
    } else {
        after - before + (isize::MAX - isize::MIN + 1)
    }
}

/// The ticks that pass from state `a` to state `b`.
pub open spec fn cost(a: CpuState, b: CpuState) -> int {
    elapsed(a.ticks, b.ticks)
}

/// The most ticks that one step takes.
pub const MAX_STEP_TICKS: isize = 6;

/// The register pairs.
pub open spec fn pair(op: Op16) -> bool {
    op is RegBC || op is RegDE || op is RegHL || op is RegSP || op is RegAF
}

/// The operands of the regular encodings: a register or the byte at HL.
pub open spec fn plain(op: Op8) -> bool {
    match op {
        Op8::Imm => false,
        Op8::Addr(address) => address is RegHL,
        _ => true,
    }
}

/// The operand combinations that the decode tables hold. They bound what
/// an instruction can cost.
pub open spec fn compact(inst: Inst) -> bool {
    match inst {
        Inst::LD(dst, src) => (plain(dst) && (plain(src) || src is Imm)) || dst is RegA
            || src is RegA,
        Inst::LD16(dst, src) => pair(dst) || (dst is AddrImm && src is RegSP),
        Inst::PUSH(op) | Inst::POP(op) | Inst::INC16(op) | Inst::DEC16(op) => pair(op),
        Inst::INC(op)
        | Inst::DEC(op)
        | Inst::RLC(op)
        | Inst::RRC(op)
        | Inst::RL(op)
        | Inst::RR(op)
        | Inst::SLA(op)
        | Inst::SRA(op)
        | Inst::SWAP(op)
        | Inst::SRL(op)
        | Inst::BIT(_, op)
        | Inst::RES(_, op)
        | Inst::SET(_, op) => plain(op),
        _ => true,
    }
}

/// Every entry of the two decode tables is of the compact form.
pub proof fn lemma_decode_compact(opcode: u8)
    ensures
        compact(decode(opcode)),
        compact(decode_prefixed(opcode)),
{
}

pub proof fn lemma_tick_cost(s: CpuState)
    ensures
        cost(s, s.tick()) == 1,
{
    reveal(CpuState::tick);
}

pub proof fn lemma_read_cost(s: CpuState, addr: u16)
    ensures
        cost(s, s.read(addr).0) == 1,
{
    reveal(CpuState::read);
    lemma_tick_cost(s);
}

pub proof fn lemma_write_cost(s: CpuState, addr: u16, value: u8)
    ensures
        cost(s, s.write(addr, value)) == 1,
{
    reveal(CpuState::write);
    lemma_tick_cost(s);
}

pub proof fn lemma_fetch_cost(s: CpuState)
    ensures
        cost(s, s.fetch().0) == 1,
        cost(s, s.fetch_word().0) == 2,
{
    reveal(CpuState::fetch);
    reveal(CpuState::fetch_word);
    lemma_read_cost(s, s.regs.pc);
    let s1 = s.fetch().0;
    lemma_read_cost(s1, s1.regs.pc);
}

pub proof fn lemma_get16_cost(s: CpuState, src: Op16)
    ensures
        0 <= cost(s, s.get16(src).0) <= 2,
        pair(src) ==> s.get16(src).0 == s,
{
    reveal(CpuState::get16);
    lemma_fetch_cost(s);
}

pub proof fn lemma_set16_cost(s: CpuState, dst: Op16, value: u16)
    ensures
        0 <= cost(s, s.set16(dst, value)) <= 4,
        pair(dst) ==> cost(s, s.set16(dst, value)) == 0,
{
    reveal(CpuState::set16);
    lemma_fetch_cost(s);
    let (s1, addr) = s.fetch_word();
    let lo = crate::bits::low_byte(value);
    let hi = crate::bits::high_byte(value);
    lemma_write_cost(s1, addr, lo);
    lemma_write_cost(s1.write(addr, lo), crate::state::wrap16(addr + 1), hi);
}

pub proof fn lemma_get8_cost(s: CpuState, src: Op8)
    ensures
        0 <= cost(s, s.get8(src).0) <= 3,
        plain(src) ==> cost(s, s.get8(src).0) <= 1,
{
    reveal(CpuState::get8);
    lemma_fetch_cost(s);
    match src {
        Op8::Addr(op) => {
            lemma_get16_cost(s, op);
            let (s1, addr) = s.get16(op);
            lemma_read_cost(s1, addr);
        },
        _ => {},
    }
}

pub proof fn lemma_set8_cost(s: CpuState, dst: Op8, value: u8)
    ensures
        0 <= cost(s, s.set8(dst, value)) <= 3,
        plain(dst) ==> cost(s, s.set8(dst, value)) <= 1,
{
    reveal(CpuState::set8);
    match dst {
        Op8::Addr(op) => {
            lemma_get16_cost(s, op);
            let (s1, addr) = s.get16(op);
            lemma_write_cost(s1, addr, value);
        },
        _ => {},
    }
}

pub proof fn lemma_push_cost(s: CpuState, value: u16)
    ensures
        cost(s, s.push(value)) == 2,
{
    reveal(CpuState::push);
    let sp = crate::state::wrap16(s.regs.sp - 2);
    let lo = crate::bits::low_byte(value);
    let hi = crate::bits::high_byte(value);
    let s1 = s.with_sp(sp);
    lemma_write_cost(s1, sp, lo);
    lemma_write_cost(s1.write(sp, lo), crate::state::wrap16(sp + 1), hi);
}

pub proof fn lemma_peek_cost(s: CpuState)
    ensures
        cost(s, s.peek().0) == 2,
{
    reveal(CpuState::peek);
    lemma_read_cost(s, s.regs.sp);
    lemma_read_cost(s.read(s.regs.sp).0, crate::state::wrap16(s.regs.sp + 1));
}

pub proof fn lemma_ret_cost(s: CpuState)
    ensures
        cost(s, s.ret()) == 3,
{
    reveal(CpuState::ret);
    lemma_peek_cost(s);
    lemma_tick_cost(s.peek().0);
}

pub proof fn lemma_call_cost(s: CpuState, addr: u16)
    ensures
        cost(s, s.call(addr)) == 3,
{
    reveal(CpuState::call);
    lemma_push_cost(s, s.regs.pc);
    lemma_tick_cost(s.push(s.regs.pc));
}

proof fn lemma_load_cost(s: CpuState, inst: Inst)
    requires
        inst is LD || inst is LDI || inst is LDD || inst is LD16 || inst is PUSH || inst is POP,
        compact(inst),
    ensures
        0 <= cost(s, s.execute(inst)) <= 4,
{
    match inst {
        Inst::LD(dst, src) => {
            reveal(CpuState::ld);
            reveal(CpuState::get8);
            reveal(CpuState::set8);
            lemma_get8_cost(s, src);
            let (s1, value) = s.get8(src);
            lemma_set8_cost(s1, dst, value);
        },
        Inst::LDI(dst, _) | Inst::LDD(dst, _) => {
            reveal(CpuState::ld_step);
            lemma_read_cost(s, s.regs.hl());
            lemma_write_cost(s, s.regs.hl(), s.regs.a);
        },
        Inst::LD16(dst, src) => {
            reveal(CpuState::ld16);
            lemma_set16_cost(s, Op16::AddrImm, s.regs.sp);
            lemma_tick_cost(s);
            lemma_fetch_cost(s);
            lemma_tick_cost(s.fetch().0);
            lemma_get16_cost(s, src);
            let (s1, value) = s.get16(src);
            lemma_set16_cost(s1, dst, value);
        },
        Inst::PUSH(op) => {
            reveal(CpuState::push_op);
            lemma_get16_cost(s, op);
            let (s1, value) = s.get16(op);
            lemma_tick_cost(s1);
            lemma_push_cost(s1.tick(), value);
        },
        Inst::POP(op) => {
            reveal(CpuState::pop_op);
            lemma_peek_cost(s);
            let (s1, value) = s.peek();
            lemma_set16_cost(s1.with_sp(crate::state::wrap16(s1.regs.sp + 2)), op, value);
        },
        _ => {},
    }
}

proof fn lemma_arith_cost(s: CpuState, inst: Inst)
    requires
        inst is ADD || inst is ADC || inst is SUB || inst is SBC || inst is AND || inst is XOR
            || inst is OR || inst is CP || inst is INC || inst is DEC,
        compact(inst),
    ensures
        0 <= cost(s, s.execute(inst)) <= 3,
{
    reveal(CpuState::add);
    reveal(CpuState::sub);
    reveal(CpuState::and);
    reveal(CpuState::or);
    reveal(CpuState::xor);
    match inst {
        Inst::ADD(op)
        | Inst::ADC(op)
        | Inst::SUB(op)
        | Inst::SBC(op)
        | Inst::AND(op)
        | Inst::XOR(op)
        | Inst::OR(op)
        | Inst::CP(op) => {
            lemma_get8_cost(s, op);
        },
        Inst::INC(op) => {
            reveal(CpuState::inc);
            lemma_get8_cost(s, op);
            let (s1, a) = s.get8(op);
            lemma_set8_cost(s1, op, crate::alu::inc8(a).0);
        },
        Inst::DEC(op) => {
            reveal(CpuState::dec);
            lemma_get8_cost(s, op);
            let (s1, a) = s.get8(op);
            lemma_set8_cost(s1, op, crate::alu::dec8(a).0);
        },
        _ => {},
    }
}

proof fn lemma_wide_cost(s: CpuState, inst: Inst)
    requires
        inst is DAA || inst is CPL || inst is ADDHL || inst is INC16 || inst is DEC16
            || inst is ADDSP || inst is RLCA || inst is RLA || inst is RRCA || inst is RRA
            || inst is CCF || inst is SCF,
        compact(inst),
    ensures
        0 <= cost(s, s.execute(inst)) <= 3,
{
    reveal(CpuState::daa);
    reveal(CpuState::cpl);
    reveal(CpuState::rotate_a);
    reveal(CpuState::ccf);
    reveal(CpuState::scf);
    match inst {
        Inst::ADDHL(op) => {
            reveal(CpuState::add_hl);
            lemma_tick_cost(s);
            lemma_get16_cost(s.tick(), op);
        },
        Inst::INC16(op) => {
            reveal(CpuState::step16);
            lemma_get16_cost(s, op);
            let (s1, a) = s.get16(op);
            lemma_tick_cost(s1);
            lemma_set16_cost(s1.tick(), op, crate::state::wrap16(a + 1));
        },
        Inst::DEC16(op) => {
            reveal(CpuState::step16);
            lemma_get16_cost(s, op);
            let (s1, a) = s.get16(op);
            lemma_tick_cost(s1);
            lemma_set16_cost(s1.tick(), op, crate::state::wrap16(a - 1));
        },
        Inst::ADDSP => {
            reveal(CpuState::add_sp);
            lemma_fetch_cost(s);
            let s1 = s.fetch().0;
            lemma_tick_cost(s1);
            lemma_tick_cost(s1.tick());
        },
        _ => {},
    }
}

proof fn lemma_flow_cost(s: CpuState, inst: Inst)
    requires
        inst is JP || inst is JR || inst is CALL || inst is RET || inst is RETI || inst is RST,
    ensures
        0 <= cost(s, s.execute(inst)) <= 5,
{
    match inst {
        Inst::JP(cond, op) => {
            reveal(CpuState::jp);
            lemma_get16_cost(s, op);
            lemma_tick_cost(s.get16(op).0);
        },
        Inst::JR(cond) => {
            reveal(CpuState::jr);
            lemma_fetch_cost(s);
            lemma_tick_cost(s.fetch().0);
        },
        Inst::CALL(cond) => {
            reveal(CpuState::call_cond);
            lemma_fetch_cost(s);
            let (s1, addr) = s.fetch_word();
            lemma_call_cost(s1, addr);
        },
        Inst::RET(cond) => {
            reveal(CpuState::ret_cond);
            lemma_tick_cost(s);
            lemma_ret_cost(s);
            lemma_ret_cost(s.tick());
        },
        Inst::RETI => {
            reveal(CpuState::reti);
            lemma_ret_cost(s);
        },
        Inst::RST(addr) => {
            lemma_call_cost(s, addr);
        },
        _ => {},
    }
}

proof fn lemma_prefixed_cost(s: CpuState, inst: Inst)
    requires
        inst.prefixed(),
        compact(inst),
    ensures
        0 <= cost(s, s.execute(inst)) <= 2,
{
    match inst {
        Inst::BIT(n, op) => {
            reveal(CpuState::test_bit);
            lemma_get8_cost(s, op);
        },
        Inst::SET(n, op) => {
            reveal(CpuState::set_bit);
            lemma_get8_cost(s, op);
            let (s1, a) = s.get8(op);
            lemma_set8_cost(s1, op, crate::alu::with_bit(a, n));
        },
        Inst::RES(n, op) => {
            reveal(CpuState::reset_bit);
            lemma_get8_cost(s, op);
            let (s1, a) = s.get8(op);
            lemma_set8_cost(s1, op, crate::alu::without_bit(a, n));
        },
        Inst::RLC(op)
        | Inst::RRC(op)
        | Inst::RL(op)
        | Inst::RR(op)
        | Inst::SLA(op)
        | Inst::SRA(op)
        | Inst::SWAP(op)
        | Inst::SRL(op) => {
            reveal(CpuState::shift);
            lemma_get8_cost(s, op);
            let (s1, a) = s.get8(op);
            lemma_set8_cost(s1, op, crate::state::shifted(inst, a, s1.regs.cf()).0);
        },
        _ => {},
    }
}

/// Once its opcode is fetched, an instruction of the tables takes at most
/// five ticks, and a prefixed one at most two.
pub proof fn lemma_execute_cost(s: CpuState, inst: Inst)
    requires
        compact(inst),
    ensures
        0 <= cost(s, s.execute(inst)) <= 5,
        inst.prefixed() ==> cost(s, s.execute(inst)) <= 2,
{
    if inst is LD || inst is LDI || inst is LDD || inst is LD16 || inst is PUSH || inst is POP {
        lemma_load_cost(s, inst);
    } else if inst is ADD || inst is ADC || inst is SUB || inst is SBC || inst is AND
        || inst is XOR || inst is OR || inst is CP || inst is INC || inst is DEC {
        lemma_arith_cost(s, inst);
    } else if inst is DAA || inst is CPL || inst is ADDHL || inst is INC16 || inst is DEC16
        || inst is ADDSP || inst is RLCA || inst is RLA || inst is RRCA || inst is RRA
        || inst is CCF || inst is SCF {
        lemma_wide_cost(s, inst);
    } else if inst is JP || inst is JR || inst is CALL || inst is RET || inst is RETI
        || inst is RST {
        lemma_flow_cost(s, inst);
    } else if inst.prefixed() {
        lemma_prefixed_cost(s, inst);
    }
}

/// The service of an interrupt takes five ticks.
pub proof fn lemma_dispatch_cost(s: CpuState, i: int)
    ensures
        cost(s, s.dispatch(i)) == 5,
{
    reveal(CpuState::dispatch);
    let s0 = s.acknowledge(i);
    lemma_tick_cost(s0);
    lemma_tick_cost(s0.tick());
    lemma_push_cost(s0.tick().tick(), s.regs.pc);
    lemma_tick_cost(s0.tick().tick().push(s.regs.pc));
}

/// Every step takes at least one tick and at most six, so the tick counter
/// only moves forward.
pub proof fn lemma_step_cost(s: CpuState)
    ensures
        1 <= cost(s, s.step()) <= MAX_STEP_TICKS,
{
    if s.dispatches() {
        lemma_dispatch_cost(s.woken(), lowest_pending(s.pending()));
    } else if s.runs() {
        let w = s.woken();
        lemma_fetch_cost(w);
        let (s1, opcode) = w.fetch();
        let inst = decode(opcode);
        lemma_decode_compact(opcode);
        if inst is PREFIX {
            lemma_fetch_cost(s1);
            let (s2, second) = s1.fetch();
            lemma_decode_compact(second);
            crate::inst::lemma_decode_prefixed_well_formed(second);
            lemma_execute_cost(s2, decode_prefixed(second));
        } else {
            lemma_execute_cost(s1, inst);
        }
    } else {
        lemma_tick_cost(s);
    }
}

} // verus!
