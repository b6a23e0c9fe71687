//! Properties of the machine that follow from the meaning of its steps.

use crate::alu::sub8;
use crate::bus::is_ram;
use crate::inst::{decode, Inst, Op16, Op8};
use crate::timer::counting;
use crate::registers::{lemma_flag_set_get, lemma_flags_set_get, lemma_pair_set_get, Registers};
use crate::state::{handler, interrupt_bit, lowest_pending, wrap16, CpuState};
use vstd::prelude::*;

verus! {

/// CP sets the flags exactly as SUB does and leaves the accumulator alone;
/// everything else ends up the same. Beyond reading its operand CP changes
/// nothing but F: no register, no memory.
pub proof fn lemma_cp_is_sub_without_store(s: CpuState, op: Op8)
    ensures
        ({
            let compared = s.execute(Inst::CP(op));
            let subtracted = s.execute(Inst::SUB(op));
            let (read, b) = s.get8(op);
            let a = read.regs.a;
            &&& compared.regs.f == subtracted.regs.f
            &&& compared.regs.a == a
            &&& subtracted.regs.a == sub8(a, b, false).value
            &&& compared == subtracted.with_regs(Registers { a, ..subtracted.regs })
            &&& compared == read.with_regs(Registers { f: compared.regs.f, ..read.regs })
            &&& compared.regs.zf() == (a == b)
            &&& compared.regs.nf()
            &&& compared.regs.hf() == (a % 16 < b % 16)
            &&& compared.regs.cf() == (a < b)
            &&& compared.regs.f & 0x0f == read.regs.f & 0x0f
        }),
{
    reveal(CpuState::sub);
    let (read, b) = s.get8(op);
    let r = sub8(read.regs.a, b, false);
    lemma_flags_set_get(read.regs, r.value == 0, true, r.half_carry, r.carry);
    lemma_flags_set_get(
        Registers { a: r.value, ..read.regs },
        r.value == 0,
        true,
        r.half_carry,
        r.carry,
    );
}

/// Reading an operand changes no register but PC.
pub proof fn lemma_get8_keeps_registers(s: CpuState, op: Op8)
    ensures
        s.get8(op).0.regs == (Registers { pc: s.get8(op).0.regs.pc, ..s.regs }),
{
    reveal(CpuState::get8);
    reveal(CpuState::get16);
    reveal(CpuState::fetch_word);
    reveal(CpuState::fetch);
    reveal(CpuState::read);
    reveal(CpuState::tick);
    match op {
        Op8::Addr(Op16::Imm) => {
            let s1 = s.fetch().0;
            assert(s1.regs == (Registers { pc: s1.regs.pc, ..s.regs }));
            let s2 = s1.fetch().0;
            assert(s2.regs == (Registers { pc: s2.regs.pc, ..s.regs }));
        },
        _ => {},
    }
}

/// ADD of an operand followed by SUB of an operand of the same value gives
/// the accumulator back, whatever the operand is: `t` is any state that has
/// the accumulator that the ADD left and in which the operand reads as it
/// did for the ADD.
pub proof fn lemma_add_then_sub_operand(s: CpuState, t: CpuState, op: Op8)
    requires
        t.regs.a == s.execute(Inst::ADD(op)).regs.a,
        t.get8(op).1 == s.get8(op).1,
    ensures
        t.execute(Inst::SUB(op)).regs.a == s.regs.a,
        t.execute(Inst::SUB(op)).regs.nf(),
{
    reveal(CpuState::add);
    reveal(CpuState::sub);
    lemma_get8_keeps_registers(s, op);
    lemma_get8_keeps_registers(t, op);
    let b = s.get8(op).1;
    crate::alu::lemma_add_then_sub(s.regs.a, b);
    let read = t.get8(op).0;
    let r = sub8(read.regs.a, b, false);
    lemma_flags_set_get(
        Registers { a: r.value, ..read.regs },
        r.value == 0,
        true,
        r.half_carry,
        r.carry,
    );
}

/// ADD of a register other than A followed by SUB of the same register gives
/// the accumulator back.
pub proof fn lemma_add_then_sub_register(s: CpuState, op: Op8)
    requires
        !(op is RegA),
        !(op is Imm),
        !(op is Addr),
    ensures
        s.execute(Inst::ADD(op)).execute(Inst::SUB(op)).regs.a == s.regs.a,
{
    reveal(CpuState::add);
    reveal(CpuState::sub);
    reveal(CpuState::get8);
    let b = s.get8(op).1;
    crate::alu::lemma_add_then_sub(s.regs.a, b);
}

proof fn lemma_clear_bit(f: u8, e: u8)
    by (bit_vector)
    ensures
        f & e & 0x1f != 0 ==> (f & e & 0x1f) & 0x01 != 0 || (f & e & 0x1f) & 0x02 != 0 || (f & e
            & 0x1f) & 0x04 != 0 || (f & e & 0x1f) & 0x08 != 0 || (f & e & 0x1f) & 0x10 != 0,
        (f & e & 0x1f) & 0x01 != 0 ==> (f & (0xffu8 ^ 0x01u8)) & 0x01 == 0 && (f & (0xffu8
            ^ 0x01u8)) | 0x01 == f,
        (f & e & 0x1f) & 0x02 != 0 ==> (f & (0xffu8 ^ 0x02u8)) & 0x02 == 0 && (f & (0xffu8
            ^ 0x02u8)) | 0x02 == f,
        (f & e & 0x1f) & 0x04 != 0 ==> (f & (0xffu8 ^ 0x04u8)) & 0x04 == 0 && (f & (0xffu8
            ^ 0x04u8)) | 0x04 == f,
        (f & e & 0x1f) & 0x08 != 0 ==> (f & (0xffu8 ^ 0x08u8)) & 0x08 == 0 && (f & (0xffu8
            ^ 0x08u8)) | 0x08 == f,
        (f & e & 0x1f) & 0x10 != 0 ==> (f & (0xffu8 ^ 0x10u8)) & 0x10 == 0 && (f & (0xffu8
            ^ 0x10u8)) | 0x10 == f,
{
}

/// Of several pending interrupts the one with the lowest bit number is
/// serviced, and only that one: no lower bit is pending, its request bit
/// alone is taken out of the requests, IME is cleared, and PC ends at its
/// handler with the old PC pushed.
pub proof fn lemma_interrupt_priority(s: CpuState)
    requires
        s.dispatches(),
    ensures
        ({
            let i = lowest_pending(s.pending());
            let accepted = s.woken().acknowledge(i);
            &&& 0 <= i < 5
            &&& s.pending() & interrupt_bit(i) != 0
            &&& forall|j: int| 0 <= j < i ==> s.pending() & #[trigger] interrupt_bit(j) == 0
            &&& accepted.ctx.interrupt_flag & interrupt_bit(i) == 0
            &&& accepted.ctx.interrupt_flag | interrupt_bit(i) == s.ctx.interrupt_flag
            &&& s.step() == accepted.tick().tick().push(s.regs.pc).tick().with_pc(handler(i))
            &&& s.step().regs.pc == 0x40 + 8 * i
            &&& s.step().regs.sp == wrap16(s.regs.sp - 2)
            &&& !s.step().ime
            &&& !s.step().halted
        }),
{
    reveal(CpuState::dispatch);
    reveal(CpuState::tick);
    reveal(CpuState::write);
    reveal(CpuState::push);
    lemma_clear_bit(s.ctx.interrupt_flag, s.ctx.interrupt_enable);
}

/// While the timer stands still and the push goes to RAM, the service of
/// an interrupt takes exactly its own request out of IF: every other
/// request stays pending, and IE is as it was.
pub proof fn lemma_interrupt_clears_one_request(s: CpuState)
    requires
        s.dispatches(),
        !counting(s.bus.timer.tac),
        is_ram(wrap16(s.regs.sp - 2)),
        is_ram(wrap16(wrap16(s.regs.sp - 2) + 1)),
    ensures
        ({
            let i = lowest_pending(s.pending());
            &&& s.step().ctx.interrupt_flag == s.ctx.interrupt_flag & (0xffu8 ^ interrupt_bit(i))
            &&& s.step().ctx.interrupt_enable == s.ctx.interrupt_enable
            &&& s.step().regs == (Registers {
                pc: handler(i),
                sp: wrap16(s.regs.sp - 2),
                ..s.regs
            })
        }),
{
    reveal(CpuState::dispatch);
    reveal(CpuState::tick);
    reveal(CpuState::write);
    reveal(CpuState::push);
}

/// Fetching changes no register but PC, and neither IME nor the halt.
pub proof fn lemma_fetch_keeps_control(s: CpuState)
    ensures
        s.fetch().0.ime == s.ime,
        s.fetch().0.halted == s.halted,
        s.fetch().0.prev_ei == s.prev_ei,
        s.fetch().0.regs == (Registers { pc: wrap16(s.regs.pc + 1), ..s.regs }),
{
    reveal(CpuState::fetch);
    reveal(CpuState::read);
    reveal(CpuState::tick);
}

/// A step that executes EI leaves IME as it was and records that the
/// enable is due.
pub proof fn lemma_ei_is_recorded(s: CpuState)
    requires
        s.runs(),
        decode(s.woken().fetch().1) is EI,
    ensures
        s.step().prev_ei,
        s.step().ime == (s.ime || s.prev_ei),
        !s.step().halted,
        s.fault() is None,
{
    lemma_fetch_keeps_control(s.woken());
}

/// The step after EI executes its instruction with IME still as it was and
/// ends with IME set, unless it faults.
pub proof fn lemma_ei_takes_effect(s: CpuState)
    requires
        s.prev_ei,
        s.runs(),
        s.fault() is None,
    ensures
        s.step().ime,
{
}

/// EI takes effect one instruction late: with interrupts masked, the step
/// that executes EI leaves them masked, so the next step executes an
/// instruction even if an interrupt is pending, and only after that
/// instruction are interrupts enabled.
pub proof fn lemma_ei_delay(s: CpuState)
    requires
        !s.ime,
        !s.prev_ei,
        s.runs(),
        decode(s.woken().fetch().1) is EI,
    ensures
        ({
            let after_ei = s.step();
            &&& !after_ei.ime
            &&& !after_ei.dispatches()
            &&& after_ei.runs()
            &&& after_ei.fault() is None ==> after_ei.step().ime
        }),
{
    lemma_ei_is_recorded(s);
    let after_ei = s.step();
    if after_ei.fault() is None {
        lemma_ei_takes_effect(after_ei);
    }
}


/// The lower four bits of F in `after` are those in `before`, or zero.
pub open spec fn nibble_kept(before: CpuState, after: CpuState) -> bool {
    after.regs.f & 0x0f == before.regs.f & 0x0f || after.regs.f & 0x0f == 0
}

proof fn lemma_access_keeps_f(s: CpuState, addr: u16, value: u8, word: u16)
    ensures
        s.tick().regs.f == s.regs.f,
        s.read(addr).0.regs.f == s.regs.f,
        s.write(addr, value).regs.f == s.regs.f,
        s.fetch().0.regs.f == s.regs.f,
        s.fetch_word().0.regs.f == s.regs.f,
        s.push(word).regs.f == s.regs.f,
        s.peek().0.regs.f == s.regs.f,
        s.ret().regs.f == s.regs.f,
        s.call(word).regs.f == s.regs.f,
{
    reveal(CpuState::tick);
    reveal(CpuState::read);
    reveal(CpuState::write);
    reveal(CpuState::fetch);
    reveal(CpuState::fetch_word);
    reveal(CpuState::push);
    reveal(CpuState::peek);
    reveal(CpuState::ret);
    reveal(CpuState::call);
}

proof fn lemma_operand_keeps_f(s: CpuState, op8: Op8, op16: Op16, value: u8, word: u16)
    ensures
        s.get16(op16).0.regs.f == s.regs.f,
        s.get8(op8).0.regs.f == s.regs.f,
        s.set8(op8, value).regs.f == s.regs.f,
        nibble_kept(s, s.set16(op16, word)),
{
    reveal(CpuState::get16);
    reveal(CpuState::get8);
    reveal(CpuState::set8);
    reveal(CpuState::set16);
    lemma_access_keeps_f(s, 0, 0, 0);
    match op8 {
        Op8::Addr(op) => {
            let (s1, addr) = s.get16(op);
            lemma_access_keeps_f(s1, addr, value, 0);
        },
        _ => {},
    }
    let (s2, addr) = s.fetch_word();
    let s3 = s2.write(addr, crate::bits::low_byte(word));
    lemma_access_keeps_f(s2, addr, crate::bits::low_byte(word), 0);
    lemma_access_keeps_f(s3, wrap16(addr + 1), crate::bits::high_byte(word), 0);
    lemma_pair_set_get(s.regs, word);
}

/// Setting flags one after another keeps the lower four bits of F.
proof fn lemma_flag_chain(regs: Registers, b1: bool, b2: bool, b3: bool)
    ensures
        regs.with_z(b1).with_n(b2).with_h(b3).f & 0x0f == regs.f & 0x0f,
        regs.with_z(b1).with_h(b2).with_c(b3).f & 0x0f == regs.f & 0x0f,
        regs.with_n(b1).with_h(b2).with_c(b3).f & 0x0f == regs.f & 0x0f,
        regs.with_n(b1).with_h(b2).f & 0x0f == regs.f & 0x0f,
{
    lemma_flag_set_get(regs, b1);
    lemma_flag_set_get(regs.with_z(b1), b2);
    lemma_flag_set_get(regs.with_n(b1), b2);
    lemma_flag_set_get(regs.with_z(b1).with_n(b2), b3);
    lemma_flag_set_get(regs.with_z(b1).with_h(b2), b3);
    lemma_flag_set_get(regs.with_n(b1).with_h(b2), b3);
}

proof fn lemma_load_keeps_nibble(s: CpuState, inst: Inst)
    requires
        inst is LD || inst is LDI || inst is LDD || inst is LD16 || inst is PUSH || inst is POP,
    ensures
        nibble_kept(s, s.execute(inst)),
{
    match inst {
        Inst::LD(dst, src) => {
            reveal(CpuState::ld);
            lemma_operand_keeps_f(s, src, Op16::RegBC, 0, 0);
            let (s1, value) = s.get8(src);
            lemma_operand_keeps_f(s1, dst, Op16::RegBC, value, 0);
        },
        Inst::LDI(dst, _) | Inst::LDD(dst, _) => {
            reveal(CpuState::ld_step);
            lemma_access_keeps_f(s, s.regs.hl(), s.regs.a, 0);
        },
        Inst::LD16(dst, src) => {
            reveal(CpuState::ld16);
            lemma_operand_keeps_f(s, Op8::RegA, Op16::AddrImm, 0, s.regs.sp);
            lemma_access_keeps_f(s, 0, 0, 0);
            let (s1, e) = s.fetch();
            lemma_access_keeps_f(s1, 0, 0, 0);
            let r = crate::alu::add_signed16(s.regs.sp, e);
            lemma_flags_set_get(
                s1.tick().regs.with_hl(r.value),
                false,
                false,
                r.half_carry,
                r.carry,
            );
            lemma_operand_keeps_f(s, Op8::RegA, src, 0, 0);
            let (s2, value) = s.get16(src);
            lemma_operand_keeps_f(s2, Op8::RegA, dst, 0, value);
        },
        Inst::PUSH(op) => {
            reveal(CpuState::push_op);
            lemma_operand_keeps_f(s, Op8::RegA, op, 0, 0);
            let (s1, value) = s.get16(op);
            lemma_access_keeps_f(s1, 0, 0, 0);
            lemma_access_keeps_f(s1.tick(), 0, 0, value);
        },
        Inst::POP(op) => {
            reveal(CpuState::pop_op);
            lemma_access_keeps_f(s, 0, 0, 0);
            let (s1, value) = s.peek();
            lemma_operand_keeps_f(s1.with_sp(wrap16(s1.regs.sp + 2)), Op8::RegA, op, 0, value);
        },
        _ => {},
    }
}

proof fn lemma_arith_keeps_nibble(s: CpuState, inst: Inst)
    requires
        inst is ADD || inst is ADC || inst is SUB || inst is SBC || inst is AND || inst is XOR
            || inst is OR || inst is CP || inst is INC || inst is DEC,
    ensures
        nibble_kept(s, s.execute(inst)),
{
    reveal(CpuState::add);
    reveal(CpuState::sub);
    reveal(CpuState::and);
    reveal(CpuState::or);
    reveal(CpuState::xor);
    reveal(CpuState::inc);
    reveal(CpuState::dec);
    match inst {
        Inst::ADD(op)
        | Inst::ADC(op)
        | Inst::SUB(op)
        | Inst::SBC(op)
        | Inst::AND(op)
        | Inst::XOR(op)
        | Inst::OR(op)
        | Inst::CP(op) => {
            lemma_operand_keeps_f(s, op, Op16::RegBC, 0, 0);
            let after = s.execute(inst).regs;
            let (s1, b) = s.get8(op);
            let base = Registers { a: after.a, ..s1.regs };
            lemma_flags_set_get(base, after.zf(), after.nf(), after.hf(), after.cf());
            assert forall|z: bool, n: bool, h: bool, c: bool|
                (#[trigger] base.with_flags(z, n, h, c)).f & 0x0f == base.f & 0x0f by {
                lemma_flags_set_get(base, z, n, h, c);
            }
        },
        Inst::INC(op) | Inst::DEC(op) => {
            lemma_operand_keeps_f(s, op, Op16::RegBC, 0, 0);
            let (s1, a) = s.get8(op);
            let value = if inst is INC {
                crate::alu::inc8(a).0
            } else {
                crate::alu::dec8(a).0
            };
            lemma_operand_keeps_f(s1, op, Op16::RegBC, value, 0);
            let regs = s1.set8(op, value).regs;
            assert forall|b1: bool, b2: bool, b3: bool|
                (#[trigger] regs.with_z(b1).with_n(b2).with_h(b3)).f & 0x0f == regs.f & 0x0f by {
                lemma_flag_chain(regs, b1, b2, b3);
            }
        },
        _ => {},
    }
}

proof fn lemma_wide_keeps_nibble(s: CpuState, inst: Inst)
    requires
        inst is DAA || inst is CPL || inst is ADDHL || inst is INC16 || inst is DEC16
            || inst is ADDSP || inst is RLCA || inst is RLA || inst is RRCA || inst is RRA
            || inst is CCF || inst is SCF,
    ensures
        nibble_kept(s, s.execute(inst)),
{
    reveal(CpuState::daa);
    reveal(CpuState::cpl);
    reveal(CpuState::rotate_a);
    reveal(CpuState::ccf);
    reveal(CpuState::scf);
    match inst {
        Inst::DAA => {
            let value = s.execute(inst).regs.a;
            let base = Registers { a: value, ..s.regs };
            assert forall|b1: bool, b2: bool, b3: bool|
                (#[trigger] base.with_z(b1).with_h(b2).with_c(b3)).f & 0x0f == base.f & 0x0f by {
                lemma_flag_chain(base, b1, b2, b3);
            }
        },
        Inst::CPL => {
            let base = Registers { a: s.regs.a ^ 0xff, ..s.regs };
            lemma_flag_chain(base, true, true, true);
        },
        Inst::RLCA | Inst::RLA | Inst::RRCA | Inst::RRA => {
            let value = s.execute(inst).regs.a;
            let base = Registers { a: value, ..s.regs };
            assert forall|z: bool, n: bool, h: bool, c: bool|
                (#[trigger] base.with_flags(z, n, h, c)).f & 0x0f == base.f & 0x0f by {
                lemma_flags_set_get(base, z, n, h, c);
            }
        },
        Inst::CCF | Inst::SCF => {
            lemma_flag_chain(s.regs, false, false, true);
            lemma_flag_chain(s.regs, false, false, false);
        },
        Inst::ADDHL(op) => {
            reveal(CpuState::add_hl);
            lemma_access_keeps_f(s, 0, 0, 0);
            lemma_operand_keeps_f(s.tick(), Op8::RegA, op, 0, 0);
            let (s1, b) = s.tick().get16(op);
            let r = crate::alu::add16(s1.regs.hl(), b);
            lemma_flag_chain(s1.regs.with_hl(r.value), false, r.half_carry, r.carry);
        },
        Inst::INC16(op) | Inst::DEC16(op) => {
            reveal(CpuState::step16);
            lemma_operand_keeps_f(s, Op8::RegA, op, 0, 0);
            let (s1, a) = s.get16(op);
            lemma_access_keeps_f(s1, 0, 0, 0);
            lemma_operand_keeps_f(s1.tick(), Op8::RegA, op, 0, wrap16(a + 1));
            lemma_operand_keeps_f(s1.tick(), Op8::RegA, op, 0, wrap16(a - 1));
        },
        Inst::ADDSP => {
            reveal(CpuState::add_sp);
            lemma_access_keeps_f(s, 0, 0, 0);
            let (s1, e) = s.fetch();
            lemma_access_keeps_f(s1, 0, 0, 0);
            lemma_access_keeps_f(s1.tick(), 0, 0, 0);
            let r = crate::alu::add_signed16(s.regs.sp, e);
            lemma_flags_set_get(
                Registers { sp: r.value, ..s1.tick().tick().regs },
                false,
                false,
                r.half_carry,
                r.carry,
            );
        },
        _ => {},
    }
}

proof fn lemma_flow_keeps_nibble(s: CpuState, inst: Inst)
    requires
        inst is JP || inst is JR || inst is CALL || inst is RET || inst is RETI || inst is RST,
    ensures
        nibble_kept(s, s.execute(inst)),
{
    reveal(CpuState::jp);
    reveal(CpuState::jr);
    reveal(CpuState::call_cond);
    reveal(CpuState::ret_cond);
    reveal(CpuState::reti);
    lemma_access_keeps_f(s, 0, 0, 0);
    match inst {
        Inst::JP(cond, op) => {
            lemma_operand_keeps_f(s, Op8::RegA, op, 0, 0);
            lemma_access_keeps_f(s.get16(op).0, 0, 0, 0);
        },
        Inst::JR(cond) => {
            lemma_access_keeps_f(s.fetch().0, 0, 0, 0);
        },
        Inst::CALL(cond) => {
            let (s1, addr) = s.fetch_word();
            lemma_access_keeps_f(s1, 0, 0, addr);
        },
        Inst::RET(cond) => {
            lemma_access_keeps_f(s.tick(), 0, 0, 0);
        },
        Inst::RST(addr) => {
            lemma_access_keeps_f(s, 0, 0, addr);
        },
        _ => {},
    }
}

proof fn lemma_prefixed_keeps_nibble(s: CpuState, inst: Inst)
    requires
        inst.prefixed(),
    ensures
        nibble_kept(s, s.execute(inst)),
{
    reveal(CpuState::shift);
    reveal(CpuState::test_bit);
    reveal(CpuState::set_bit);
    reveal(CpuState::reset_bit);
    match inst {
        Inst::BIT(n, op) => {
            lemma_operand_keeps_f(s, op, Op16::RegBC, 0, 0);
            let (s1, a) = s.get8(op);
            lemma_flag_chain(s1.regs, !crate::alu::bit_set(a, n), false, true);
        },
        Inst::SET(n, op) => {
            lemma_operand_keeps_f(s, op, Op16::RegBC, 0, 0);
            let (s1, a) = s.get8(op);
            lemma_operand_keeps_f(s1, op, Op16::RegBC, crate::alu::with_bit(a, n), 0);
        },
        Inst::RES(n, op) => {
            lemma_operand_keeps_f(s, op, Op16::RegBC, 0, 0);
            let (s1, a) = s.get8(op);
            lemma_operand_keeps_f(s1, op, Op16::RegBC, crate::alu::without_bit(a, n), 0);
        },
        Inst::RLC(op)
        | Inst::RRC(op)
        | Inst::RL(op)
        | Inst::RR(op)
        | Inst::SLA(op)
        | Inst::SRA(op)
        | Inst::SWAP(op)
        | Inst::SRL(op) => {
            lemma_operand_keeps_f(s, op, Op16::RegBC, 0, 0);
            let (s1, a) = s.get8(op);
            let r = crate::state::shifted(inst, a, s1.regs.cf());
            lemma_operand_keeps_f(s1, op, Op16::RegBC, r.0, 0);
            lemma_flags_set_get(s1.set8(op, r.0).regs, r.0 == 0, false, false, r.1);
        },
        _ => {},
    }
}

/// No instruction sets any of the lower four bits of F: they stay as they
/// were, or are cleared when AF is loaded.
pub proof fn lemma_execute_keeps_nibble(s: CpuState, inst: Inst)
    ensures
        nibble_kept(s, s.execute(inst)),
{
    if inst is LD || inst is LDI || inst is LDD || inst is LD16 || inst is PUSH || inst is POP {
        lemma_load_keeps_nibble(s, inst);
    } else if inst is ADD || inst is ADC || inst is SUB || inst is SBC || inst is AND
        || inst is XOR || inst is OR || inst is CP || inst is INC || inst is DEC {
        lemma_arith_keeps_nibble(s, inst);
    } else if inst is DAA || inst is CPL || inst is ADDHL || inst is INC16 || inst is DEC16
        || inst is ADDSP || inst is RLCA || inst is RLA || inst is RRCA || inst is RRA
        || inst is CCF || inst is SCF {
        lemma_wide_keeps_nibble(s, inst);
    } else if inst is JP || inst is JR || inst is CALL || inst is RET || inst is RETI
        || inst is RST {
        lemma_flow_keeps_nibble(s, inst);
    } else if inst.prefixed() {
        lemma_prefixed_keeps_nibble(s, inst);
    }
}

/// Once the lower four bits of F are zero they stay zero, whatever the
/// machine does.
pub proof fn lemma_step_keeps_flags_clean(s: CpuState)
    requires
        s.regs.flags_clean(),
    ensures
        s.step().regs.flags_clean(),
{
    if s.dispatches() {
        reveal(CpuState::dispatch);
        let s0 = s.woken().acknowledge(lowest_pending(s.pending()));
        lemma_access_keeps_f(s0, 0, 0, 0);
        lemma_access_keeps_f(s0.tick(), 0, 0, 0);
        lemma_access_keeps_f(s0.tick().tick(), 0, 0, s.regs.pc);
        lemma_access_keeps_f(s0.tick().tick().push(s.regs.pc), 0, 0, 0);
    } else if s.runs() {
        let w = s.woken();
        lemma_access_keeps_f(w, 0, 0, 0);
        let (s1, opcode) = w.fetch();
        let inst = decode(opcode);
        if inst is PREFIX {
            lemma_access_keeps_f(s1, 0, 0, 0);
            let (s2, second) = s1.fetch();
            lemma_execute_keeps_nibble(s2, crate::inst::decode_prefixed(second));
        } else {
            lemma_execute_keeps_nibble(s1, inst);
        }
    } else {
        lemma_access_keeps_f(s, 0, 0, 0);
    }
}

} // verus!
