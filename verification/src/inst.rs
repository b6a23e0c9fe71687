use vstd::prelude::*;

verus! {

/// An 8-bit operand: a register, the byte after the opcode, or the byte at
/// the address a 16-bit operand evaluates to.
#[derive(Debug, Clone, Copy, PartialEq, Eq, Structural)]
pub enum Op8 {
    RegA,
    RegB,
    RegC,
    RegD,
    RegE,
    RegH,
    RegL,
    Imm,
    Addr(Op16),
}

/// A 16-bit operand.
#[derive(Debug, Clone, Copy, PartialEq, Eq, Structural)]
pub enum Op16 {
    RegBC,
    RegDE,
    RegHL,
    RegSP,
    RegAF,
    /// The little-endian word after the opcode.
    Imm,
    /// SP plus a signed byte.
    AddImmToSP,
    /// 0xff00 plus the byte after the opcode.
    AddImmToFF00,
    /// 0xff00 plus register C.
    AddRegCToFF00,
    /// The memory word at the address given by the word after the opcode.
    AddrImm,
}

#[derive(Debug, Clone, Copy, PartialEq, Eq, Structural)]
pub enum JumpCond {
    NONE,
    NZ,
    Z,
    NC,
    C,
}

/// A decoded instruction with its operand selectors.
#[derive(Debug, Clone, Copy, PartialEq, Eq, Structural)]
pub enum Inst {
    UNK,
    LD(Op8, Op8),
    LDI(Op8, Op8),
    LDD(Op8, Op8),
    LD16(Op16, Op16),
    PUSH(Op16),
    POP(Op16),
    ADD(Op8),
    ADC(Op8),
    SUB(Op8),
    SBC(Op8),
    AND(Op8),
    XOR(Op8),
    OR(Op8),
    CP(Op8),
    INC(Op8),
    DEC(Op8),
    DAA,
    CPL,
    ADDHL(Op16),
    INC16(Op16),
    DEC16(Op16),
    ADDSP,
    RLCA,
    RLA,
    RRCA,
    RRA,
    CCF,
    SCF,
    NOP,
    HALT,
    STOP,
    DI,
    EI,
    JP(JumpCond, Op16),
    JR(JumpCond),
    CALL(JumpCond),
    RET(JumpCond),
    RETI,
    RST(u16),
    PREFIX,
    RLC(Op8),
    RRC(Op8),
    RL(Op8),
    RR(Op8),
    SLA(Op8),
    SRA(Op8),
    SWAP(Op8),
    SRL(Op8),
    BIT(usize, Op8),
    RES(usize, Op8),
    SET(usize, Op8),
}

/// The 8-bit operand selected by a three-bit register field.
pub open spec fn reg8(i: int) -> Op8 {
    if i == 0 {
        Op8::RegB
    } else if i == 1 {
        Op8::RegC
    } else if i == 2 {
        Op8::RegD
    } else if i == 3 {
        Op8::RegE
    } else if i == 4 {
        Op8::RegH
    } else if i == 5 {
        Op8::RegL
    } else if i == 6 {
        Op8::Addr(Op16::RegHL)
    } else {
        Op8::RegA
    }
}

/// The register pair selected by a two-bit field, with SP in the last slot.
pub open spec fn reg16(i: int) -> Op16 {
    if i == 0 {
        Op16::RegBC
    } else if i == 1 {
        Op16::RegDE
    } else if i == 2 {
        Op16::RegHL
    } else {
        Op16::RegSP
    }
}

/// The register pair selected by a two-bit field of PUSH and POP, where the
/// last slot means AF.
pub open spec fn reg16_stack(i: int) -> Op16 {
    if i == 3 {
        Op16::RegAF
    } else {
        reg16(i)
    }
}

/// The condition selected by a two-bit field.
pub open spec fn cond(i: int) -> JumpCond {
    if i == 0 {
        JumpCond::NZ
    } else if i == 1 {
        JumpCond::Z
    } else if i == 2 {
        JumpCond::NC
    } else {
        JumpCond::C
    }
}

/// The accumulator operation selected by a three-bit field.
pub open spec fn alu(y: int, operand: Op8) -> Inst {
    if y == 0 {
        Inst::ADD(operand)
    } else if y == 1 {
        Inst::ADC(operand)
    } else if y == 2 {
        Inst::SUB(operand)
    } else if y == 3 {
        Inst::SBC(operand)
    } else if y == 4 {
        Inst::AND(operand)
    } else if y == 5 {
        Inst::XOR(operand)
    } else if y == 6 {
        Inst::OR(operand)
    } else {
        Inst::CP(operand)
    }
}

/// The rotate or shift selected by a three-bit field of a prefixed opcode.
pub open spec fn rot(y: int, operand: Op8) -> Inst {
    if y == 0 {
        Inst::RLC(operand)
    } else if y == 1 {
        Inst::RRC(operand)
    } else if y == 2 {
        Inst::RL(operand)
    } else if y == 3 {
        Inst::RR(operand)
    } else if y == 4 {
        Inst::SLA(operand)
    } else if y == 5 {
        Inst::SRA(operand)
    } else if y == 6 {
        Inst::SWAP(operand)
    } else {
        Inst::SRL(operand)
    }
}

/// Opcodes 0x00 to 0x3f, by the fields `y` (bits 5..3) and `z` (bits 2..0).
pub open spec fn decode_low(y: int, z: int) -> Inst {
    let p = y / 2;
    let q = y % 2;
    if z == 0 {
        if y == 0 {
            Inst::NOP
        } else if y == 1 {
            Inst::LD16(Op16::AddrImm, Op16::RegSP)
        } else if y == 2 {
            Inst::STOP
        } else if y == 3 {
            Inst::JR(JumpCond::NONE)
        } else {
            Inst::JR(cond(y - 4))
        }
    } else if z == 1 {
        if q == 0 {
            Inst::LD16(reg16(p), Op16::Imm)
        } else {
            Inst::ADDHL(reg16(p))
        }
    } else if z == 2 {
        if p == 0 {
            if q == 0 {
                Inst::LD(Op8::Addr(Op16::RegBC), Op8::RegA)
            } else {
                Inst::LD(Op8::RegA, Op8::Addr(Op16::RegBC))
            }
        } else if p == 1 {
            if q == 0 {
                Inst::LD(Op8::Addr(Op16::RegDE), Op8::RegA)
            } else {
                Inst::LD(Op8::RegA, Op8::Addr(Op16::RegDE))
            }
        } else if p == 2 {
            if q == 0 {
                Inst::LDI(Op8::Addr(Op16::RegHL), Op8::RegA)
            } else {
                Inst::LDI(Op8::RegA, Op8::Addr(Op16::RegHL))
            }
        } else {
            if q == 0 {
                Inst::LDD(Op8::Addr(Op16::RegHL), Op8::RegA)
            } else {
                Inst::LDD(Op8::RegA, Op8::Addr(Op16::RegHL))
            }
        }
    } else if z == 3 {
        if q == 0 {
            Inst::INC16(reg16(p))
        } else {
            Inst::DEC16(reg16(p))
        }
    } else if z == 4 {
        Inst::INC(reg8(y))
    } else if z == 5 {
        Inst::DEC(reg8(y))
    } else if z == 6 {
        Inst::LD(reg8(y), Op8::Imm)
    } else {
        if y == 0 {
            Inst::RLCA
        } else if y == 1 {
            Inst::RRCA
        } else if y == 2 {
            Inst::RLA
        } else if y == 3 {
            Inst::RRA
        } else if y == 4 {
            Inst::DAA
        } else if y == 5 {
            Inst::CPL
        } else if y == 6 {
            Inst::SCF
        } else {
            Inst::CCF
        }
    }
}

/// Opcodes 0xc0 to 0xff, by the fields `y` (bits 5..3) and `z` (bits 2..0).
/// Eleven of them have no instruction.
pub open spec fn decode_high(y: int, z: int) -> Inst {
    let p = y / 2;
    let q = y % 2;
    if z == 0 {
        if y < 4 {
            Inst::RET(cond(y))
        } else if y == 4 {
            Inst::LD(Op8::Addr(Op16::AddImmToFF00), Op8::RegA)
        } else if y == 5 {
            Inst::ADDSP
        } else if y == 6 {
            Inst::LD(Op8::RegA, Op8::Addr(Op16::AddImmToFF00))
        } else {
            Inst::LD16(Op16::RegHL, Op16::AddImmToSP)
        }
    } else if z == 1 {
        if q == 0 {
            Inst::POP(reg16_stack(p))
        } else if p == 0 {
            Inst::RET(JumpCond::NONE)
        } else if p == 1 {
            Inst::RETI
        } else if p == 2 {
            Inst::JP(JumpCond::NONE, Op16::RegHL)
        } else {
            Inst::LD16(Op16::RegSP, Op16::RegHL)
        }
    } else if z == 2 {
        if y < 4 {
            Inst::JP(cond(y), Op16::Imm)
        } else if y == 4 {
            Inst::LD(Op8::Addr(Op16::AddRegCToFF00), Op8::RegA)
        } else if y == 5 {
            Inst::LD(Op8::Addr(Op16::Imm), Op8::RegA)
        } else if y == 6 {
            Inst::LD(Op8::RegA, Op8::Addr(Op16::AddRegCToFF00))
        } else {
            Inst::LD(Op8::RegA, Op8::Addr(Op16::Imm))
        }
    } else if z == 3 {
        if y == 0 {
            Inst::JP(JumpCond::NONE, Op16::Imm)
        } else if y == 1 {
            Inst::PREFIX
        } else if y == 6 {
            Inst::DI
        } else if y == 7 {
            Inst::EI
        } else {
            Inst::UNK
        }
    } else if z == 4 {
        if y < 4 {
            Inst::CALL(cond(y))
        } else {
            Inst::UNK
        }
    } else if z == 5 {
        if q == 0 {
            Inst::PUSH(reg16_stack(p))
        } else if p == 0 {
            Inst::CALL(JumpCond::NONE)
        } else {
            Inst::UNK
        }
    } else if z == 6 {
        alu(y, Op8::Imm)
    } else {
        Inst::RST((y * 8) as u16)
    }
}

/// The instruction that an opcode byte stands for. `Inst::UNK` marks the
/// eleven bytes that have none.
pub open spec fn decode(opcode: u8) -> Inst {
    let x = opcode as int / 64;
    let y = (opcode as int / 8) % 8;
    let z = opcode as int % 8;
    if x == 0 {
        decode_low(y, z)
    } else if x == 1 {
        if opcode == 0x76 {
            Inst::HALT
        } else {
            Inst::LD(reg8(y), reg8(z))
        }
    } else if x == 2 {
        alu(y, reg8(z))
    } else {
        decode_high(y, z)
    }
}

/// The instruction that a byte after the 0xcb prefix stands for.
pub open spec fn decode_prefixed(opcode: u8) -> Inst {
    let x = opcode as int / 64;
    let y = (opcode as int / 8) % 8;
    let z = opcode as int % 8;
    if x == 0 {
        rot(y, reg8(z))
    } else if x == 1 {
        Inst::BIT(y as usize, reg8(z))
    } else if x == 2 {
        Inst::RES(y as usize, reg8(z))
    } else {
        Inst::SET(y as usize, reg8(z))
    }
}


impl Op16 {
    /// The operands that have a value to read.
    pub open spec fn readable(self) -> bool {
        !(self is AddrImm) && !(self is AddImmToSP)
    }

    /// The operands that a value can be stored to.
    pub open spec fn writable(self) -> bool {
        self is RegBC || self is RegDE || self is RegHL || self is RegSP || self is RegAF
            || self is AddrImm
    }
}

impl Op8 {
    /// The operands that have a value to read.
    pub open spec fn readable(self) -> bool {
        match self {
            Op8::Addr(address) => address.readable(),
            _ => true,
        }
    }

    /// The operands that a value can be stored to.
    pub open spec fn writable(self) -> bool {
        match self {
            Op8::Imm => false,
            Op8::Addr(address) => address.readable(),
            _ => true,
        }
    }
}

impl Inst {
    /// The instructions that only occur after the 0xcb prefix.
    pub open spec fn prefixed(self) -> bool {
        match self {
            Inst::RLC(_)
            | Inst::RRC(_)
            | Inst::RL(_)
            | Inst::RR(_)
            | Inst::SLA(_)
            | Inst::SRA(_)
            | Inst::SWAP(_)
            | Inst::SRL(_)
            | Inst::BIT(_, _)
            | Inst::RES(_, _)
            | Inst::SET(_, _) => true,
            _ => false,
        }
    }

    /// The operand combinations that the interpreter has a meaning for.
    pub open spec fn well_formed(self) -> bool {
        match self {
            Inst::UNK => false,
            Inst::LD(dst, src) => dst.writable() && src.readable(),
            Inst::LDI(dst, src) | Inst::LDD(dst, src) => (dst == Op8::Addr(Op16::RegHL) && src
                == Op8::RegA) || (dst == Op8::RegA && src == Op8::Addr(Op16::RegHL)),
            Inst::LD16(dst, src) => (dst == Op16::RegHL && src == Op16::AddImmToSP) || (
            dst.writable() && src.readable()),
            Inst::PUSH(op) => op.readable(),
            Inst::POP(op) => op.writable(),
            Inst::ADD(op)
            | Inst::ADC(op)
            | Inst::SUB(op)
            | Inst::SBC(op)
            | Inst::AND(op)
            | Inst::XOR(op)
            | Inst::OR(op)
            | Inst::CP(op) => op.readable(),
            Inst::INC(op) | Inst::DEC(op) => op.readable() && op.writable(),
            Inst::ADDHL(op) => op.readable(),
            Inst::INC16(op) | Inst::DEC16(op) => op.readable() && op.writable(),
            Inst::JP(_, op) => op.readable(),
            Inst::RLC(op)
            | Inst::RRC(op)
            | Inst::RL(op)
            | Inst::RR(op)
            | Inst::SLA(op)
            | Inst::SRA(op)
            | Inst::SWAP(op)
            | Inst::SRL(op) => op.readable() && op.writable(),
            Inst::BIT(n, op) => n < 8 && op.readable(),
            Inst::RES(n, op) | Inst::SET(n, op) => n < 8 && op.readable() && op.writable(),
            _ => true,
        }
    }
}

/// An unprefixed opcode either has no instruction or one the interpreter has
/// a meaning for, and never one of the prefixed set.
pub proof fn lemma_decode_well_formed(opcode: u8)
    ensures
        decode(opcode) is UNK || decode(opcode).well_formed(),
        !decode(opcode).prefixed(),
{
}

/// Every byte after the prefix has an instruction of the prefixed set that
/// the interpreter has a meaning for.
pub proof fn lemma_decode_prefixed_well_formed(opcode: u8)
    ensures
        decode_prefixed(opcode).well_formed(),
        decode_prefixed(opcode).prefixed(),
{
}

/// The opcodes without an instruction are exactly these eleven.
pub proof fn lemma_undefined_opcodes(opcode: u8)
    ensures
        decode(opcode) is UNK <==> (opcode == 0xd3 || opcode == 0xdb || opcode == 0xdd || opcode
            == 0xe3 || opcode == 0xe4 || opcode == 0xeb || opcode == 0xec || opcode == 0xed
            || opcode == 0xf4 || opcode == 0xfc || opcode == 0xfd),
{
}

/// True when every table slot below `k` holds what the prefixed opcode
/// decodes to.
spec fn prefixed_below(t: Seq<Inst>, k: int) -> bool {
    &&& t.len() == 256
    &&& forall|op: int| 0 <= op < k && op < 256 ==> #[trigger] t[op] == decode_prefixed(op as u8)
}

fn op8(i: usize) -> (operand: Op8)
    requires
        i < 8,
    ensures
        operand == reg8(i as int),
{
    if i == 0 {
        Op8::RegB
    } else if i == 1 {
        Op8::RegC
    } else if i == 2 {
        Op8::RegD
    } else if i == 3 {
        Op8::RegE
    } else if i == 4 {
        Op8::RegH
    } else if i == 5 {
        Op8::RegL
    } else if i == 6 {
        Op8::Addr(Op16::RegHL)
    } else {
        Op8::RegA
    }
}

fn op16(i: usize) -> (operand: Op16)
    requires
        i < 4,
    ensures
        operand == reg16(i as int),
{
    if i == 0 {
        Op16::RegBC
    } else if i == 1 {
        Op16::RegDE
    } else if i == 2 {
        Op16::RegHL
    } else {
        Op16::RegSP
    }
}

fn condition(i: usize) -> (c: JumpCond)
    requires
        i < 4,
    ensures
        c == cond(i as int),
{
    if i == 0 {
        JumpCond::NZ
    } else if i == 1 {
        JumpCond::Z
    } else if i == 2 {
        JumpCond::NC
    } else {
        JumpCond::C
    }
}

/// Builds the table of the opcodes that follow the 0xcb prefix. Every byte
/// has an instruction there.
pub fn generate_prefix_inst_table() -> (table: [Inst; 256])
    ensures
        forall|opcode: u8| table@[opcode as int] == decode_prefixed(opcode),
        forall|opcode: u8| table@[opcode as int] != Inst::UNK,
{
    let mut table = [Inst::UNK; 256];
    // rotate and shift inst
    for i in 0..8
        invariant
            prefixed_below(table@, i as int),
    {
        table[i] = Inst::RLC(op8(i));
    }
    for i in 0..8
        invariant
            prefixed_below(table@, 0x08 + i),
    {
        table[0x08 + i] = Inst::RRC(op8(i));
    }
    for i in 0..8
        invariant
            prefixed_below(table@, 0x10 + i),
    {
        table[0x10 + i] = Inst::RL(op8(i));
    }
    for i in 0..8
        invariant
            prefixed_below(table@, 0x18 + i),
    {
        table[0x18 + i] = Inst::RR(op8(i));
    }
    for i in 0..8
        invariant
            prefixed_below(table@, 0x20 + i),
    {
        table[0x20 + i] = Inst::SLA(op8(i));
    }
    for i in 0..8
        invariant
            prefixed_below(table@, 0x28 + i),
    {
        table[0x28 + i] = Inst::SRA(op8(i));
    }
    for i in 0..8
        invariant
            prefixed_below(table@, 0x30 + i),
    {
        table[0x30 + i] = Inst::SWAP(op8(i));
    }
    for i in 0..8
        invariant
            prefixed_below(table@, 0x38 + i),
    {
        table[0x38 + i] = Inst::SRL(op8(i));
    }
    // single-bit operation inst
    for n in 0..8
        invariant
            prefixed_below(table@, 0x40 + (n as int) * 8),
    {
        for i in 0..8
            invariant
                n < 8,
                prefixed_below(table@, 0x40 + (n as int) * 8 + i),
        {
            table[0x40 + n * 8 + i] = Inst::BIT(n, op8(i));
        }
    }
    for n in 0..8
        invariant
            prefixed_below(table@, 0x80 + (n as int) * 8),
    {
        for i in 0..8
            invariant
                n < 8,
                prefixed_below(table@, 0x80 + (n as int) * 8 + i),
        {
            table[0x80 + n * 8 + i] = Inst::RES(n, op8(i));
        }
    }
    for n in 0..8
        invariant
            prefixed_below(table@, 0xc0 + (n as int) * 8),
    {
        for i in 0..8
            invariant
                n < 8,
                prefixed_below(table@, 0xc0 + (n as int) * 8 + i),
        {
            table[0xc0 + n * 8 + i] = Inst::SET(n, op8(i));
        }
    }
    assert forall|opcode: u8| table@[opcode as int] == decode_prefixed(opcode) by {
        assert(table@[opcode as int] == decode_prefixed(opcode as int as u8));
    }
    table
}


/// What the fill loops write into slot `op`. The register-to-register loads
/// run over 0x76 as well; HALT replaces that entry afterwards.
spec fn loop_entry(op: int) -> Inst {
    if op == 0x76 {
        Inst::LD(Op8::Addr(Op16::RegHL), Op8::Addr(Op16::RegHL))
    } else {
        decode(op as u8)
    }
}

/// The first `n` slots of the run that starts at `base` and advances by
/// `stride`.
spec fn in_run(op: int, base: int, stride: int, n: int) -> bool {
    op >= base && (op - base) % stride == 0 && (op - base) / stride < n
}

/// `t` is `before` with the first `n` slots of a run filled in.
spec fn layered(t: Seq<Inst>, before: Seq<Inst>, base: int, stride: int, n: int) -> bool {
    &&& t.len() == 256
    &&& before.len() == 256
    &&& forall|op: int|
        0 <= op < 256 ==> #[trigger] t[op] == (if in_run(op, base, stride, n) {
            loop_entry(op)
        } else {
            before[op]
        })
}

/// The slots of the 8-bit loads.
spec fn is_load8(op: int) -> bool {
    let x = op / 64;
    let z = op % 8;
    x == 1 || (x == 0 && (z == 6 || z == 2)) || op == 0xe0 || op == 0xf0 || op == 0xe2 || op
        == 0xf2 || op == 0xea || op == 0xfa
}

fn fill_load8(table: &mut [Inst; 256])
    ensures
        forall|op: int|
            0 <= op < 256 ==> #[trigger] final(table)@[op] == (if is_load8(op) {
                loop_entry(op)
            } else {
                old(table)@[op]
            }),
{
    let ghost before = table@;
    for i in 0..8
        invariant
            layered(table@, before, 0x40, 1, (i as int) * 8),
    {
        for j in 0..8
            invariant
                i < 8,
                layered(table@, before, 0x40, 1, (i as int) * 8 + j),
        {
            let opcode = 0x40 + i * 8 + j;
            table[opcode] = Inst::LD(op8(i), op8(j));
        }
    }
    let ghost before = table@;
    for i in 0..8
        invariant
            layered(table@, before, 0x06, 8, i as int),
    {
        let opcode = 0x06 + i * 8;
        table[opcode] = Inst::LD(op8(i), Op8::Imm);
    }
    table[0x0a] = Inst::LD(Op8::RegA, Op8::Addr(Op16::RegBC));
    table[0x1a] = Inst::LD(Op8::RegA, Op8::Addr(Op16::RegDE));
    table[0xfa] = Inst::LD(Op8::RegA, Op8::Addr(Op16::Imm));
    table[0x02] = Inst::LD(Op8::Addr(Op16::RegBC), Op8::RegA);
    table[0x12] = Inst::LD(Op8::Addr(Op16::RegDE), Op8::RegA);
    table[0xea] = Inst::LD(Op8::Addr(Op16::Imm), Op8::RegA);
    table[0xf0] = Inst::LD(Op8::RegA, Op8::Addr(Op16::AddImmToFF00));
    table[0xe0] = Inst::LD(Op8::Addr(Op16::AddImmToFF00), Op8::RegA);
    table[0xf2] = Inst::LD(Op8::RegA, Op8::Addr(Op16::AddRegCToFF00));
    table[0xe2] = Inst::LD(Op8::Addr(Op16::AddRegCToFF00), Op8::RegA);
    table[0x22] = Inst::LDI(Op8::Addr(Op16::RegHL), Op8::RegA);
    table[0x2a] = Inst::LDI(Op8::RegA, Op8::Addr(Op16::RegHL));
    table[0x32] = Inst::LDD(Op8::Addr(Op16::RegHL), Op8::RegA);
    table[0x3a] = Inst::LDD(Op8::RegA, Op8::Addr(Op16::RegHL));
}

/// The slots of the 16-bit loads, PUSH and POP.
spec fn is_load16(op: int) -> bool {
    let x = op / 64;
    let y = (op / 8) % 8;
    let z = op % 8;
    let q = y % 2;
    (x == 0 && z == 1 && q == 0) || op == 0x08 || op == 0xf9 || (x == 3 && (z == 5 || z == 1) && q
        == 0)
}

fn fill_load16(table: &mut [Inst; 256])
    ensures
        forall|op: int|
            0 <= op < 256 ==> #[trigger] final(table)@[op] == (if is_load16(op) {
                decode(op as u8)
            } else {
                old(table)@[op]
            }),
{
    let ghost before = table@;
    for i in 0..4
        invariant
            layered(table@, before, 0x01, 16, i as int),
    {
        let opcode = 1 + i * 16;
        table[opcode] = Inst::LD16(op16(i), Op16::Imm);
    }
    table[0x08] = Inst::LD16(Op16::AddrImm, Op16::RegSP);
    table[0xf9] = Inst::LD16(Op16::RegSP, Op16::RegHL);
    let ghost before = table@;
    for i in 0..4
        invariant
            layered(table@, before, 0xc5, 16, i as int),
    {
        let opcode = 0xc5 + i * 16;
        let op = op16(i);
        if matches!(op, Op16::RegSP) {
            // PUSH SP does not exist: the slot means PUSH AF.
            table[opcode] = Inst::PUSH(Op16::RegAF);
        } else {
            table[opcode] = Inst::PUSH(op);
        }
    }
    let ghost before = table@;
    for i in 0..4
        invariant
            layered(table@, before, 0xc1, 16, i as int),
    {
        let opcode = 0xc1 + i * 16;
        let op = op16(i);
        if matches!(op, Op16::RegSP) {
            // POP SP does not exist: the slot means POP AF.
            table[opcode] = Inst::POP(Op16::RegAF);
        } else {
            table[opcode] = Inst::POP(op);
        }
    }
}

/// The slots of the 8-bit additions and subtractions.
spec fn is_arith8(op: int) -> bool {
    let x = op / 64;
    let y = (op / 8) % 8;
    let z = op % 8;
    (x == 2 || (x == 3 && z == 6)) && y < 4
}

fn fill_arith8(table: &mut [Inst; 256])
    ensures
        forall|op: int|
            0 <= op < 256 ==> #[trigger] final(table)@[op] == (if is_arith8(op) {
                decode(op as u8)
            } else {
                old(table)@[op]
            }),
{
    let ghost before = table@;
    for i in 0..8
        invariant
            layered(table@, before, 0x80, 1, i as int),
    {
        table[0x80 + i] = Inst::ADD(op8(i));
    }
    table[0xc6] = Inst::ADD(Op8::Imm);
    let ghost before = table@;
    for i in 0..8
        invariant
            layered(table@, before, 0x88, 1, i as int),
    {
        table[0x88 + i] = Inst::ADC(op8(i));
    }
    table[0xce] = Inst::ADC(Op8::Imm);
    let ghost before = table@;
    for i in 0..8
        invariant
            layered(table@, before, 0x90, 1, i as int),
    {
        table[0x90 + i] = Inst::SUB(op8(i));
    }
    table[0xd6] = Inst::SUB(Op8::Imm);
    let ghost before = table@;
    for i in 0..8
        invariant
            layered(table@, before, 0x98, 1, i as int),
    {
        table[0x98 + i] = Inst::SBC(op8(i));
    }
    table[0xde] = Inst::SBC(Op8::Imm);
}

/// The slots of the 8-bit logic instructions and of the comparison.
spec fn is_logic8(op: int) -> bool {
    let x = op / 64;
    let y = (op / 8) % 8;
    let z = op % 8;
    (x == 2 || (x == 3 && z == 6)) && y >= 4
}

fn fill_logic8(table: &mut [Inst; 256])
    ensures
        forall|op: int|
            0 <= op < 256 ==> #[trigger] final(table)@[op] == (if is_logic8(op) {
                decode(op as u8)
            } else {
                old(table)@[op]
            }),
{
    let ghost before = table@;
    for i in 0..8
        invariant
            layered(table@, before, 0xa0, 1, i as int),
    {
        table[0xa0 + i] = Inst::AND(op8(i));
    }
    table[0xe6] = Inst::AND(Op8::Imm);
    let ghost before = table@;
    for i in 0..8
        invariant
            layered(table@, before, 0xa8, 1, i as int),
    {
        table[0xa8 + i] = Inst::XOR(op8(i));
    }
    table[0xee] = Inst::XOR(Op8::Imm);
    let ghost before = table@;
    for i in 0..8
        invariant
            layered(table@, before, 0xb0, 1, i as int),
    {
        table[0xb0 + i] = Inst::OR(op8(i));
    }
    table[0xf6] = Inst::OR(Op8::Imm);
    let ghost before = table@;
    for i in 0..8
        invariant
            layered(table@, before, 0xb8, 1, i as int),
    {
        table[0xb8 + i] = Inst::CP(op8(i));
    }
    table[0xfe] = Inst::CP(Op8::Imm);
}

/// The slots of the 8-bit increments and decrements, DAA and CPL.
spec fn is_step8(op: int) -> bool {
    let x = op / 64;
    let z = op % 8;
    (x == 0 && (z == 4 || z == 5)) || op == 0x27 || op == 0x2f
}

fn fill_step8(table: &mut [Inst; 256])
    ensures
        forall|op: int|
            0 <= op < 256 ==> #[trigger] final(table)@[op] == (if is_step8(op) {
                decode(op as u8)
            } else {
                old(table)@[op]
            }),
{
    let ghost before = table@;
    for i in 0..8
        invariant
            layered(table@, before, 0x04, 8, i as int),
    {
        let opcode = 0x04 + i * 8;
        table[opcode] = Inst::INC(op8(i));
    }
    let ghost before = table@;
    for i in 0..8
        invariant
            layered(table@, before, 0x05, 8, i as int),
    {
        let opcode = 0x05 + i * 8;
        table[opcode] = Inst::DEC(op8(i));
    }
    table[0x27] = Inst::DAA;
    table[0x2f] = Inst::CPL;
}

/// The slots of the 16-bit arithmetic instructions.
spec fn is_alu16(op: int) -> bool {
    let x = op / 64;
    let y = (op / 8) % 8;
    let z = op % 8;
    let q = y % 2;
    (x == 0 && z == 1 && q == 1) || (x == 0 && z == 3) || op == 0xe8 || op == 0xf8
}

fn fill_alu16(table: &mut [Inst; 256])
    ensures
        forall|op: int|
            0 <= op < 256 ==> #[trigger] final(table)@[op] == (if is_alu16(op) {
                decode(op as u8)
            } else {
                old(table)@[op]
            }),
{
    let ghost before = table@;
    for i in 0..4
        invariant
            layered(table@, before, 0x09, 16, i as int),
    {
        let opcode = 0x09 + i * 16;
        table[opcode] = Inst::ADDHL(op16(i));
    }
    let ghost before = table@;
    for i in 0..4
        invariant
            layered(table@, before, 0x03, 16, i as int),
    {
        let opcode = 0x03 + i * 16;
        table[opcode] = Inst::INC16(op16(i));
    }
    let ghost before = table@;
    for i in 0..4
        invariant
            layered(table@, before, 0x0b, 16, i as int),
    {
        let opcode = 0x0b + i * 16;
        table[opcode] = Inst::DEC16(op16(i));
    }
    table[0xe8] = Inst::ADDSP;
    table[0xf8] = Inst::LD16(Op16::RegHL, Op16::AddImmToSP);
}

/// The slots of the accumulator rotates and of the control instructions.
spec fn is_control(op: int) -> bool {
    op == 0x07 || op == 0x17 || op == 0x0f || op == 0x1f || op == 0x3f || op == 0x37 || op == 0x00
        || op == 0x76 || op == 0x10 || op == 0xf3 || op == 0xfb
}

fn fill_control(table: &mut [Inst; 256])
    ensures
        forall|op: int|
            0 <= op < 256 ==> #[trigger] final(table)@[op] == (if is_control(op) {
                decode(op as u8)
            } else {
                old(table)@[op]
            }),
{
    // rotate and shift inst
    table[0x07] = Inst::RLCA;
    table[0x17] = Inst::RLA;
    table[0x0f] = Inst::RRCA;
    table[0x1f] = Inst::RRA;
    // CPU control inst
    table[0x3f] = Inst::CCF;
    table[0x37] = Inst::SCF;
    table[0x00] = Inst::NOP;
    table[0x76] = Inst::HALT;
    table[0x10] = Inst::STOP;
    table[0xf3] = Inst::DI;
    table[0xfb] = Inst::EI;
}

/// The slots of the jumps, calls and returns, and of the prefix byte.
spec fn is_jump(op: int) -> bool {
    let x = op / 64;
    let y = (op / 8) % 8;
    let z = op % 8;
    op == 0xc3 || op == 0xe9 || op == 0x18 || op == 0xcd || op == 0xc9 || op == 0xd9 || op == 0xcb
        || (x == 3 && y < 4 && (z == 2 || z == 4 || z == 0)) || (x == 0 && z == 0 && y >= 3) || (x
        == 3 && z == 7)
}

fn fill_jump(table: &mut [Inst; 256])
    ensures
        forall|op: int|
            0 <= op < 256 ==> #[trigger] final(table)@[op] == (if is_jump(op) {
                decode(op as u8)
            } else {
                old(table)@[op]
            }),
{
    table[0xc3] = Inst::JP(JumpCond::NONE, Op16::Imm);
    table[0xe9] = Inst::JP(JumpCond::NONE, Op16::RegHL);
    let ghost before = table@;
    for i in 0..4
        invariant
            layered(table@, before, 0xc2, 8, i as int),
    {
        let opcode = 0xc2 + i * 8;
        table[opcode] = Inst::JP(condition(i), Op16::Imm);
    }
    table[0x18] = Inst::JR(JumpCond::NONE);
    let ghost before = table@;
    for i in 0..4
        invariant
            layered(table@, before, 0x20, 8, i as int),
    {
        let opcode = 0x20 + i * 8;
        table[opcode] = Inst::JR(condition(i));
    }
    table[0xcd] = Inst::CALL(JumpCond::NONE);
    let ghost before = table@;
    for i in 0..4
        invariant
            layered(table@, before, 0xc4, 8, i as int),
    {
        let opcode = 0xc4 + i * 8;
        table[opcode] = Inst::CALL(condition(i));
    }
    table[0xc9] = Inst::RET(JumpCond::NONE);
    let ghost before = table@;
    for i in 0..4
        invariant
            layered(table@, before, 0xc0, 8, i as int),
    {
        let opcode = 0xc0 + i * 8;
        table[opcode] = Inst::RET(condition(i));
    }
    table[0xd9] = Inst::RETI;
    let ghost before = table@;
    for i in 0..8
        invariant
            layered(table@, before, 0xc7, 8, i as int),
    {
        let opcode = 0xc7 + i * 8;
        table[opcode] = Inst::RST((i * 8) as u16);
    }
    table[0xcb] = Inst::PREFIX;
}

/// Builds the table of the unprefixed opcodes. The eleven bytes without an
/// instruction keep `Inst::UNK`.
pub fn generate_inst_table() -> (table: [Inst; 256])
    ensures
        forall|opcode: u8| table@[opcode as int] == decode(opcode),
{
    let mut table = [Inst::UNK; 256];
    fill_load8(&mut table);
    fill_load16(&mut table);
    // 8-bit arithmetic/logic inst
    fill_arith8(&mut table);
    fill_logic8(&mut table);
    fill_step8(&mut table);
    fill_alu16(&mut table);
    fill_control(&mut table);
    fill_jump(&mut table);
    assert forall|opcode: u8| table@[opcode as int] == decode(opcode) by {
        let op = opcode as int;
        assert(table@[op] == decode(op as u8));
    }
    table
}

} // verus!
