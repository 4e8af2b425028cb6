//! The instruction set: operands, instructions, and the size table.
use vstd::prelude::*;

verus! {

/// Index of the `HIGH` half of the address register pair.
pub const REG_HIGH: u8 = 2;
/// Index of the `LOW` half of the address register pair.
pub const REG_LOW: u8 = 3;
/// Index of the high byte of the program counter.
pub const REG_PC_HIGH: u8 = 4;
/// Index of the low byte of the program counter.
pub const REG_PC_LOW: u8 = 5;
/// Index of the stack pointer.
pub const REG_STACK_PTR: u8 = 6;
/// Index of the flags byte.
pub const REG_FLAGS: u8 = 7;

/// Flag that stops the machine.
pub const FLAG_HALT: u8 = 0;
/// Flag set by `add` on signed overflow.
pub const FLAG_CARRY: u8 = 1;
/// Flag set by `sub` on signed overflow.
pub const FLAG_BORROW: u8 = 2;
/// Reserved overflow flag.
pub const FLAG_OVERFLOW: u8 = 3;
/// Flag set by `cmp` when the register is below the value.
pub const FLAG_LESS: u8 = 4;
/// Flag set by `cmp` when the register equals the value.
pub const FLAG_EQUAL: u8 = 5;

/// An interned name: an index into the symbol table built by the lexer.
pub type Symbol = usize;

/// One of the eight general-purpose registers, by its 3-bit index.
#[derive(Clone, Copy, Debug, PartialEq, Eq, Structural)]
pub struct Register(pub u8);

/// A flag of the flags byte, by its 3-bit index.
#[derive(Clone, Copy, Debug, PartialEq, Eq, Structural)]
pub struct Flag(pub u8);

/// A value operand: a register's contents or a signed 8-bit literal.
#[derive(Clone, Copy, Debug, PartialEq, Eq, Structural)]
pub enum Value {
    Register(Register),
    Literal(i8),
}

/// An address operand: the `HL` pair, a 16-bit literal, or a label to resolve.
#[derive(Clone, Copy, Debug, PartialEq, Eq, Structural)]
pub enum Address {
    HL,
    Literal(u16),
    Label(Symbol),
}

/// A concrete instruction of the flat program. `Label` marks a location and
/// encodes to no bytes.
#[derive(Clone, Copy, Debug, PartialEq, Eq, Structural)]
pub enum Instruction {
    Nop,
    Mov(Register, Value),
    Ldw(Register, Address),
    Stw(Register, Address),
    Lda(Address),
    Psh(Value),
    Pop(Register),
    Jmp(Flag, Address),
    Add(Register, Value),
    Sub(Register, Value),
    And(Register, Value),
    Or(Register, Value),
    Inv(Register),
    Cmp(Register, Value),
    Shl(Register, Value),
    Shr(Register, Value),
    Label(Symbol),
}

impl Register {
    pub open spec fn wf(self) -> bool {
        self.0 < 8
    }
}

impl Flag {
    pub open spec fn wf(self) -> bool {
        self.0 < 8
    }
}

impl Value {
    pub open spec fn wf(self) -> bool {
        match self {
            Value::Register(r) => r.wf(),
            Value::Literal(_) => true,
        }
    }
}

impl Instruction {
    /// Every register and flag field fits its 3 bits.
    pub open spec fn wf(self) -> bool {
        match self {
            Instruction::Mov(r, v) | Instruction::Add(r, v) | Instruction::Sub(r, v)
            | Instruction::And(r, v) | Instruction::Or(r, v) | Instruction::Cmp(r, v)
            | Instruction::Shl(r, v) | Instruction::Shr(r, v) => r.wf() && v.wf(),
            Instruction::Ldw(r, _) | Instruction::Stw(r, _) | Instruction::Pop(r)
            | Instruction::Inv(r) => r.wf(),
            Instruction::Psh(v) => v.wf(),
            Instruction::Jmp(f, _) => f.wf(),
            _ => true,
        }
    }
}

/// Bytes that an address operand adds to its instruction: none for `HL`, two otherwise.
pub open spec fn address_extra(a: Address) -> nat {
    match a {
        Address::HL => 0,
        _ => 2,
    }
}

/// The encoded size of an instruction, as the instruction table gives it.
pub open spec fn size_of(i: Instruction) -> nat {
    match i {
        Instruction::Nop => 1,
        Instruction::Mov(..) | Instruction::Psh(..) | Instruction::Add(..) | Instruction::Sub(..)
        | Instruction::And(..) | Instruction::Or(..) | Instruction::Cmp(..)
        | Instruction::Shl(..) | Instruction::Shr(..) => 2,
        Instruction::Ldw(_, a) | Instruction::Stw(_, a) | Instruction::Lda(a)
        | Instruction::Jmp(_, a) => 1 + address_extra(a),
        Instruction::Pop(..) | Instruction::Inv(..) => 1,
        Instruction::Label(..) => 0,
    }
}

/// The opcode nibble of each mnemonic.
pub open spec fn opcode_of(i: Instruction) -> u8 {
    match i {
        Instruction::Nop => 0x0,
        Instruction::Mov(..) => 0x1,
        Instruction::Ldw(..) => 0x2,
        Instruction::Stw(..) => 0x3,
        Instruction::Lda(..) => 0x4,
        Instruction::Psh(..) => 0x5,
        Instruction::Pop(..) => 0x6,
        Instruction::Jmp(..) => 0x7,
        Instruction::Add(..) => 0x8,
        Instruction::Sub(..) => 0x9,
        Instruction::And(..) => 0xA,
        Instruction::Or(..) => 0xB,
        Instruction::Inv(..) => 0xC,
        Instruction::Cmp(..) => 0xD,
        Instruction::Shl(..) => 0xE,
        Instruction::Shr(..) => 0xF,
        Instruction::Label(..) => 0x0,
    }
}

impl Instruction {
    /// Whether every register and flag field fits its 3 bits.
    pub fn fields_fit(&self) -> (r: bool)
        ensures
            r == self.wf(),
    {
        match self {
            Instruction::Mov(r, v) | Instruction::Add(r, v) | Instruction::Sub(r, v)
            | Instruction::And(r, v) | Instruction::Or(r, v) | Instruction::Cmp(r, v)
            | Instruction::Shl(r, v) | Instruction::Shr(r, v) => r.0 < 8 && match v {
                Value::Register(s) => s.0 < 8,
                Value::Literal(_) => true,
            },
            Instruction::Ldw(r, _) | Instruction::Stw(r, _) | Instruction::Pop(r)
            | Instruction::Inv(r) => r.0 < 8,
            Instruction::Psh(v) => match v {
                Value::Register(s) => s.0 < 8,
                Value::Literal(_) => true,
            },
            Instruction::Jmp(f, _) => f.0 < 8,
            _ => true,
        }
    }

    /// The number of bytes this instruction encodes to.
    pub fn size(&self) -> (r: usize)
        ensures
            r == size_of(*self),
    {
        match self {
            Instruction::Nop => 1,
            Instruction::Mov(..) | Instruction::Psh(..) | Instruction::Add(..)
            | Instruction::Sub(..) | Instruction::And(..) | Instruction::Or(..)
            | Instruction::Cmp(..) | Instruction::Shl(..) | Instruction::Shr(..) => 2,
            Instruction::Ldw(_, a) | Instruction::Stw(_, a) | Instruction::Lda(a)
            | Instruction::Jmp(_, a) => match a {
                Address::HL => 1,
                _ => 3,
            },
            Instruction::Pop(..) | Instruction::Inv(..) => 1,
            Instruction::Label(..) => 0,
        }
    }
}

/// A thing that has an opcode nibble.
pub trait WithCode {
    spec fn spec_code(&self) -> u8;

    /// The opcode nibble, the high four bits of the first word.
    fn code(&self) -> (r: u8)
        ensures
            r == self.spec_code(),
            r < 16,
    ;
}

impl WithCode for Instruction {
    open spec fn spec_code(&self) -> u8 {
        opcode_of(*self)
    }

    fn code(&self) -> (r: u8) {
        match self {
            Instruction::Nop => 0x0,
            Instruction::Mov(..) => 0x1,
            Instruction::Ldw(..) => 0x2,
            Instruction::Stw(..) => 0x3,
            Instruction::Lda(..) => 0x4,
            Instruction::Psh(..) => 0x5,
            Instruction::Pop(..) => 0x6,
            Instruction::Jmp(..) => 0x7,
            Instruction::Add(..) => 0x8,
            Instruction::Sub(..) => 0x9,
            Instruction::And(..) => 0xA,
            Instruction::Or(..) => 0xB,
            Instruction::Inv(..) => 0xC,
            Instruction::Cmp(..) => 0xD,
            Instruction::Shl(..) => 0xE,
            Instruction::Shr(..) => 0xF,
            Instruction::Label(..) => 0x0,
        }
    }
}

} // verus!
