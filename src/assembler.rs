//! The whole assembler: source text to image, and what both halves agree on.
use vstd::prelude::*;
use vstd::string::StringSliceAdditionalSpecFns;
use crate::emulator::{MachineState, advanced, boot, field, fits_i8, flag_of, hl_of, is_reserved, mode,
    op_size, opcode, pair, pc_of, ram_at, run_spec, shifted_left, shifted_right, signed, step_spec,
    with_flag, with_pc, with_ram, with_reg, wrap8};
use crate::encoder::{EncodeError, address_mode, encode_one, encode_spec, lookup, value_mode};
use crate::expander::{DEFAULT_MAX_DEPTH, ExpandError, expand_spec};
use crate::isa::{Address, FLAG_BORROW, FLAG_CARRY, FLAG_EQUAL, FLAG_LESS, Instruction, REG_HIGH, REG_LOW,
    REG_STACK_PTR, Symbol, Value, opcode_of, size_of};
use crate::lexer::{LexError, lex, lex_spec};
use crate::parser::{ParseError, parse_program, parse_program_spec};

verus! {

/// The first error of any stage.
#[derive(Clone, Copy, Debug, PartialEq, Eq, Structural)]
pub enum AssembleError {
    Lex(LexError),
    Parse(ParseError),
    Expand(ExpandError),
    Encode(EncodeError),
}

/// Source bytes to image: lex, parse, expand with the default depth limit, encode.
pub open spec fn assemble_spec(s: Seq<u8>) -> Result<Seq<u8>, AssembleError> {
    match lex_spec(s) {
        Err(e) => Err(AssembleError::Lex(e)),
        Ok((ts, _, _)) => match parse_program_spec(ts, 0) {
            Err(e) => Err(AssembleError::Parse(e)),
            Ok((ms, xs)) => match expand_spec(ms, xs, DEFAULT_MAX_DEPTH as nat) {
                Err(e) => Err(AssembleError::Expand(e)),
                Ok(p) => match encode_spec(p) {
                    Err(e) => Err(AssembleError::Encode(e)),
                    Ok(b) => Ok(b),
                },
            },
        },
    }
}

/// Assembles source text into an image, or reports the first error.
pub fn assemble(source: &str) -> (r: Result<Vec<u8>, AssembleError>)
    ensures
        match assemble_spec(source.spec_bytes()) {
            Ok(b) => r is Ok && r->Ok_0@ == b,
            Err(e) => r is Err && r->Err_0 == e,
        },
{
    let tokens = match lex(source) {
        Err(e) => return Err(AssembleError::Lex(e)),
        Ok(t) => t,
    };
    let program = match parse_program(tokens) {
        Err(e) => return Err(AssembleError::Parse(e)),
        Ok(p) => p,
    };
    let flat = match program.expand(DEFAULT_MAX_DEPTH) {
        Err(e) => return Err(AssembleError::Expand(e)),
        Ok(f) => f,
    };
    match flat.encode() {
        Err(e) => Err(AssembleError::Encode(e)),
        Ok(b) => Ok(b),
    }
}

/// The pipeline is a function of the source alone: equal sources give equal
/// results, and a run of the image from boot gives equal states and step counts.
pub proof fn lemma_pipeline_deterministic(a: Seq<u8>, b: Seq<u8>, fuel: nat)
    requires
        a == b,
    ensures
        assemble_spec(a) == assemble_spec(b),
        assemble_spec(a) is Ok ==> run_spec(boot(assemble_spec(a)->Ok_0), fuel)
            == run_spec(boot(assemble_spec(b)->Ok_0), fuel),
{
}

/// Two images assembled from one source are byte for byte identical.
pub proof fn lemma_assembly_reproducible(s: Seq<u8>, first: Seq<u8>, second: Seq<u8>)
    requires
        assemble_spec(s) == Ok::<Seq<u8>, AssembleError>(first),
        assemble_spec(s) == Ok::<Seq<u8>, AssembleError>(second),
    ensures
        first == second,
{
}

/// The register or flag field that an instruction encodes into its first word.
pub open spec fn field_of(i: Instruction) -> u8 {
    match i {
        Instruction::Mov(r, _) | Instruction::Add(r, _) | Instruction::Sub(r, _)
        | Instruction::And(r, _) | Instruction::Or(r, _) | Instruction::Cmp(r, _)
        | Instruction::Shl(r, _) | Instruction::Shr(r, _) | Instruction::Ldw(r, _)
        | Instruction::Stw(r, _) | Instruction::Pop(r) | Instruction::Inv(r) => r.0,
        Instruction::Jmp(f, _) => f.0,
        _ => 0,
    }
}

/// The immediate-mode bit that an instruction encodes into its first word.
pub open spec fn mode_of(i: Instruction) -> bool {
    match i {
        Instruction::Mov(_, v) | Instruction::Add(_, v) | Instruction::Sub(_, v)
        | Instruction::And(_, v) | Instruction::Or(_, v) | Instruction::Cmp(_, v)
        | Instruction::Shl(_, v) | Instruction::Shr(_, v) | Instruction::Psh(v) => value_mode(v) == 1,
        Instruction::Ldw(_, a) | Instruction::Stw(_, a) | Instruction::Lda(a)
        | Instruction::Jmp(_, a) => address_mode(a) == 1,
        _ => false,
    }
}

/// The emulator decodes the first word of every encoded instruction to the
/// instruction's own opcode, mode bit and field, finds no reserved pattern, and
/// so advances PC by exactly the instruction's size.
pub proof fn lemma_decode_agrees(i: Instruction, t: Seq<(Symbol, usize)>)
    requires
        encode_one(i, t) is Ok,
        !(i is Label),
    ensures
        opcode(encode_one(i, t)->Ok_0[0]) == opcode_of(i),
        mode(encode_one(i, t)->Ok_0[0]) == mode_of(i),
        field(encode_one(i, t)->Ok_0[0]) == field_of(i),
        !is_reserved(encode_one(i, t)->Ok_0[0]),
        op_size(encode_one(i, t)->Ok_0[0]) == size_of(i),
{
    let w = encode_one(i, t)->Ok_0[0];
    let op = opcode_of(i) as int;
    let m: int = if mode_of(i) { 1 } else { 0 };
    let f = field_of(i) as int;
    assert(w as int == op * 16 + m * 8 + f);
    assert(w / 16 == op && (w / 8) % 2 == m && w % 8 == f) by (nonlinear_arith)
        requires
            w as int == op * 16 + m * 8 + f,
            0 <= op < 16,
            0 <= m < 2,
            0 <= f < 8;
}

/// What a value operand denotes in state `n`.
pub open spec fn value_of(n: MachineState, v: Value) -> u8 {
    match v {
        Value::Register(r) => n.regs[r.0 as int],
        Value::Literal(x) => x as u8,
    }
}

/// What an address operand denotes in state `n`, labels taken from the table `t`.
pub open spec fn address_of(n: MachineState, a: Address, t: Seq<(Symbol, usize)>) -> nat {
    match a {
        Address::HL => hl_of(n),
        Address::Literal(k) => k as nat,
        Address::Label(s) => lookup(t, s)->Some_0 as nat,
    }
}

/// The table semantics of an instruction, applied to `n`, the state in which
/// PC already points past it.
pub open spec fn semantics(n: MachineState, i: Instruction, t: Seq<(Symbol, usize)>) -> MachineState {
    match i {
        Instruction::Mov(r, v) => with_reg(n, r.0 as int, value_of(n, v)),
        Instruction::Ldw(r, a) => with_reg(n, r.0 as int, ram_at(n, address_of(n, a, t))),
        Instruction::Stw(r, a) => with_ram(n, address_of(n, a, t), n.regs[r.0 as int]),
        Instruction::Lda(a) => with_reg(
            with_reg(n, REG_HIGH as int, ram_at(n, address_of(n, a, t))),
            REG_LOW as int,
            ram_at(n, address_of(n, a, t) + 1),
        ),
        Instruction::Psh(v) => {
            let sp = n.regs[REG_STACK_PTR as int];
            with_reg(MachineState { stack: n.stack.update(sp as int, value_of(n, v)), ..n }, REG_STACK_PTR as int, wrap8(sp + 1))
        },
        Instruction::Pop(r) => {
            let sp = wrap8(n.regs[REG_STACK_PTR as int] - 1);
            with_reg(with_reg(n, REG_STACK_PTR as int, sp), r.0 as int, n.stack[sp as int])
        },
        Instruction::Jmp(f, a) => if flag_of(n, f.0) { with_pc(n, address_of(n, a, t)) } else { n },
        Instruction::Add(r, v) => {
            let (x, y) = (n.regs[r.0 as int], value_of(n, v));
            with_flag(with_reg(n, r.0 as int, wrap8(x + y)), FLAG_CARRY, !fits_i8(signed(x) + signed(y)))
        },
        Instruction::Sub(r, v) => {
            let (x, y) = (n.regs[r.0 as int], value_of(n, v));
            with_flag(with_reg(n, r.0 as int, wrap8(x - y)), FLAG_BORROW, !fits_i8(signed(x) - signed(y)))
        },
        Instruction::And(r, v) => with_reg(n, r.0 as int, n.regs[r.0 as int] & value_of(n, v)),
        Instruction::Or(r, v) => with_reg(n, r.0 as int, n.regs[r.0 as int] | value_of(n, v)),
        Instruction::Inv(r) => with_reg(n, r.0 as int, !n.regs[r.0 as int]),
        Instruction::Cmp(r, v) => {
            let (x, y) = (n.regs[r.0 as int], value_of(n, v));
            with_flag(with_flag(n, FLAG_LESS, x < y), FLAG_EQUAL, x == y)
        },
        Instruction::Shl(r, v) => with_reg(n, r.0 as int, shifted_left(n.regs[r.0 as int], value_of(n, v))),
        Instruction::Shr(r, v) => with_reg(n, r.0 as int, shifted_right(n.regs[r.0 as int], value_of(n, v))),
        _ => n,
    }
}

/// The bytes `b` stand in RAM from PC on.
pub open spec fn at_pc(s: MachineState, b: Seq<u8>) -> bool {
    forall|j: int| 0 <= j < b.len() ==> ram_at(s, (pc_of(s) + j) as nat) == #[trigger] b[j]
}

/// The emulator executes every encoded instruction as the instruction table says:
/// with the encoding of `i` at PC, one step advances PC past it and then applies
/// the semantics of `i`.
pub proof fn lemma_step_executes(s: MachineState, i: Instruction, t: Seq<(Symbol, usize)>)
    requires
        s.wf(),
        !(i is Label),
        encode_one(i, t) is Ok,
        at_pc(s, encode_one(i, t)->Ok_0),
    ensures
        step_spec(s) == Ok::<MachineState, crate::emulator::EmuError>(semantics(advanced(s), i, t)),
{
    let b = encode_one(i, t)->Ok_0;
    lemma_decode_agrees(i, t);
    let pc = pc_of(s);
    assert(ram_at(s, pc) == b[0]);
    if b.len() >= 2 {
        assert(ram_at(s, (pc + 1) as nat) == b[1]);
    }
    if b.len() >= 3 {
        assert(ram_at(s, (pc + 2) as nat) == b[2]);
    }
    let n = advanced(s);
    assert(n.ram == s.ram);
    match i {
        Instruction::Ldw(_, a) | Instruction::Stw(_, a) | Instruction::Lda(a) | Instruction::Jmp(_, a) => {
            match a {
                Address::HL => {},
                _ => {
                    let k = address_of(n, a, t);
                    assert(k <= 0xFFFF);
                    assert(pair((k / 256) as u8, (k % 256) as u8) == k);
                },
            }
        },
        _ => {},
    }
}

} // verus!
