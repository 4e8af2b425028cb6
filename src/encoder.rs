//! The two-pass encoder: pass 1 sizes the flat program and places its labels,
//! pass 2 emits the bytes with every label reference resolved.
use vstd::prelude::*;
use crate::isa::{Address, Instruction, Symbol, Value, WithCode, size_of, opcode_of};

verus! {

/// The largest image: the whole of RAM.
pub const MAX_IMAGE: usize = 65536;

/// Why a flat program cannot be encoded.
#[derive(Clone, Copy, Debug, PartialEq, Eq, Structural)]
pub enum EncodeError {
    /// A label reference names no label of the program.
    UnknownLabel(Symbol),
    /// Two labels of the program have the same name.
    DuplicateLabel(Symbol),
    /// A referenced label lies at offset 65536, beyond a 16-bit address.
    LabelOutOfRange(Symbol),
    /// The image would not fit in RAM.
    ImageTooLarge,
    /// A register or flag index does not fit its 3 bits.
    FieldOutOfRange,
}

/// A flat program: concrete instructions with `Label` markers; label
/// references are still symbolic.
pub struct RelativeProgram {
    pub instructions: Vec<Instruction>,
}

/// What pass 1 computes: each label with its byte offset, and the image size.
pub struct Layout {
    pub labels: Vec<(Symbol, usize)>,
    pub size: usize,
}

/// Total encoded size of a sequence of instructions.
pub open spec fn program_size(p: Seq<Instruction>) -> nat
    decreases p.len(),
{
    if p.len() == 0 {
        0
    } else {
        program_size(p.drop_last()) + size_of(p.last())
    }
}

/// The offset of the last entry for `s` in a label table.
pub open spec fn lookup(t: Seq<(Symbol, usize)>, s: Symbol) -> Option<usize>
    decreases t.len(),
{
    if t.len() == 0 {
        None
    } else if t.last().0 == s {
        Some(t.last().1)
    } else {
        lookup(t.drop_last(), s)
    }
}

/// Pass 1: the label table of a program, each label at the size of what precedes it.
pub open spec fn layout_spec(p: Seq<Instruction>) -> Result<Seq<(Symbol, usize)>, EncodeError>
    decreases p.len(),
{
    if p.len() == 0 {
        Ok(Seq::empty())
    } else {
        match layout_spec(p.drop_last()) {
            Err(e) => Err(e),
            Ok(t) => if program_size(p) > MAX_IMAGE {
                Err(EncodeError::ImageTooLarge)
            } else {
                match p.last() {
                    Instruction::Label(s) => if lookup(t, s).is_some() {
                        Err(EncodeError::DuplicateLabel(s))
                    } else {
                        Ok(t.push((s, program_size(p.drop_last()) as usize)))
                    },
                    _ => Ok(t),
                }
            },
        }
    }
}

/// The byte of a value operand: the source register's index, or the literal.
pub open spec fn value_byte(v: Value) -> u8 {
    match v {
        Value::Register(r) => r.0,
        Value::Literal(n) => n as u8,
    }
}

/// The immediate-mode bit of a value operand: 1 for a literal.
pub open spec fn value_mode(v: Value) -> nat {
    match v {
        Value::Register(_) => 0,
        Value::Literal(_) => 1,
    }
}

/// The immediate-mode bit of an address operand: 0 for `HL`.
pub open spec fn address_mode(a: Address) -> nat {
    match a {
        Address::HL => 0,
        _ => 1,
    }
}

/// An operand that sets the immediate-mode bit of its instruction.
pub trait WithFlag {
    spec fn spec_mode(&self) -> nat;

    /// The immediate-mode bit in place: 8 when set, 0 when not.
    fn flag(&self) -> (r: u8)
        ensures
            r == self.spec_mode() * 8,
            self.spec_mode() < 2,
    ;
}

impl WithFlag for Value {
    open spec fn spec_mode(&self) -> nat {
        value_mode(*self)
    }

    fn flag(&self) -> (r: u8) {
        match self {
            Value::Register(_) => 0,
            Value::Literal(_) => 8,
        }
    }
}

impl WithFlag for Address {
    open spec fn spec_mode(&self) -> nat {
        address_mode(*self)
    }

    fn flag(&self) -> (r: u8) {
        match self {
            Address::HL => 0,
            _ => 8,
        }
    }
}

/// The two big-endian bytes of a 16-bit offset.
pub open spec fn be16(k: nat) -> Seq<u8> {
    seq![(k / 256) as u8, (k % 256) as u8]
}

/// The bytes that follow the first word for an address operand.
pub open spec fn address_bytes(a: Address, t: Seq<(Symbol, usize)>) -> Result<Seq<u8>, EncodeError> {
    match a {
        Address::HL => Ok(Seq::empty()),
        Address::Literal(k) => Ok(be16(k as nat)),
        Address::Label(s) => match lookup(t, s) {
            None => Err(EncodeError::UnknownLabel(s)),
            Some(k) => if k > 0xFFFF {
                Err(EncodeError::LabelOutOfRange(s))
            } else {
                Ok(be16(k as nat))
            },
        },
    }
}

/// The first word: opcode in the high nibble, mode bit 3, field in the low 3 bits.
pub open spec fn first_word(op: u8, mode: nat, field: u8) -> u8 {
    (op * 16 + mode * 8 + field) as u8
}

/// Pass 2 for one instruction under a label table.
pub open spec fn encode_one(i: Instruction, t: Seq<(Symbol, usize)>) -> Result<Seq<u8>, EncodeError> {
    let op = opcode_of(i);
    if !i.wf() {
        Err(EncodeError::FieldOutOfRange)
    } else {
    match i {
        Instruction::Nop => Ok(seq![0u8]),
        Instruction::Mov(r, v) | Instruction::Add(r, v) | Instruction::Sub(r, v)
        | Instruction::And(r, v) | Instruction::Or(r, v) | Instruction::Cmp(r, v)
        | Instruction::Shl(r, v) | Instruction::Shr(r, v) =>
            Ok(seq![first_word(op, value_mode(v), r.0), value_byte(v)]),
        Instruction::Psh(v) => Ok(seq![first_word(op, value_mode(v), 0), value_byte(v)]),
        Instruction::Ldw(r, a) | Instruction::Stw(r, a) => match address_bytes(a, t) {
            Err(e) => Err(e),
            Ok(b) => Ok(seq![first_word(op, address_mode(a), r.0)] + b),
        },
        Instruction::Lda(a) => match address_bytes(a, t) {
            Err(e) => Err(e),
            Ok(b) => Ok(seq![first_word(op, address_mode(a), 0)] + b),
        },
        Instruction::Jmp(f, a) => match address_bytes(a, t) {
            Err(e) => Err(e),
            Ok(b) => Ok(seq![first_word(op, address_mode(a), f.0)] + b),
        },
        Instruction::Pop(r) | Instruction::Inv(r) => Ok(seq![first_word(op, 0, r.0)]),
        Instruction::Label(_) => Ok(Seq::empty()),
    }
    }
}

/// Pass 2: the concatenated bytes of every instruction, or the first error.
pub open spec fn emit_spec(p: Seq<Instruction>, t: Seq<(Symbol, usize)>) -> Result<Seq<u8>, EncodeError>
    decreases p.len(),
{
    if p.len() == 0 {
        Ok(Seq::empty())
    } else {
        match emit_spec(p.drop_last(), t) {
            Err(e) => Err(e),
            Ok(b) => match encode_one(p.last(), t) {
                Err(e) => Err(e),
                Ok(c) => Ok(b + c),
            },
        }
    }
}

/// Both passes.
pub open spec fn encode_spec(p: Seq<Instruction>) -> Result<Seq<u8>, EncodeError> {
    match layout_spec(p) {
        Err(e) => Err(e),
        Ok(t) => emit_spec(p, t),
    }
}

fn lookup_label(t: &Vec<(Symbol, usize)>, s: Symbol) -> (r: Option<usize>)
    ensures
        r == lookup(t@, s),
{
    let mut j = t.len();
    assert(t@.take(j as int) =~= t@);
    while j > 0
        invariant
            j <= t@.len(),
            lookup(t@, s) == lookup(t@.take(j as int), s),
        decreases j,
    {
        assert(t@.take(j as int).drop_last() =~= t@.take(j - 1));
        if t[j - 1].0 == s {
            return Some(t[j - 1].1);
        }
        j = j - 1;
    }
    None
}

fn address_bytes_exec(a: &Address, t: &Vec<(Symbol, usize)>, out: &mut Vec<u8>) -> (r: Result<(), EncodeError>)
    ensures
        match address_bytes(*a, t@) {
            Ok(b) => r is Ok && final(out)@ == old(out)@ + b,
            Err(e) => r == Err::<(), EncodeError>(e),
        },
{
    match a {
        Address::HL => {
            assert(old(out)@ + Seq::<u8>::empty() =~= old(out)@);
            Ok(())
        },
        Address::Literal(k) => {
            out.push((*k / 256) as u8);
            out.push((*k % 256) as u8);
            assert(final(out)@ =~= old(out)@ + be16(*k as nat));
            Ok(())
        },
        Address::Label(s) => match lookup_label(t, *s) {
            None => Err(EncodeError::UnknownLabel(*s)),
            Some(k) => if k > 0xFFFF {
                Err(EncodeError::LabelOutOfRange(*s))
            } else {
                out.push((k / 256) as u8);
                out.push((k % 256) as u8);
                assert(final(out)@ =~= old(out)@ + be16(k as nat));
                Ok(())
            },
        },
    }
}

fn value_byte_exec(v: &Value) -> (r: u8)
    ensures
        r == value_byte(*v),
{
    match v {
        Value::Register(r) => r.0,
        Value::Literal(n) => *n as u8,
    }
}

fn first_word_exec(op: u8, flag: u8, field: u8) -> (r: u8)
    requires
        op < 16,
        flag == 0 || flag == 8,
        field < 8,
    ensures
        r == first_word(op, (flag / 8) as nat, field),
{
    op * 16 + flag + field
}

/// Pass 2 for one instruction: appends its bytes to `out`.
fn emit_instruction(i: &Instruction, t: &Vec<(Symbol, usize)>, out: &mut Vec<u8>) -> (r: Result<(), EncodeError>)
    ensures
        match encode_one(*i, t@) {
            Ok(b) => r is Ok && final(out)@ == old(out)@ + b,
            Err(e) => r == Err::<(), EncodeError>(e),
        },
{
    if !i.fields_fit() {
        return Err(EncodeError::FieldOutOfRange);
    }
    let op = i.code();
    match i {
        Instruction::Nop => {
            out.push(0);
            assert(final(out)@ =~= old(out)@ + seq![0u8]);
            Ok(())
        },
        Instruction::Mov(r, v) | Instruction::Add(r, v) | Instruction::Sub(r, v)
        | Instruction::And(r, v) | Instruction::Or(r, v) | Instruction::Cmp(r, v)
        | Instruction::Shl(r, v) | Instruction::Shr(r, v) => {
            out.push(first_word_exec(op, v.flag(), r.0));
            out.push(value_byte_exec(v));
            assert(final(out)@ =~= old(out)@ + seq![first_word(op, value_mode(*v), r.0), value_byte(*v)]);
            Ok(())
        },
        Instruction::Psh(v) => {
            out.push(first_word_exec(op, v.flag(), 0));
            out.push(value_byte_exec(v));
            assert(final(out)@ =~= old(out)@ + seq![first_word(op, value_mode(*v), 0), value_byte(*v)]);
            Ok(())
        },
        Instruction::Ldw(r, a) | Instruction::Stw(r, a) => {
            let w = first_word_exec(op, a.flag(), r.0);
            emit_addressed(w, a, t, out)
        },
        Instruction::Lda(a) => {
            let w = first_word_exec(op, a.flag(), 0);
            emit_addressed(w, a, t, out)
        },
        Instruction::Jmp(f, a) => {
            let w = first_word_exec(op, a.flag(), f.0);
            emit_addressed(w, a, t, out)
        },
        Instruction::Pop(r) | Instruction::Inv(r) => {
            out.push(first_word_exec(op, 0, r.0));
            assert(final(out)@ =~= old(out)@ + seq![first_word(op, 0, r.0)]);
            Ok(())
        },
        Instruction::Label(_) => {
            assert(old(out)@ + Seq::<u8>::empty() =~= old(out)@);
            Ok(())
        },
    }
}

/// Appends a first word and the bytes of its address operand.
fn emit_addressed(w: u8, a: &Address, t: &Vec<(Symbol, usize)>, out: &mut Vec<u8>) -> (r: Result<(), EncodeError>)
    ensures
        match address_bytes(*a, t@) {
            Ok(b) => r is Ok && final(out)@ == old(out)@ + seq![w] + b,
            Err(e) => r == Err::<(), EncodeError>(e),
        },
{
    out.push(w);
    let r = address_bytes_exec(a, t, out);
    proof {
        if let Ok(b) = address_bytes(*a, t@) {
            assert(old(out)@.push(w) =~= old(out)@ + seq![w]);
        }
    }
    r
}

impl RelativeProgram {
    /// Pass 1: sizes every instruction and places each label at the number of
    /// bytes before it.
    pub fn layout(&self) -> (r: Result<Layout, EncodeError>)
        ensures
            r is Ok ==> layout_spec(self.instructions@) == Ok::<_, EncodeError>(r->Ok_0.labels@)
                && r->Ok_0.size == program_size(self.instructions@),
            r is Err ==> layout_spec(self.instructions@) == Err::<Seq<(Symbol, usize)>, _>(r->Err_0),
    {
        let p = &self.instructions;
        let mut labels: Vec<(Symbol, usize)> = Vec::new();
        let mut size: usize = 0;
        let mut k: usize = 0;
        while k < p.len()
            invariant
                k <= p@.len(),
                p@ == self.instructions@,
                layout_spec(p@.take(k as int)) == Ok::<_, EncodeError>(labels@),
                size == program_size(p@.take(k as int)),
                size <= MAX_IMAGE,
            decreases p@.len() - k,
        {
            let ghost pre = p@.take(k as int);
            let ghost cur = p@.take(k + 1);
            assert(cur.drop_last() =~= pre);
            let n = p[k].size();
            if n > MAX_IMAGE - size {
                assert(program_size(cur) == size + n);
                assert(layout_spec(cur) == Err::<Seq<(Symbol, usize)>, _>(EncodeError::ImageTooLarge));
                proof { lemma_layout_error_persists(p@, k as int + 1); }
                assert(p@.take(p@.len() as int) =~= p@);
                return Err(EncodeError::ImageTooLarge);
            }
            match p[k] {
                Instruction::Label(s) => {
                    if lookup_label(&labels, s).is_some() {
                        assert(program_size(cur) == size + n);
                        assert(layout_spec(cur) == Err::<Seq<(Symbol, usize)>, _>(EncodeError::DuplicateLabel(s)));
                        proof { lemma_layout_error_persists(p@, k as int + 1); }
                        assert(p@.take(p@.len() as int) =~= p@);
                        return Err(EncodeError::DuplicateLabel(s));
                    }
                    labels.push((s, size));
                },
                _ => {},
            }
            size = size + n;
            k = k + 1;
        }
        assert(p@.take(p@.len() as int) =~= p@);
        Ok(Layout { labels, size })
    }

    /// Pass 2: the bytes of every instruction, label references replaced by
    /// their offsets in `labels`.
    pub fn emit(&self, labels: &Vec<(Symbol, usize)>) -> (r: Result<Vec<u8>, EncodeError>)
        ensures
            match r {
                Ok(b) => emit_spec(self.instructions@, labels@) == Ok::<_, EncodeError>(b@),
                Err(e) => emit_spec(self.instructions@, labels@) == Err::<Seq<u8>, _>(e),
            },
    {
        let p = &self.instructions;
        let mut out: Vec<u8> = Vec::new();
        let mut k: usize = 0;
        while k < p.len()
            invariant
                k <= p@.len(),
                p@ == self.instructions@,
                emit_spec(p@.take(k as int), labels@) == Ok::<_, EncodeError>(out@),
            decreases p@.len() - k,
        {
            assert(p@.take(k + 1).drop_last() =~= p@.take(k as int));
            match emit_instruction(&p[k], labels, &mut out) {
                Err(e) => {
                    assert(emit_spec(p@.take(k + 1), labels@) == Err::<Seq<u8>, _>(e));
                    proof { lemma_emit_error_persists(p@, labels@, k as int + 1); }
                    assert(p@.take(p@.len() as int) =~= p@);
                    return Err(e);
                },
                Ok(()) => {},
            }
            k = k + 1;
        }
        assert(p@.take(p@.len() as int) =~= p@);
        Ok(out)
    }

    /// Both passes: the image of the program.
    pub fn encode(&self) -> (r: Result<Vec<u8>, EncodeError>)
        ensures
            match r {
                Ok(b) => encode_spec(self.instructions@) == Ok::<_, EncodeError>(b@),
                Err(e) => encode_spec(self.instructions@) == Err::<Seq<u8>, _>(e),
            },
    {
        let l = self.layout()?;
        self.emit(&l.labels)
    }
}

/// Once pass 1 fails on a prefix, it fails the same way on the whole program.
proof fn lemma_layout_error_persists(p: Seq<Instruction>, k: int)
    requires
        0 <= k <= p.len(),
        layout_spec(p.take(k)).is_err(),
    ensures
        layout_spec(p) == layout_spec(p.take(k)),
    decreases p.len() - k,
{
    if k < p.len() {
        assert(p.take(k + 1).drop_last() =~= p.take(k));
        lemma_layout_error_persists(p, k + 1);
    } else {
        assert(p.take(k) =~= p);
    }
}

/// Once pass 2 fails on a prefix, it fails the same way on the whole program.
proof fn lemma_emit_error_persists(p: Seq<Instruction>, t: Seq<(Symbol, usize)>, k: int)
    requires
        0 <= k <= p.len(),
        emit_spec(p.take(k), t).is_err(),
    ensures
        emit_spec(p, t) == emit_spec(p.take(k), t),
    decreases p.len() - k,
{
    if k < p.len() {
        assert(p.take(k + 1).drop_last() =~= p.take(k));
        lemma_emit_error_persists(p, t, k + 1);
    } else {
        assert(p.take(k) =~= p);
    }
}

/// The address operand of an instruction, if it has one.
pub open spec fn address_operand(i: Instruction) -> Option<Address> {
    match i {
        Instruction::Ldw(_, a) | Instruction::Stw(_, a) | Instruction::Lda(a)
        | Instruction::Jmp(_, a) => Some(a),
        _ => None,
    }
}

/// Every instruction encodes to exactly as many bytes as the size table gives it.
pub proof fn lemma_encoded_length(i: Instruction, t: Seq<(Symbol, usize)>)
    requires
        encode_one(i, t) is Ok,
    ensures
        encode_one(i, t)->Ok_0.len() == size_of(i),
{
}

/// Pass 2 emits exactly as many bytes as pass 1 counted.
pub proof fn lemma_emit_length(p: Seq<Instruction>, t: Seq<(Symbol, usize)>)
    requires
        emit_spec(p, t) is Ok,
    ensures
        emit_spec(p, t)->Ok_0.len() == program_size(p),
    decreases p.len(),
{
    if p.len() > 0 {
        lemma_emit_length(p.drop_last(), t);
        lemma_encoded_length(p.last(), t);
    }
}

/// The size that pass 1 reports is the length of the image.
pub proof fn lemma_image_size(p: Seq<Instruction>)
    requires
        encode_spec(p) is Ok,
    ensures
        encode_spec(p)->Ok_0.len() == program_size(p),
{
    lemma_emit_length(p, layout_spec(p)->Ok_0);
}

/// Pass 1 places the label defined at index `j` at the size of the instructions before it.
proof fn lemma_layout_finds(p: Seq<Instruction>, j: int, n: Symbol)
    requires
        layout_spec(p) is Ok,
        0 <= j < p.len(),
        p[j] == Instruction::Label(n),
    ensures
        lookup(layout_spec(p)->Ok_0, n) == Some(program_size(p.take(j)) as usize),
        program_size(p.take(j)) <= MAX_IMAGE,
    decreases p.len(),
{
    let q = p.drop_last();
    if j == p.len() - 1 {
        assert(p.take(j) =~= q);
    } else {
        assert(q.take(j) =~= p.take(j));
        assert(q[j] == p[j]);
        lemma_layout_finds(q, j, n);
        let t = layout_spec(q)->Ok_0;
        if let Instruction::Label(s) = p.last() {
            let t2 = t.push((s, program_size(q) as usize));
            assert(layout_spec(p)->Ok_0 == t2);
            assert(t2.drop_last() =~= t);
        }
    }
}

/// The bytes of the instruction at index `k` follow the bytes of those before it.
proof fn lemma_emit_prefix(p: Seq<Instruction>, t: Seq<(Symbol, usize)>, k: int)
    requires
        emit_spec(p, t) is Ok,
        0 <= k < p.len(),
    ensures
        emit_spec(p.take(k), t) is Ok,
        encode_one(p[k], t) is Ok,
        emit_spec(p.take(k), t)->Ok_0.len() + encode_one(p[k], t)->Ok_0.len() <= emit_spec(p, t)->Ok_0.len(),
        emit_spec(p, t)->Ok_0.subrange(
            0,
            (emit_spec(p.take(k), t)->Ok_0.len() + encode_one(p[k], t)->Ok_0.len()) as int,
        ) == emit_spec(p.take(k), t)->Ok_0 + encode_one(p[k], t)->Ok_0,
    decreases p.len(),
{
    let q = p.drop_last();
    if k == p.len() - 1 {
        assert(p.take(k) =~= q);
        let b = emit_spec(p, t)->Ok_0;
        assert(b.subrange(0, b.len() as int) =~= b);
    } else {
        assert(q.take(k) =~= p.take(k));
        assert(q[k] == p[k]);
        lemma_emit_prefix(q, t, k);
        let b0 = emit_spec(p.take(k), t)->Ok_0;
        let c = encode_one(p[k], t)->Ok_0;
        let bq = emit_spec(q, t)->Ok_0;
        let b = emit_spec(p, t)->Ok_0;
        assert(b.subrange(0, (b0.len() + c.len()) as int) =~= bq.subrange(0, (b0.len() + c.len()) as int));
    }
}

/// A reference to label `n` encodes to the big-endian offset `k` at which `LABEL(n)`
/// stands: first `k / 256` (that is `k >> 8`), then `k % 256` (that is `k & 0xFF`).
pub proof fn lemma_label_reference(p: Seq<Instruction>, j: int, k: int, n: Symbol)
    requires
        encode_spec(p) is Ok,
        0 <= j < p.len(),
        0 <= k < p.len(),
        p[j] == Instruction::Label(n),
        address_operand(p[k]) == Some(Address::Label(n)),
    ensures
        encode_spec(p)->Ok_0[program_size(p.take(k)) as int + 1] == (program_size(p.take(j)) / 256) as u8,
        encode_spec(p)->Ok_0[program_size(p.take(k)) as int + 2] == (program_size(p.take(j)) % 256) as u8,
{
    let t = layout_spec(p)->Ok_0;
    lemma_layout_finds(p, j, n);
    lemma_emit_prefix(p, t, k);
    lemma_emit_length(p.take(k), t);
    let b = emit_spec(p, t)->Ok_0;
    let b0 = emit_spec(p.take(k), t)->Ok_0;
    let c = encode_one(p[k], t)->Ok_0;
    let off = program_size(p.take(k)) as int;
    let target = program_size(p.take(j));
    assert(c == seq![c[0]] + be16(target));
    assert(c.len() == 3);
    assert(b[off + 1] == b.subrange(0, (b0.len() + c.len()) as int)[off + 1]);
    assert(b[off + 2] == b.subrange(0, (b0.len() + c.len()) as int)[off + 2]);
    assert((b0 + c)[off + 1] == c[1]);
    assert((b0 + c)[off + 2] == c[2]);
}

} // verus!
