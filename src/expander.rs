//! Macro expansion: a macro-aware program to a flat list of instructions.
use vstd::prelude::*;
use crate::isa::{Address, Flag, Instruction, Register, Symbol, Value};
use crate::lexer::Mnemonic;
use crate::macros::{ExpandableInstruction, ExpandableProgram, Macro, MacroArgument, MacroArgumentType,
    MacroInstruction, MacroItem, MacroModel, Parameter, Slot, items_view, macros_view};
use crate::encoder::RelativeProgram;

verus! {

/// How deep macro calls may nest unless the caller says otherwise.
pub const DEFAULT_MAX_DEPTH: usize = 256;

#[derive(Clone, Copy, Debug, PartialEq, Eq, Structural)]
pub enum ExpandError {
    /// A call names no macro of the program.
    UndefinedMacro(Symbol),
    /// Two macros of the program have the same name.
    DuplicateMacro(Symbol),
    /// A call passes another number of arguments than its macro declares.
    ArityMismatch { name: Symbol, expected: usize, found: usize },
    /// An argument, or a bound parameter, of another type than its place asks for.
    WrongArgumentType { expected: MacroArgumentType, found: MacroArgumentType },
    /// A `$name` that names no parameter of the enclosing macro.
    UnknownArgument(Symbol),
    /// Calls nest deeper than the depth limit.
    DepthExceeded,
}

/// The first index at or after `k` of a macro named `name`.
pub open spec fn find_macro(ms: Seq<MacroModel>, name: Symbol, k: int) -> Option<int>
    decreases ms.len() - k,
{
    if k < 0 || k >= ms.len() {
        None
    } else if ms[k].name == name {
        Some(k)
    } else {
        find_macro(ms, name, k + 1)
    }
}

/// The name of the first macro, from index `k` on, that a later macro repeats.
pub open spec fn first_duplicate(ms: Seq<MacroModel>, k: int) -> Option<Symbol>
    decreases ms.len() - k,
{
    if k < 0 || k >= ms.len() {
        None
    } else if find_macro(ms, ms[k].name, k + 1) is Some {
        Some(ms[k].name)
    } else {
        first_duplicate(ms, k + 1)
    }
}

/// The first index at or after `k` of a parameter named `name`.
pub open spec fn parameter_index(ps: Seq<Parameter>, name: Symbol, k: int) -> Option<int>
    decreases ps.len() - k,
{
    if k < 0 || k >= ps.len() {
        None
    } else if ps[k].name == name {
        Some(k)
    } else {
        parameter_index(ps, name, k + 1)
    }
}

/// What a parameter is bound to.
pub open spec fn lookup(ps: Seq<Parameter>, vs: Seq<MacroArgument>, name: Symbol) -> Result<MacroArgument, ExpandError> {
    match parameter_index(ps, name, 0) {
        Some(k) => if k < vs.len() { Ok(vs[k]) } else { Err(ExpandError::UnknownArgument(name)) },
        None => Err(ExpandError::UnknownArgument(name)),
    }
}

pub open spec fn wrong(expected: MacroArgumentType, a: MacroArgument) -> ExpandError {
    ExpandError::WrongArgumentType { expected, found: a.spec_macro_type() }
}

pub open spec fn subst_register(x: Slot<Register>, ps: Seq<Parameter>, vs: Seq<MacroArgument>) -> Result<Register, ExpandError> {
    match x {
        Slot::Literal(r) => Ok(r),
        Slot::Param(p) => match lookup(ps, vs, p) {
            Err(e) => Err(e),
            Ok(MacroArgument::Register(r)) => Ok(r),
            Ok(a) => Err(wrong(MacroArgumentType::Register, a)),
        },
    }
}

pub open spec fn subst_value(x: Slot<Value>, ps: Seq<Parameter>, vs: Seq<MacroArgument>) -> Result<Value, ExpandError> {
    match x {
        Slot::Literal(v) => Ok(v),
        Slot::Param(p) => match lookup(ps, vs, p) {
            Err(e) => Err(e),
            Ok(MacroArgument::Value(v)) => Ok(v),
            Ok(a) => Err(wrong(MacroArgumentType::Value, a)),
        },
    }
}

pub open spec fn subst_address(x: Slot<Address>, ps: Seq<Parameter>, vs: Seq<MacroArgument>) -> Result<Address, ExpandError> {
    match x {
        Slot::Literal(v) => Ok(v),
        Slot::Param(p) => match lookup(ps, vs, p) {
            Err(e) => Err(e),
            Ok(MacroArgument::Address(v)) => Ok(v),
            Ok(a) => Err(wrong(MacroArgumentType::Address, a)),
        },
    }
}

pub open spec fn subst_flag(x: Slot<Flag>, ps: Seq<Parameter>, vs: Seq<MacroArgument>) -> Result<Flag, ExpandError> {
    match x {
        Slot::Literal(v) => Ok(v),
        Slot::Param(p) => match lookup(ps, vs, p) {
            Err(e) => Err(e),
            Ok(MacroArgument::Flag(v)) => Ok(v),
            Ok(a) => Err(wrong(MacroArgumentType::Flag, a)),
        },
    }
}

/// The concrete instruction of a mnemonic that takes a register and a value.
pub open spec fn reg_val(m: Mnemonic, r: Register, v: Value) -> Instruction {
    match m {
        Mnemonic::Mov => Instruction::Mov(r, v),
        Mnemonic::Add => Instruction::Add(r, v),
        Mnemonic::Sub => Instruction::Sub(r, v),
        Mnemonic::And => Instruction::And(r, v),
        Mnemonic::Or => Instruction::Or(r, v),
        Mnemonic::Cmp => Instruction::Cmp(r, v),
        Mnemonic::Shl => Instruction::Shl(r, v),
        _ => Instruction::Shr(r, v),
    }
}

/// An instruction with every parameter reference replaced by its binding.
pub open spec fn subst_instruction(x: ExpandableInstruction, ps: Seq<Parameter>, vs: Seq<MacroArgument>) -> Result<Instruction, ExpandError> {
    match x {
        ExpandableInstruction::Nop => Ok(Instruction::Nop),
        ExpandableInstruction::RegVal(m, r, v) => match subst_register(r, ps, vs) {
            Err(e) => Err(e),
            Ok(r) => match subst_value(v, ps, vs) {
                Err(e) => Err(e),
                Ok(v) => Ok(reg_val(m, r, v)),
            },
        },
        ExpandableInstruction::RegAddr(m, r, a) => match subst_register(r, ps, vs) {
            Err(e) => Err(e),
            Ok(r) => match subst_address(a, ps, vs) {
                Err(e) => Err(e),
                Ok(a) => Ok(if m == Mnemonic::Stw { Instruction::Stw(r, a) } else { Instruction::Ldw(r, a) }),
            },
        },
        ExpandableInstruction::Lda(a) => match subst_address(a, ps, vs) {
            Err(e) => Err(e),
            Ok(a) => Ok(Instruction::Lda(a)),
        },
        ExpandableInstruction::Psh(v) => match subst_value(v, ps, vs) {
            Err(e) => Err(e),
            Ok(v) => Ok(Instruction::Psh(v)),
        },
        ExpandableInstruction::Reg(m, r) => match subst_register(r, ps, vs) {
            Err(e) => Err(e),
            Ok(r) => Ok(if m == Mnemonic::Inv { Instruction::Inv(r) } else { Instruction::Pop(r) }),
        },
        ExpandableInstruction::Jmp(f, a) => match subst_flag(f, ps, vs) {
            Err(e) => Err(e),
            Ok(f) => match subst_address(a, ps, vs) {
                Err(e) => Err(e),
                Ok(a) => Ok(Instruction::Jmp(f, a)),
            },
        },
    }
}

/// A concrete instruction written back with literal operands only.
pub open spec fn literal_of(i: Instruction) -> ExpandableInstruction {
    match i {
        Instruction::Mov(r, v) => ExpandableInstruction::RegVal(Mnemonic::Mov, Slot::Literal(r), Slot::Literal(v)),
        Instruction::Add(r, v) => ExpandableInstruction::RegVal(Mnemonic::Add, Slot::Literal(r), Slot::Literal(v)),
        Instruction::Sub(r, v) => ExpandableInstruction::RegVal(Mnemonic::Sub, Slot::Literal(r), Slot::Literal(v)),
        Instruction::And(r, v) => ExpandableInstruction::RegVal(Mnemonic::And, Slot::Literal(r), Slot::Literal(v)),
        Instruction::Or(r, v) => ExpandableInstruction::RegVal(Mnemonic::Or, Slot::Literal(r), Slot::Literal(v)),
        Instruction::Cmp(r, v) => ExpandableInstruction::RegVal(Mnemonic::Cmp, Slot::Literal(r), Slot::Literal(v)),
        Instruction::Shl(r, v) => ExpandableInstruction::RegVal(Mnemonic::Shl, Slot::Literal(r), Slot::Literal(v)),
        Instruction::Shr(r, v) => ExpandableInstruction::RegVal(Mnemonic::Shr, Slot::Literal(r), Slot::Literal(v)),
        Instruction::Ldw(r, a) => ExpandableInstruction::RegAddr(Mnemonic::Ldw, Slot::Literal(r), Slot::Literal(a)),
        Instruction::Stw(r, a) => ExpandableInstruction::RegAddr(Mnemonic::Stw, Slot::Literal(r), Slot::Literal(a)),
        Instruction::Lda(a) => ExpandableInstruction::Lda(Slot::Literal(a)),
        Instruction::Psh(v) => ExpandableInstruction::Psh(Slot::Literal(v)),
        Instruction::Pop(r) => ExpandableInstruction::Reg(Mnemonic::Pop, Slot::Literal(r)),
        Instruction::Inv(r) => ExpandableInstruction::Reg(Mnemonic::Inv, Slot::Literal(r)),
        Instruction::Jmp(f, a) => ExpandableInstruction::Jmp(Slot::Literal(f), Slot::Literal(a)),
        _ => ExpandableInstruction::Nop,
    }
}

/// An argument of a call, with the caller's parameters resolved.
pub open spec fn resolve_argument(a: Slot<MacroArgument>, ps: Seq<Parameter>, vs: Seq<MacroArgument>) -> Result<MacroArgument, ExpandError> {
    match a {
        Slot::Param(p) => lookup(ps, vs, p),
        Slot::Literal(MacroArgument::Instruction(x)) => match subst_instruction(x, ps, vs) {
            Err(e) => Err(e),
            Ok(i) => Ok(MacroArgument::Instruction(literal_of(i))),
        },
        Slot::Literal(a) => Ok(a),
    }
}

/// Every argument of a call resolved, or the first error.
pub open spec fn resolve_arguments(args: Seq<Slot<MacroArgument>>, ps: Seq<Parameter>, vs: Seq<MacroArgument>) -> Result<Seq<MacroArgument>, ExpandError>
    decreases args.len(),
{
    if args.len() == 0 {
        Ok(Seq::empty())
    } else {
        match resolve_arguments(args.drop_last(), ps, vs) {
            Err(e) => Err(e),
            Ok(done) => match resolve_argument(args.last(), ps, vs) {
                Err(e) => Err(e),
                Ok(a) => Ok(done.push(a)),
            },
        }
    }
}

/// The first argument whose type is not that of its parameter.
pub open spec fn check_types(ps: Seq<Parameter>, vs: Seq<MacroArgument>, k: int) -> Result<(), ExpandError>
    decreases ps.len() - k,
{
    if k < 0 || k >= ps.len() || k >= vs.len() {
        Ok(())
    } else if vs[k].spec_macro_type() != ps[k].kind {
        Err(ExpandError::WrongArgumentType { expected: ps[k].kind, found: vs[k].spec_macro_type() })
    } else {
        check_types(ps, vs, k + 1)
    }
}

/// The macro that a call names and the values its parameters are bound to.
pub open spec fn bind_call(
    ms: Seq<MacroModel>,
    name: Symbol,
    args: Seq<Slot<MacroArgument>>,
    ps: Seq<Parameter>,
    vs: Seq<MacroArgument>,
) -> Result<(int, Seq<MacroArgument>), ExpandError> {
    match find_macro(ms, name, 0) {
        None => Err(ExpandError::UndefinedMacro(name)),
        Some(k) => if args.len() != ms[k].parameters.len() {
            Err(ExpandError::ArityMismatch { name, expected: ms[k].parameters.len() as usize, found: args.len() as usize })
        } else {
            match resolve_arguments(args, ps, vs) {
                Err(e) => Err(e),
                Ok(values) => match check_types(ms[k].parameters, values, 0) {
                    Err(e) => Err(e),
                    Ok(()) => Ok((k, values)),
                },
            }
        },
    }
}

/// The items expanded in order under the bindings `ps`/`vs`; a call may nest at
/// most `fuel` deep.
pub open spec fn expand_items(
    ms: Seq<MacroModel>,
    items: Seq<MacroItem>,
    ps: Seq<Parameter>,
    vs: Seq<MacroArgument>,
    fuel: nat,
) -> Result<Seq<Instruction>, ExpandError>
    decreases fuel, items.len(),
{
    if items.len() == 0 {
        Ok(Seq::empty())
    } else {
        match expand_items(ms, items.drop_last(), ps, vs, fuel) {
            Err(e) => Err(e),
            Ok(done) => match items.last() {
                MacroItem::Instruction(x) => match subst_instruction(x, ps, vs) {
                    Err(e) => Err(e),
                    Ok(i) => Ok(done.push(i)),
                },
                MacroItem::Label(s) => Ok(done.push(Instruction::Label(s))),
                MacroItem::Argument(p) => match lookup(ps, vs, p) {
                    Err(e) => Err(e),
                    Ok(MacroArgument::Instruction(x)) => match subst_instruction(x, ps, vs) {
                        Err(e) => Err(e),
                        Ok(i) => Ok(done.push(i)),
                    },
                    Ok(a) => Err(wrong(MacroArgumentType::Instruction, a)),
                },
                MacroItem::Call(name, args) => if fuel == 0 {
                    Err(ExpandError::DepthExceeded)
                } else {
                    match bind_call(ms, name, args, ps, vs) {
                        Err(e) => Err(e),
                        Ok((k, values)) => match expand_items(ms, ms[k].body, ms[k].parameters, values, (fuel - 1) as nat) {
                            Err(e) => Err(e),
                            Ok(body) => Ok(done + body),
                        },
                    }
                },
            },
        }
    }
}

/// The flat program: duplicate macro names are refused, then the items expand
/// with no bindings.
pub open spec fn expand_spec(ms: Seq<MacroModel>, items: Seq<MacroItem>, max_depth: nat) -> Result<Seq<Instruction>, ExpandError> {
    match first_duplicate(ms, 0) {
        Some(n) => Err(ExpandError::DuplicateMacro(n)),
        None => expand_items(ms, items, Seq::empty(), Seq::empty(), max_depth),
    }
}

fn find_macro_exec(ms: &Vec<Macro>, name: Symbol, from: usize) -> (r: Option<usize>)
    ensures
        match find_macro(macros_view(ms@), name, from as int) {
            Some(k) => r is Some && r->Some_0 as int == k && from <= k < ms@.len(),
            None => r is None,
        },
{
    let ghost mv = macros_view(ms@);
    let mut k = from;
    while k < ms.len()
        invariant
            mv == macros_view(ms@),
            from <= k,
            find_macro(mv, name, from as int) == find_macro(mv, name, k as int),
        decreases ms@.len() - k,
    {
        if ms[k].name == name {
            return Some(k);
        }
        k = k + 1;
    }
    None
}

fn first_duplicate_exec(ms: &Vec<Macro>) -> (r: Option<Symbol>)
    ensures
        r == first_duplicate(macros_view(ms@), 0),
{
    let ghost mv = macros_view(ms@);
    let mut k: usize = 0;
    while k < ms.len()
        invariant
            mv == macros_view(ms@),
            first_duplicate(mv, 0) == first_duplicate(mv, k as int),
        decreases ms@.len() - k,
    {
        if find_macro_exec(ms, ms[k].name, k + 1).is_some() {
            return Some(ms[k].name);
        }
        k = k + 1;
    }
    None
}

/// The index of the parameter named `name`.
pub fn argument_index(ps: &Vec<Parameter>, name: Symbol) -> (r: Option<usize>)
    ensures
        match parameter_index(ps@, name, 0) {
            Some(k) => r is Some && r->Some_0 as int == k && 0 <= k < ps@.len(),
            None => r is None,
        },
{
    let mut k: usize = 0;
    while k < ps.len()
        invariant
            parameter_index(ps@, name, 0) == parameter_index(ps@, name, k as int),
        decreases ps@.len() - k,
    {
        if ps[k].name == name {
            return Some(k);
        }
        k = k + 1;
    }
    None
}

fn lookup_exec(ps: &Vec<Parameter>, vs: &Vec<MacroArgument>, name: Symbol) -> (r: Result<MacroArgument, ExpandError>)
    ensures
        r == lookup(ps@, vs@, name),
{
    match argument_index(ps, name) {
        Some(k) => if k < vs.len() {
            assert(parameter_index(ps@, name, 0) == Some(k as int));
            Ok(vs[k])
        } else {
            Err(ExpandError::UnknownArgument(name))
        },
        None => Err(ExpandError::UnknownArgument(name)),
    }
}

fn subst_register_exec(x: Slot<Register>, ps: &Vec<Parameter>, vs: &Vec<MacroArgument>) -> (r: Result<Register, ExpandError>)
    ensures
        r == subst_register(x, ps@, vs@),
{
    match x {
        Slot::Literal(r) => Ok(r),
        Slot::Param(p) => match lookup_exec(ps, vs, p)? {
            MacroArgument::Register(r) => Ok(r),
            a => Err(ExpandError::WrongArgumentType { expected: MacroArgumentType::Register, found: a.macro_type() }),
        },
    }
}

fn subst_value_exec(x: Slot<Value>, ps: &Vec<Parameter>, vs: &Vec<MacroArgument>) -> (r: Result<Value, ExpandError>)
    ensures
        r == subst_value(x, ps@, vs@),
{
    match x {
        Slot::Literal(v) => Ok(v),
        Slot::Param(p) => match lookup_exec(ps, vs, p)? {
            MacroArgument::Value(v) => Ok(v),
            a => Err(ExpandError::WrongArgumentType { expected: MacroArgumentType::Value, found: a.macro_type() }),
        },
    }
}

fn subst_address_exec(x: Slot<Address>, ps: &Vec<Parameter>, vs: &Vec<MacroArgument>) -> (r: Result<Address, ExpandError>)
    ensures
        r == subst_address(x, ps@, vs@),
{
    match x {
        Slot::Literal(v) => Ok(v),
        Slot::Param(p) => match lookup_exec(ps, vs, p)? {
            MacroArgument::Address(v) => Ok(v),
            a => Err(ExpandError::WrongArgumentType { expected: MacroArgumentType::Address, found: a.macro_type() }),
        },
    }
}

fn subst_flag_exec(x: Slot<Flag>, ps: &Vec<Parameter>, vs: &Vec<MacroArgument>) -> (r: Result<Flag, ExpandError>)
    ensures
        r == subst_flag(x, ps@, vs@),
{
    match x {
        Slot::Literal(v) => Ok(v),
        Slot::Param(p) => match lookup_exec(ps, vs, p)? {
            MacroArgument::Flag(v) => Ok(v),
            a => Err(ExpandError::WrongArgumentType { expected: MacroArgumentType::Flag, found: a.macro_type() }),
        },
    }
}

fn reg_val_exec(m: Mnemonic, r: Register, v: Value) -> (i: Instruction)
    ensures
        i == reg_val(m, r, v),
{
    match m {
        Mnemonic::Mov => Instruction::Mov(r, v),
        Mnemonic::Add => Instruction::Add(r, v),
        Mnemonic::Sub => Instruction::Sub(r, v),
        Mnemonic::And => Instruction::And(r, v),
        Mnemonic::Or => Instruction::Or(r, v),
        Mnemonic::Cmp => Instruction::Cmp(r, v),
        Mnemonic::Shl => Instruction::Shl(r, v),
        _ => Instruction::Shr(r, v),
    }
}

/// Replaces every parameter reference of `x` by its binding.
pub fn substitute(x: ExpandableInstruction, ps: &Vec<Parameter>, vs: &Vec<MacroArgument>) -> (r: Result<Instruction, ExpandError>)
    ensures
        r == subst_instruction(x, ps@, vs@),
{
    match x {
        ExpandableInstruction::Nop => Ok(Instruction::Nop),
        ExpandableInstruction::RegVal(m, r, v) => {
            let r = subst_register_exec(r, ps, vs)?;
            let v = subst_value_exec(v, ps, vs)?;
            Ok(reg_val_exec(m, r, v))
        },
        ExpandableInstruction::RegAddr(m, r, a) => {
            let r = subst_register_exec(r, ps, vs)?;
            let a = subst_address_exec(a, ps, vs)?;
            Ok(match m {
                Mnemonic::Stw => Instruction::Stw(r, a),
                _ => Instruction::Ldw(r, a),
            })
        },
        ExpandableInstruction::Lda(a) => Ok(Instruction::Lda(subst_address_exec(a, ps, vs)?)),
        ExpandableInstruction::Psh(v) => Ok(Instruction::Psh(subst_value_exec(v, ps, vs)?)),
        ExpandableInstruction::Reg(m, r) => {
            let r = subst_register_exec(r, ps, vs)?;
            Ok(match m {
                Mnemonic::Inv => Instruction::Inv(r),
                _ => Instruction::Pop(r),
            })
        },
        ExpandableInstruction::Jmp(f, a) => {
            let f = subst_flag_exec(f, ps, vs)?;
            let a = subst_address_exec(a, ps, vs)?;
            Ok(Instruction::Jmp(f, a))
        },
    }
}

fn literal_of_exec(i: Instruction) -> (r: ExpandableInstruction)
    ensures
        r == literal_of(i),
{
    match i {
        Instruction::Mov(r, v) => ExpandableInstruction::RegVal(Mnemonic::Mov, Slot::Literal(r), Slot::Literal(v)),
        Instruction::Add(r, v) => ExpandableInstruction::RegVal(Mnemonic::Add, Slot::Literal(r), Slot::Literal(v)),
        Instruction::Sub(r, v) => ExpandableInstruction::RegVal(Mnemonic::Sub, Slot::Literal(r), Slot::Literal(v)),
        Instruction::And(r, v) => ExpandableInstruction::RegVal(Mnemonic::And, Slot::Literal(r), Slot::Literal(v)),
        Instruction::Or(r, v) => ExpandableInstruction::RegVal(Mnemonic::Or, Slot::Literal(r), Slot::Literal(v)),
        Instruction::Cmp(r, v) => ExpandableInstruction::RegVal(Mnemonic::Cmp, Slot::Literal(r), Slot::Literal(v)),
        Instruction::Shl(r, v) => ExpandableInstruction::RegVal(Mnemonic::Shl, Slot::Literal(r), Slot::Literal(v)),
        Instruction::Shr(r, v) => ExpandableInstruction::RegVal(Mnemonic::Shr, Slot::Literal(r), Slot::Literal(v)),
        Instruction::Ldw(r, a) => ExpandableInstruction::RegAddr(Mnemonic::Ldw, Slot::Literal(r), Slot::Literal(a)),
        Instruction::Stw(r, a) => ExpandableInstruction::RegAddr(Mnemonic::Stw, Slot::Literal(r), Slot::Literal(a)),
        Instruction::Lda(a) => ExpandableInstruction::Lda(Slot::Literal(a)),
        Instruction::Psh(v) => ExpandableInstruction::Psh(Slot::Literal(v)),
        Instruction::Pop(r) => ExpandableInstruction::Reg(Mnemonic::Pop, Slot::Literal(r)),
        Instruction::Inv(r) => ExpandableInstruction::Reg(Mnemonic::Inv, Slot::Literal(r)),
        Instruction::Jmp(f, a) => ExpandableInstruction::Jmp(Slot::Literal(f), Slot::Literal(a)),
        _ => ExpandableInstruction::Nop,
    }
}

fn resolve_arguments_exec(args: &Vec<Slot<MacroArgument>>, ps: &Vec<Parameter>, vs: &Vec<MacroArgument>) -> (r: Result<Vec<MacroArgument>, ExpandError>)
    ensures
        match resolve_arguments(args@, ps@, vs@) {
            Ok(xs) => r is Ok && r->Ok_0@ == xs,
            Err(e) => r == Err::<Vec<MacroArgument>, _>(e),
        },
{
    let mut out: Vec<MacroArgument> = Vec::new();
    let mut k: usize = 0;
    while k < args.len()
        invariant
            k <= args@.len(),
            resolve_arguments(args@.take(k as int), ps@, vs@) == Ok::<_, ExpandError>(out@),
        decreases args@.len() - k,
    {
        assert(args@.take(k + 1).drop_last() =~= args@.take(k as int));
        let a = match args[k] {
            Slot::Param(p) => lookup_exec(ps, vs, p),
            Slot::Literal(MacroArgument::Instruction(x)) => match substitute(x, ps, vs) {
                Err(e) => Err(e),
                Ok(i) => Ok(MacroArgument::Instruction(literal_of_exec(i))),
            },
            Slot::Literal(a) => Ok(a),
        };
        match a {
            Err(e) => {
                proof { lemma_resolve_error_persists(args@, ps@, vs@, k + 1); }
                assert(args@.take(args@.len() as int) =~= args@);
                return Err(e);
            },
            Ok(a) => out.push(a),
        }
        k = k + 1;
    }
    assert(args@.take(args@.len() as int) =~= args@);
    Ok(out)
}

proof fn lemma_resolve_error_persists(args: Seq<Slot<MacroArgument>>, ps: Seq<Parameter>, vs: Seq<MacroArgument>, k: int)
    requires
        0 <= k <= args.len(),
        resolve_arguments(args.take(k), ps, vs).is_err(),
    ensures
        resolve_arguments(args, ps, vs) == resolve_arguments(args.take(k), ps, vs),
    decreases args.len() - k,
{
    if k < args.len() {
        assert(args.take(k + 1).drop_last() =~= args.take(k));
        lemma_resolve_error_persists(args, ps, vs, k + 1);
    } else {
        assert(args.take(k) =~= args);
    }
}

fn check_types_exec(ps: &Vec<Parameter>, vs: &Vec<MacroArgument>) -> (r: Result<(), ExpandError>)
    ensures
        r == check_types(ps@, vs@, 0),
{
    let mut k: usize = 0;
    while k < ps.len() && k < vs.len()
        invariant
            check_types(ps@, vs@, 0) == check_types(ps@, vs@, k as int),
        decreases ps@.len() - k,
    {
        let found = vs[k].macro_type();
        if found != ps[k].kind {
            return Err(ExpandError::WrongArgumentType { expected: ps[k].kind, found });
        }
        k = k + 1;
    }
    Ok(())
}

fn bind_call_exec(
    ms: &Vec<Macro>,
    name: Symbol,
    args: &Vec<Slot<MacroArgument>>,
    ps: &Vec<Parameter>,
    vs: &Vec<MacroArgument>,
) -> (r: Result<(usize, Vec<MacroArgument>), ExpandError>)
    ensures
        match bind_call(macros_view(ms@), name, args@, ps@, vs@) {
            Ok((k, values)) => r is Ok && r->Ok_0.0 == k && r->Ok_0.1@ == values && 0 <= k < ms@.len(),
            Err(e) => r == Err::<(usize, Vec<MacroArgument>), _>(e),
        },
{
    match find_macro_exec(ms, name, 0) {
        None => Err(ExpandError::UndefinedMacro(name)),
        Some(k) => {
            let m = &ms[k];
            assert(macros_view(ms@)[k as int] == ms@[k as int]@);
            if args.len() != m.parameters.len() {
                Err(ExpandError::ArityMismatch { name, expected: m.parameters.len(), found: args.len() })
            } else {
                let values = resolve_arguments_exec(args, ps, vs)?;
                check_types_exec(&m.parameters, &values)?;
                Ok((k, values))
            }
        },
    }
}

/// Appends the expansion of `items` under the bindings `ps`/`vs` to `out`.
fn expand_into(
    ms: &Vec<Macro>,
    items: &Vec<MacroInstruction>,
    ps: &Vec<Parameter>,
    vs: &Vec<MacroArgument>,
    fuel: usize,
    out: &mut Vec<Instruction>,
) -> (r: Result<(), ExpandError>)
    ensures
        match expand_items(macros_view(ms@), items_view(items@), ps@, vs@, fuel as nat) {
            Ok(xs) => r is Ok && final(out)@ == old(out)@ + xs,
            Err(e) => r == Err::<(), _>(e),
        },
    decreases fuel,
{
    let ghost mv = macros_view(ms@);
    let ghost iv = items_view(items@);
    let mut k: usize = 0;
    assert(iv.take(0) =~= Seq::<MacroItem>::empty());
    assert(old(out)@ + Seq::<Instruction>::empty() =~= old(out)@);
    while k < items.len()
        invariant
            mv == macros_view(ms@),
            iv == items_view(items@),
            k <= items@.len(),
            expand_items(mv, iv.take(k as int), ps@, vs@, fuel as nat) is Ok,
            out@ == old(out)@ + expand_items(mv, iv.take(k as int), ps@, vs@, fuel as nat)->Ok_0,
        decreases items@.len() - k,
    {
        let ghost done = expand_items(mv, iv.take(k as int), ps@, vs@, fuel as nat)->Ok_0;
        let ghost before = out@;
        assert(iv.take(k + 1).drop_last() =~= iv.take(k as int));
        assert(iv.take(k + 1).last() == items@[k as int]@);
        let step: Result<(), ExpandError> = match &items[k] {
            MacroInstruction::Instruction(x) => match substitute(*x, ps, vs) {
                Err(e) => Err(e),
                Ok(i) => {
                    out.push(i);
                    Ok(())
                },
            },
            MacroInstruction::Label(l) => {
                out.push(Instruction::Label(*l));
                Ok(())
            },
            MacroInstruction::Argument(p) => match lookup_exec(ps, vs, *p) {
                Err(e) => Err(e),
                Ok(MacroArgument::Instruction(x)) => match substitute(x, ps, vs) {
                    Err(e) => Err(e),
                    Ok(i) => {
                        out.push(i);
                        Ok(())
                    },
                },
                Ok(a) => Err(ExpandError::WrongArgumentType { expected: MacroArgumentType::Instruction, found: a.macro_type() }),
            },
            MacroInstruction::Call(c) => if fuel == 0 {
                Err(ExpandError::DepthExceeded)
            } else {
                match bind_call_exec(ms, c.name, &c.arguments, ps, vs) {
                    Err(e) => Err(e),
                    Ok((m, values)) => {
                        let callee = &ms[m];
                        expand_into(ms, &callee.body, &callee.parameters, &values, fuel - 1, out)
                    },
                }
            },
        };
        match step {
            Err(e) => {
                assert(expand_items(mv, iv.take(k + 1), ps@, vs@, fuel as nat) == Err::<Seq<Instruction>, _>(e));
                proof { lemma_expand_error_persists(mv, iv, ps@, vs@, fuel as nat, k + 1); }
                assert(iv.take(iv.len() as int) =~= iv);
                return Err(e);
            },
            Ok(()) => {
                let ghost now = expand_items(mv, iv.take(k + 1), ps@, vs@, fuel as nat)->Ok_0;
                assert(out@ =~= old(out)@ + now);
            },
        }
        k = k + 1;
    }
    assert(iv.take(iv.len() as int) =~= iv);
    Ok(())
}

proof fn lemma_expand_error_persists(
    ms: Seq<MacroModel>,
    items: Seq<MacroItem>,
    ps: Seq<Parameter>,
    vs: Seq<MacroArgument>,
    fuel: nat,
    k: int,
)
    requires
        0 <= k <= items.len(),
        expand_items(ms, items.take(k), ps, vs, fuel).is_err(),
    ensures
        expand_items(ms, items, ps, vs, fuel) == expand_items(ms, items.take(k), ps, vs, fuel),
    decreases items.len() - k,
{
    if k < items.len() {
        assert(items.take(k + 1).drop_last() =~= items.take(k));
        lemma_expand_error_persists(ms, items, ps, vs, fuel, k + 1);
    } else {
        assert(items.take(k) =~= items);
    }
}

impl ExpandableProgram {
    /// The flat program: every macro call replaced by its macro's body under the
    /// call's arguments, calls nesting at most `max_depth` deep.
    pub fn expand(&self, max_depth: usize) -> (r: Result<RelativeProgram, ExpandError>)
        ensures
            match expand_spec(macros_view(self.macros@), items_view(self.items@), max_depth as nat) {
                Ok(xs) => r is Ok && r->Ok_0.instructions@ == xs,
                Err(e) => r is Err && r->Err_0 == e,
            },
    {
        if let Some(n) = first_duplicate_exec(&self.macros) {
            return Err(ExpandError::DuplicateMacro(n));
        }
        let mut out: Vec<Instruction> = Vec::new();
        let empty_ps: Vec<Parameter> = Vec::new();
        let empty_vs: Vec<MacroArgument> = Vec::new();
        assert(empty_ps@ =~= Seq::<Parameter>::empty());
        assert(empty_vs@ =~= Seq::<MacroArgument>::empty());
        expand_into(&self.macros, &self.items, &empty_ps, &empty_vs, max_depth, &mut out)?;
        assert(out@ =~= Seq::<Instruction>::empty() + out@);
        Ok(RelativeProgram { instructions: out })
    }
}

} // verus!
