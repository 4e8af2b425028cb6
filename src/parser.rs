//! The parser: tokens to a macro-aware program. Each operand recognizer either
//! consumes its tokens or leaves the stream at its checkpoint.
use vstd::prelude::*;
use crate::isa::{Address, Flag, Register, Value};
use crate::lexer::{Mnemonic, Token, TokenIterator, tok, tokens_kept};
use crate::macros::{ExpandableInstruction, ExpandableProgram, Macro, MacroArgument, MacroCall,
    MacroInstruction, MacroItem, MacroModel, Parameter, Slot, items_view, macros_view};

verus! {

#[derive(Clone, Copy, Debug, PartialEq, Eq, Structural)]
pub enum ParseErrorKind {
    ExpectedRegister,
    ExpectedValue,
    ExpectedAddress,
    ExpectedFlag,
    ExpectedInstruction,
    ExpectedEndOfLine,
    ExpectedMacroName,
    ExpectedOpen,
    /// A macro body that the input ends inside.
    UnclosedMacro,
    /// A macro definition inside a macro body.
    NestedMacro,
    /// A literal that does not fit its operand: `i8` for a value, `u16` for an address.
    LiteralOutOfRange,
}

/// A parse failure at a token index.
#[derive(Clone, Copy, Debug, PartialEq, Eq, Structural)]
pub struct ParseError {
    pub kind: ParseErrorKind,
    pub at: usize,
}

pub open spec fn fail<T>(kind: ParseErrorKind, i: int) -> Result<(T, int), ParseError> {
    Err(ParseError { kind, at: i as usize })
}

pub open spec fn fits_i8(n: i32) -> bool {
    -128 <= n <= 127
}

pub open spec fn fits_u16(n: i32) -> bool {
    0 <= n <= 65535
}

pub open spec fn parse_register_spec(ts: Seq<Token>, i: int) -> Result<(Slot<Register>, int), ParseError> {
    match tok(ts, i) {
        Some(Token::Register(n)) => Ok((Slot::Literal(Register(n)), i + 1)),
        Some(Token::ArgRef(p)) => Ok((Slot::Param(p), i + 1)),
        _ => fail(ParseErrorKind::ExpectedRegister, i),
    }
}

/// A value: a register first, then a numeric literal.
pub open spec fn parse_value_spec(ts: Seq<Token>, i: int) -> Result<(Slot<Value>, int), ParseError> {
    match tok(ts, i) {
        Some(Token::Register(n)) => Ok((Slot::Literal(Value::Register(Register(n))), i + 1)),
        Some(Token::Number(n)) => if fits_i8(n) {
            Ok((Slot::Literal(Value::Literal(n as i8)), i + 1))
        } else {
            fail(ParseErrorKind::LiteralOutOfRange, i)
        },
        Some(Token::ArgRef(p)) => Ok((Slot::Param(p), i + 1)),
        _ => fail(ParseErrorKind::ExpectedValue, i),
    }
}

/// An address: `HL` first, then a 16-bit literal or a label reference.
pub open spec fn parse_address_spec(ts: Seq<Token>, i: int) -> Result<(Slot<Address>, int), ParseError> {
    match tok(ts, i) {
        Some(Token::Hl) => Ok((Slot::Literal(Address::HL), i + 1)),
        Some(Token::Number(n)) => if fits_u16(n) {
            Ok((Slot::Literal(Address::Literal(n as u16)), i + 1))
        } else {
            fail(ParseErrorKind::LiteralOutOfRange, i)
        },
        Some(Token::LabelRef(s)) => Ok((Slot::Literal(Address::Label(s)), i + 1)),
        Some(Token::ArgRef(p)) => Ok((Slot::Param(p), i + 1)),
        _ => fail(ParseErrorKind::ExpectedAddress, i),
    }
}

pub open spec fn parse_flag_spec(ts: Seq<Token>, i: int) -> Result<(Slot<Flag>, int), ParseError> {
    match tok(ts, i) {
        Some(Token::Flag(n)) => Ok((Slot::Literal(Flag(n)), i + 1)),
        Some(Token::ArgRef(p)) => Ok((Slot::Param(p), i + 1)),
        _ => fail(ParseErrorKind::ExpectedFlag, i),
    }
}

/// The mnemonics whose operands are a register and a value.
pub open spec fn takes_reg_val(m: Mnemonic) -> bool {
    m == Mnemonic::Mov || m == Mnemonic::Add || m == Mnemonic::Sub || m == Mnemonic::And
        || m == Mnemonic::Or || m == Mnemonic::Cmp || m == Mnemonic::Shl || m == Mnemonic::Shr
}

/// An instruction: its mnemonic, then the operands that the mnemonic declares.
pub open spec fn parse_instruction_spec(ts: Seq<Token>, i: int) -> Result<(ExpandableInstruction, int), ParseError> {
    let j = i + 1;
    match tok(ts, i) {
        Some(Token::Mnemonic(m)) => if m == Mnemonic::Nop {
            Ok((ExpandableInstruction::Nop, j))
        } else if takes_reg_val(m) {
            match parse_register_spec(ts, j) {
                Err(e) => Err(e),
                Ok((r, k)) => match parse_value_spec(ts, k) {
                    Err(e) => Err(e),
                    Ok((v, l)) => Ok((ExpandableInstruction::RegVal(m, r, v), l)),
                },
            }
        } else if m == Mnemonic::Ldw || m == Mnemonic::Stw {
            match parse_register_spec(ts, j) {
                Err(e) => Err(e),
                Ok((r, k)) => match parse_address_spec(ts, k) {
                    Err(e) => Err(e),
                    Ok((a, l)) => Ok((ExpandableInstruction::RegAddr(m, r, a), l)),
                },
            }
        } else if m == Mnemonic::Lda {
            match parse_address_spec(ts, j) {
                Err(e) => Err(e),
                Ok((a, l)) => Ok((ExpandableInstruction::Lda(a), l)),
            }
        } else if m == Mnemonic::Psh {
            match parse_value_spec(ts, j) {
                Err(e) => Err(e),
                Ok((v, l)) => Ok((ExpandableInstruction::Psh(v), l)),
            }
        } else if m == Mnemonic::Jmp {
            match parse_flag_spec(ts, j) {
                Err(e) => Err(e),
                Ok((f, k)) => match parse_address_spec(ts, k) {
                    Err(e) => Err(e),
                    Ok((a, l)) => Ok((ExpandableInstruction::Jmp(f, a), l)),
                },
            }
        } else {
            match parse_register_spec(ts, j) {
                Err(e) => Err(e),
                Ok((r, l)) => Ok((ExpandableInstruction::Reg(m, r), l)),
            }
        },
        _ => fail(ParseErrorKind::ExpectedInstruction, i),
    }
}

/// One actual argument of a macro call, typed by its form; `None` where none starts.
pub open spec fn parse_argument_spec(ts: Seq<Token>, i: int) -> Option<Result<(Slot<MacroArgument>, int), ParseError>> {
    match tok(ts, i) {
        Some(Token::Mnemonic(_)) => Some(match parse_instruction_spec(ts, i) {
            Err(e) => Err(e),
            Ok((x, j)) => Ok((Slot::Literal(MacroArgument::Instruction(x)), j)),
        }),
        Some(Token::Register(n)) => Some(Ok((Slot::Literal(MacroArgument::Register(Register(n))), i + 1))),
        Some(Token::Number(n)) => Some(if fits_i8(n) {
            Ok((Slot::Literal(MacroArgument::Value(Value::Literal(n as i8))), i + 1))
        } else if fits_u16(n) {
            Ok((Slot::Literal(MacroArgument::Address(Address::Literal(n as u16))), i + 1))
        } else {
            fail(ParseErrorKind::LiteralOutOfRange, i)
        }),
        Some(Token::Hl) => Some(Ok((Slot::Literal(MacroArgument::Address(Address::HL)), i + 1))),
        Some(Token::LabelRef(s)) => Some(Ok((Slot::Literal(MacroArgument::Address(Address::Label(s))), i + 1))),
        Some(Token::Flag(n)) => Some(Ok((Slot::Literal(MacroArgument::Flag(Flag(n))), i + 1))),
        Some(Token::Ident(s)) => Some(Ok((Slot::Literal(MacroArgument::Identifier(s)), i + 1))),
        Some(Token::ArgRef(p)) => Some(Ok((Slot::Param(p), i + 1))),
        _ => None,
    }
}

/// The arguments of a call: as many as follow.
pub open spec fn parse_arguments_spec(ts: Seq<Token>, i: int) -> Result<(Seq<Slot<MacroArgument>>, int), ParseError>
    decreases ts.len() - i,
{
    match parse_argument_spec(ts, i) {
        None => Ok((Seq::empty(), i)),
        Some(Err(e)) => Err(e),
        Some(Ok((a, j))) => if i < j <= ts.len() {
            match parse_arguments_spec(ts, j) {
                Err(e) => Err(e),
                Ok((rest, k)) => Ok((seq![a] + rest, k)),
            }
        } else {
            Ok((Seq::empty(), i))
        },
    }
}

/// The end of a statement: a newline, or the end of input.
pub open spec fn end_spec(ts: Seq<Token>, i: int) -> Result<int, ParseError> {
    match tok(ts, i) {
        None => Ok(i),
        Some(Token::Newline) => Ok(i + 1),
        _ => Err(ParseError { kind: ParseErrorKind::ExpectedEndOfLine, at: i as usize }),
    }
}

/// A statement: a macro call, an instruction parameter, or an instruction; then its end.
pub open spec fn parse_statement_spec(ts: Seq<Token>, i: int) -> Result<(MacroItem, int), ParseError> {
    match tok(ts, i) {
        Some(Token::Call(name)) => match parse_arguments_spec(ts, i + 1) {
            Err(e) => Err(e),
            Ok((args, j)) => match end_spec(ts, j) {
                Err(e) => Err(e),
                Ok(k) => Ok((MacroItem::Call(name, args), k)),
            },
        },
        Some(Token::ArgRef(p)) => match end_spec(ts, i + 1) {
            Err(e) => Err(e),
            Ok(k) => Ok((MacroItem::Argument(p), k)),
        },
        _ => match parse_instruction_spec(ts, i) {
            Err(e) => Err(e),
            Ok((x, j)) => match end_spec(ts, j) {
                Err(e) => Err(e),
                Ok(k) => Ok((MacroItem::Instruction(x), k)),
            },
        },
    }
}

pub open spec fn prepend_item(
    x: MacroItem,
    r: Result<(Seq<MacroItem>, int), ParseError>,
) -> Result<(Seq<MacroItem>, int), ParseError> {
    match r {
        Err(e) => Err(e),
        Ok((xs, k)) => Ok((seq![x] + xs, k)),
    }
}

/// A macro body up to and past its closing `}`.
pub open spec fn parse_body_spec(ts: Seq<Token>, i: int) -> Result<(Seq<MacroItem>, int), ParseError>
    decreases ts.len() - i,
{
    if i < 0 || i >= ts.len() {
        fail(ParseErrorKind::UnclosedMacro, i)
    } else {
        match ts[i] {
            Token::Close => Ok((Seq::empty(), i + 1)),
            Token::Newline => parse_body_spec(ts, i + 1),
            Token::LabelDef(s) => prepend_item(MacroItem::Label(s), parse_body_spec(ts, i + 1)),
            Token::Macro => fail(ParseErrorKind::NestedMacro, i),
            _ => match parse_statement_spec(ts, i) {
                Err(e) => Err(e),
                Ok((x, j)) => if i < j <= ts.len() {
                    prepend_item(x, parse_body_spec(ts, j))
                } else {
                    fail(ParseErrorKind::UnclosedMacro, i)
                },
            },
        }
    }
}

/// The typed parameters of a definition: as many as follow.
pub open spec fn parse_parameters_spec(ts: Seq<Token>, i: int) -> (Seq<Parameter>, int)
    decreases ts.len() - i,
{
    match tok(ts, i) {
        Some(Token::ArgDecl(name, kind)) => {
            let (ps, j) = parse_parameters_spec(ts, i + 1);
            (seq![Parameter { name, kind }] + ps, j)
        },
        _ => (Seq::empty(), i),
    }
}

/// `macro name $p:type… {` body `}` and the end of its line.
pub open spec fn parse_macro_spec(ts: Seq<Token>, i: int) -> Result<(MacroModel, int), ParseError> {
    match tok(ts, i + 1) {
        Some(Token::Ident(name)) => {
            let (ps, j) = parse_parameters_spec(ts, i + 2);
            match tok(ts, j) {
                Some(Token::Open) => match parse_body_spec(ts, j + 1) {
                    Err(e) => Err(e),
                    Ok((body, k)) => match end_spec(ts, k) {
                        Err(e) => Err(e),
                        Ok(l) => Ok((MacroModel { name, parameters: ps, body }, l)),
                    },
                },
                _ => fail(ParseErrorKind::ExpectedOpen, j),
            }
        },
        _ => fail(ParseErrorKind::ExpectedMacroName, i + 1),
    }
}

pub open spec fn prepend_program(
    m: Option<MacroModel>,
    x: Option<MacroItem>,
    r: Result<(Seq<MacroModel>, Seq<MacroItem>), ParseError>,
) -> Result<(Seq<MacroModel>, Seq<MacroItem>), ParseError> {
    match r {
        Err(e) => Err(e),
        Ok((ms, xs)) => Ok((
            match m { Some(m) => seq![m] + ms, None => ms },
            match x { Some(x) => seq![x] + xs, None => xs },
        )),
    }
}

/// A program from token `i` on: its macro definitions and its items.
pub open spec fn parse_program_spec(ts: Seq<Token>, i: int) -> Result<(Seq<MacroModel>, Seq<MacroItem>), ParseError>
    decreases ts.len() - i,
{
    if i < 0 || i >= ts.len() {
        Ok((Seq::empty(), Seq::empty()))
    } else {
        match ts[i] {
            Token::Newline => parse_program_spec(ts, i + 1),
            Token::LabelDef(s) => prepend_program(None, Some(MacroItem::Label(s)), parse_program_spec(ts, i + 1)),
            Token::Macro => match parse_macro_spec(ts, i) {
                Err(e) => Err(e),
                Ok((m, j)) => if i < j <= ts.len() {
                    prepend_program(Some(m), None, parse_program_spec(ts, j))
                } else {
                    Ok((Seq::empty(), Seq::empty()))
                },
            },
            _ => match parse_statement_spec(ts, i) {
                Err(e) => Err(e),
                Ok((x, j)) => if i < j <= ts.len() {
                    prepend_program(None, Some(x), parse_program_spec(ts, j))
                } else {
                    Ok((Seq::empty(), Seq::empty()))
                },
            },
        }
    }
}

proof fn lemma_push_drop(v: Seq<usize>, x: usize)
    ensures
        v.push(x).drop_last() == v,
        v.push(x).last() == x,
        v.push(x).len() > 0,
{
    assert(v.push(x).drop_last() =~= v);
}

fn parse_register(tokens: &mut TokenIterator) -> (r: Result<Slot<Register>, ParseError>)
    ensures
        tokens_kept(*old(tokens), *final(tokens)),
        match parse_register_spec(old(tokens).vector@, old(tokens).i as int) {
            Ok((x, j)) => r == Ok::<_, ParseError>(x) && final(tokens).i == j && j <= old(tokens).vector@.len(),
            Err(e) => r == Err::<Slot<Register>, _>(e) && final(tokens).i == old(tokens).i,
        },
{
    tokens.push();
    let at = tokens.i;
    let r = match tokens.next() {
        Some(Token::Register(n)) => Ok(Slot::Literal(Register(n))),
        Some(Token::ArgRef(p)) => Ok(Slot::Param(p)),
        _ => Err(ParseError { kind: ParseErrorKind::ExpectedRegister, at }),
    };
    if r.is_ok() {
        tokens.spop();
    } else {
        tokens.pop();
    }
    proof { lemma_push_drop(old(tokens).indices@, at); }
    r
}

fn parse_value(tokens: &mut TokenIterator) -> (r: Result<Slot<Value>, ParseError>)
    ensures
        tokens_kept(*old(tokens), *final(tokens)),
        match parse_value_spec(old(tokens).vector@, old(tokens).i as int) {
            Ok((x, j)) => r == Ok::<_, ParseError>(x) && final(tokens).i == j && j <= old(tokens).vector@.len(),
            Err(e) => r == Err::<Slot<Value>, _>(e) && final(tokens).i == old(tokens).i,
        },
{
    tokens.push();
    let at = tokens.i;
    let r = match tokens.next() {
        Some(Token::Register(n)) => Ok(Slot::Literal(Value::Register(Register(n)))),
        Some(Token::Number(n)) => if -128 <= n && n <= 127 {
            Ok(Slot::Literal(Value::Literal(n as i8)))
        } else {
            Err(ParseError { kind: ParseErrorKind::LiteralOutOfRange, at })
        },
        Some(Token::ArgRef(p)) => Ok(Slot::Param(p)),
        _ => Err(ParseError { kind: ParseErrorKind::ExpectedValue, at }),
    };
    if r.is_ok() {
        tokens.spop();
    } else {
        tokens.pop();
    }
    proof { lemma_push_drop(old(tokens).indices@, at); }
    r
}

fn parse_address(tokens: &mut TokenIterator) -> (r: Result<Slot<Address>, ParseError>)
    ensures
        tokens_kept(*old(tokens), *final(tokens)),
        match parse_address_spec(old(tokens).vector@, old(tokens).i as int) {
            Ok((x, j)) => r == Ok::<_, ParseError>(x) && final(tokens).i == j && j <= old(tokens).vector@.len(),
            Err(e) => r == Err::<Slot<Address>, _>(e) && final(tokens).i == old(tokens).i,
        },
{
    tokens.push();
    let at = tokens.i;
    let r = match tokens.next() {
        Some(Token::Hl) => Ok(Slot::Literal(Address::HL)),
        Some(Token::Number(n)) => if 0 <= n && n <= 65535 {
            Ok(Slot::Literal(Address::Literal(n as u16)))
        } else {
            Err(ParseError { kind: ParseErrorKind::LiteralOutOfRange, at })
        },
        Some(Token::LabelRef(l)) => Ok(Slot::Literal(Address::Label(l))),
        Some(Token::ArgRef(p)) => Ok(Slot::Param(p)),
        _ => Err(ParseError { kind: ParseErrorKind::ExpectedAddress, at }),
    };
    if r.is_ok() {
        tokens.spop();
    } else {
        tokens.pop();
    }
    proof { lemma_push_drop(old(tokens).indices@, at); }
    r
}

fn parse_flag(tokens: &mut TokenIterator) -> (r: Result<Slot<Flag>, ParseError>)
    ensures
        tokens_kept(*old(tokens), *final(tokens)),
        match parse_flag_spec(old(tokens).vector@, old(tokens).i as int) {
            Ok((x, j)) => r == Ok::<_, ParseError>(x) && final(tokens).i == j && j <= old(tokens).vector@.len(),
            Err(e) => r == Err::<Slot<Flag>, _>(e) && final(tokens).i == old(tokens).i,
        },
{
    tokens.push();
    let at = tokens.i;
    let r = match tokens.next() {
        Some(Token::Flag(n)) => Ok(Slot::Literal(Flag(n))),
        Some(Token::ArgRef(p)) => Ok(Slot::Param(p)),
        _ => Err(ParseError { kind: ParseErrorKind::ExpectedFlag, at }),
    };
    if r.is_ok() {
        tokens.spop();
    } else {
        tokens.pop();
    }
    proof { lemma_push_drop(old(tokens).indices@, at); }
    r
}

/// Where a successful parse leaves the stream: further on, and not past its end.
pub open spec fn advanced_to(old_t: TokenIterator, new_t: TokenIterator, j: int) -> bool {
    new_t.i == j && old_t.i < j <= old_t.vector@.len()
}

/// An instruction with its operands.
pub fn parse_instruction(tokens: &mut TokenIterator) -> (r: Result<ExpandableInstruction, ParseError>)
    ensures
        tokens_kept(*old(tokens), *final(tokens)),
        match parse_instruction_spec(old(tokens).vector@, old(tokens).i as int) {
            Ok((x, j)) => r == Ok::<_, ParseError>(x) && advanced_to(*old(tokens), *final(tokens), j),
            Err(e) => r == Err::<ExpandableInstruction, _>(e),
        },
{
    let at = tokens.i;
    match tokens.next() {
        Some(Token::Mnemonic(m)) => match m {
            Mnemonic::Nop => Ok(ExpandableInstruction::Nop),
            Mnemonic::Mov | Mnemonic::Add | Mnemonic::Sub | Mnemonic::And | Mnemonic::Or
            | Mnemonic::Cmp | Mnemonic::Shl | Mnemonic::Shr => {
                let r = parse_register(tokens)?;
                let v = parse_value(tokens)?;
                Ok(ExpandableInstruction::RegVal(m, r, v))
            },
            Mnemonic::Ldw | Mnemonic::Stw => {
                let r = parse_register(tokens)?;
                let a = parse_address(tokens)?;
                Ok(ExpandableInstruction::RegAddr(m, r, a))
            },
            Mnemonic::Lda => {
                let a = parse_address(tokens)?;
                Ok(ExpandableInstruction::Lda(a))
            },
            Mnemonic::Psh => {
                let v = parse_value(tokens)?;
                Ok(ExpandableInstruction::Psh(v))
            },
            Mnemonic::Jmp => {
                let f = parse_flag(tokens)?;
                let a = parse_address(tokens)?;
                Ok(ExpandableInstruction::Jmp(f, a))
            },
            Mnemonic::Pop | Mnemonic::Inv => {
                let r = parse_register(tokens)?;
                Ok(ExpandableInstruction::Reg(m, r))
            },
        },
        _ => Err(ParseError { kind: ParseErrorKind::ExpectedInstruction, at }),
    }
}

/// One actual argument, or `None` (the stream untouched) where none starts.
fn parse_argument(tokens: &mut TokenIterator) -> (r: Option<Result<Slot<MacroArgument>, ParseError>>)
    ensures
        tokens_kept(*old(tokens), *final(tokens)),
        match parse_argument_spec(old(tokens).vector@, old(tokens).i as int) {
            None => r is None && final(tokens).i == old(tokens).i,
            Some(Ok((x, j))) => r == Some(Ok::<_, ParseError>(x)) && advanced_to(*old(tokens), *final(tokens), j),
            Some(Err(e)) => r == Some(Err::<Slot<MacroArgument>, _>(e)),
        },
{
    let at = tokens.i;
    match tokens.peek() {
        Some(Token::Mnemonic(_)) => Some(match parse_instruction(tokens) {
            Err(e) => Err(e),
            Ok(x) => Ok(Slot::Literal(MacroArgument::Instruction(x))),
        }),
        Some(Token::Register(n)) => {
            tokens.next();
            Some(Ok(Slot::Literal(MacroArgument::Register(Register(n)))))
        },
        Some(Token::Number(n)) => {
            tokens.next();
            Some(if -128 <= n && n <= 127 {
                Ok(Slot::Literal(MacroArgument::Value(Value::Literal(n as i8))))
            } else if 0 <= n && n <= 65535 {
                Ok(Slot::Literal(MacroArgument::Address(Address::Literal(n as u16))))
            } else {
                Err(ParseError { kind: ParseErrorKind::LiteralOutOfRange, at })
            })
        },
        Some(Token::Hl) => {
            tokens.next();
            Some(Ok(Slot::Literal(MacroArgument::Address(Address::HL))))
        },
        Some(Token::LabelRef(l)) => {
            tokens.next();
            Some(Ok(Slot::Literal(MacroArgument::Address(Address::Label(l)))))
        },
        Some(Token::Flag(n)) => {
            tokens.next();
            Some(Ok(Slot::Literal(MacroArgument::Flag(Flag(n)))))
        },
        Some(Token::Ident(l)) => {
            tokens.next();
            Some(Ok(Slot::Literal(MacroArgument::Identifier(l))))
        },
        Some(Token::ArgRef(p)) => {
            tokens.next();
            Some(Ok(Slot::Param(p)))
        },
        _ => None,
    }
}

/// The arguments of a call.
fn parse_arguments(tokens: &mut TokenIterator) -> (r: Result<Vec<Slot<MacroArgument>>, ParseError>)
    requires
        old(tokens).i <= old(tokens).vector@.len(),
    ensures
        tokens_kept(*old(tokens), *final(tokens)),
        match parse_arguments_spec(old(tokens).vector@, old(tokens).i as int) {
            Ok((xs, k)) => r is Ok && r->Ok_0@ == xs && final(tokens).i == k && old(tokens).i <= k <= old(tokens).vector@.len(),
            Err(e) => r == Err::<Vec<Slot<MacroArgument>>, _>(e),
        },
{
    let ghost ts = tokens.vector@;
    let ghost i0 = tokens.i as int;
    let mut args: Vec<Slot<MacroArgument>> = Vec::new();
    assert(args@ + Seq::<Slot<MacroArgument>>::empty() =~= args@);
    loop
        invariant
            tokens_kept(*old(tokens), *tokens),
            ts == tokens.vector@,
            i0 == old(tokens).i,
            i0 <= tokens.i <= ts.len(),
            parse_arguments_spec(ts, i0) == match parse_arguments_spec(ts, tokens.i as int) {
                Err(e) => Err(e),
                Ok((xs, k)) => Ok::<_, ParseError>((args@ + xs, k)),
            },
        decreases ts.len() - tokens.i,
    {
        let ghost cur = tokens.i as int;
        match parse_argument(tokens) {
            None => {
                assert(args@ + Seq::<Slot<MacroArgument>>::empty() =~= args@);
                return Ok(args);
            },
            Some(Err(e)) => return Err(e),
            Some(Ok(a)) => {
                proof {
                    if let Ok((xs, k)) = parse_arguments_spec(ts, tokens.i as int) {
                        assert(args@ + (seq![a] + xs) =~= args@.push(a) + xs);
                    }
                }
                args.push(a);
            },
        }
    }
}

/// The end of a statement.
fn parse_end(tokens: &mut TokenIterator) -> (r: Result<(), ParseError>)
    requires
        old(tokens).i <= old(tokens).vector@.len(),
    ensures
        tokens_kept(*old(tokens), *final(tokens)),
        match end_spec(old(tokens).vector@, old(tokens).i as int) {
            Ok(k) => r is Ok && final(tokens).i == k && old(tokens).i <= k <= old(tokens).vector@.len(),
            Err(e) => r == Err::<(), _>(e),
        },
{
    let at = tokens.i;
    match tokens.peek() {
        None => Ok(()),
        Some(Token::Newline) => {
            tokens.next();
            Ok(())
        },
        _ => Err(ParseError { kind: ParseErrorKind::ExpectedEndOfLine, at }),
    }
}

/// A macro call, an instruction parameter, or an instruction, with the end of its line.
fn parse_statement(tokens: &mut TokenIterator) -> (r: Result<MacroInstruction, ParseError>)
    requires
        old(tokens).i <= old(tokens).vector@.len(),
    ensures
        tokens_kept(*old(tokens), *final(tokens)),
        match parse_statement_spec(old(tokens).vector@, old(tokens).i as int) {
            Ok((x, j)) => r is Ok && r->Ok_0@ == x && advanced_to(*old(tokens), *final(tokens), j),
            Err(e) => r == Err::<MacroInstruction, _>(e),
        },
{
    match tokens.peek() {
        Some(Token::Call(name)) => {
            tokens.next();
            let arguments = parse_arguments(tokens)?;
            parse_end(tokens)?;
            Ok(MacroInstruction::Call(MacroCall { name, arguments }))
        },
        Some(Token::ArgRef(p)) => {
            tokens.next();
            parse_end(tokens)?;
            Ok(MacroInstruction::Argument(p))
        },
        _ => {
            let x = parse_instruction(tokens)?;
            parse_end(tokens)?;
            Ok(MacroInstruction::Instruction(x))
        },
    }
}

pub open spec fn glue_items(
    acc: Seq<MacroItem>,
    r: Result<(Seq<MacroItem>, int), ParseError>,
) -> Result<(Seq<MacroItem>, int), ParseError> {
    match r {
        Err(e) => Err(e),
        Ok((xs, k)) => Ok((acc + xs, k)),
    }
}

proof fn lemma_glue_items(acc: Seq<MacroItem>, x: MacroItem, r: Result<(Seq<MacroItem>, int), ParseError>)
    ensures
        glue_items(acc, prepend_item(x, r)) == glue_items(acc.push(x), r),
{
    if let Ok((xs, k)) = r {
        assert(acc + (seq![x] + xs) =~= acc.push(x) + xs);
    }
}

proof fn lemma_items_push(v: Seq<MacroInstruction>, x: MacroInstruction)
    ensures
        items_view(v.push(x)) == items_view(v).push(x@),
{
    assert(items_view(v.push(x)) =~= items_view(v).push(x@));
}

/// A macro body, past its closing `}`.
fn parse_body(tokens: &mut TokenIterator) -> (r: Result<Vec<MacroInstruction>, ParseError>)
    requires
        old(tokens).i <= old(tokens).vector@.len(),
    ensures
        tokens_kept(*old(tokens), *final(tokens)),
        match parse_body_spec(old(tokens).vector@, old(tokens).i as int) {
            Ok((xs, k)) => r is Ok && items_view(r->Ok_0@) == xs && advanced_to(*old(tokens), *final(tokens), k),
            Err(e) => r == Err::<Vec<MacroInstruction>, _>(e),
        },
{
    let ghost ts = tokens.vector@;
    let ghost i0 = tokens.i as int;
    let mut body: Vec<MacroInstruction> = Vec::new();
    assert(items_view(body@) + Seq::<MacroItem>::empty() =~= Seq::<MacroItem>::empty());
    assert(glue_items(items_view(body@), parse_body_spec(ts, i0)) == parse_body_spec(ts, i0)) by {
        if let Ok((xs, k)) = parse_body_spec(ts, i0) {
            assert(items_view(body@) + xs =~= xs);
        }
    }
    loop
        invariant
            tokens_kept(*old(tokens), *tokens),
            ts == tokens.vector@,
            i0 == old(tokens).i,
            i0 <= tokens.i <= ts.len(),
            parse_body_spec(ts, i0) == glue_items(items_view(body@), parse_body_spec(ts, tokens.i as int)),
        decreases ts.len() - tokens.i,
    {
        let at = tokens.i;
        match tokens.peek() {
            None => return Err(ParseError { kind: ParseErrorKind::UnclosedMacro, at }),
            Some(Token::Close) => {
                tokens.next();
                assert(items_view(body@) + Seq::<MacroItem>::empty() =~= items_view(body@));
                return Ok(body);
            },
            Some(Token::Newline) => {
                tokens.next();
            },
            Some(Token::LabelDef(l)) => {
                tokens.next();
                let x = MacroInstruction::Label(l);
                proof {
                    lemma_glue_items(items_view(body@), x@, parse_body_spec(ts, tokens.i as int));
                    lemma_items_push(body@, x);
                }
                body.push(x);
            },
            Some(Token::Macro) => return Err(ParseError { kind: ParseErrorKind::NestedMacro, at }),
            _ => {
                let x = parse_statement(tokens)?;
                proof {
                    lemma_glue_items(items_view(body@), x@, parse_body_spec(ts, tokens.i as int));
                    lemma_items_push(body@, x);
                }
                body.push(x);
            },
        }
    }
}

/// The typed parameters of a definition.
fn parse_parameters(tokens: &mut TokenIterator) -> (r: Vec<Parameter>)
    requires
        old(tokens).i <= old(tokens).vector@.len(),
    ensures
        tokens_kept(*old(tokens), *final(tokens)),
        parse_parameters_spec(old(tokens).vector@, old(tokens).i as int) == (r@, final(tokens).i as int),
        old(tokens).i <= final(tokens).i <= old(tokens).vector@.len(),
{
    let ghost ts = tokens.vector@;
    let ghost i0 = tokens.i as int;
    let mut ps: Vec<Parameter> = Vec::new();
    assert(ps@ + parse_parameters_spec(ts, i0).0 =~= parse_parameters_spec(ts, i0).0);
    loop
        invariant
            tokens_kept(*old(tokens), *tokens),
            ts == tokens.vector@,
            i0 == old(tokens).i,
            i0 <= tokens.i <= ts.len(),
            parse_parameters_spec(ts, i0) == (ps@ + parse_parameters_spec(ts, tokens.i as int).0,
                parse_parameters_spec(ts, tokens.i as int).1),
        decreases ts.len() - tokens.i,
    {
        match tokens.peek() {
            Some(Token::ArgDecl(name, kind)) => {
                tokens.next();
                let p = Parameter { name, kind };
                assert(ps@ + (seq![p] + parse_parameters_spec(ts, tokens.i as int).0)
                    =~= ps@.push(p) + parse_parameters_spec(ts, tokens.i as int).0);
                ps.push(p);
            },
            _ => {
                assert(ps@ + Seq::<Parameter>::empty() =~= ps@);
                return ps;
            },
        }
    }
}

/// A macro definition, the stream at its `macro` keyword.
fn parse_macro(tokens: &mut TokenIterator) -> (r: Result<Macro, ParseError>)
    requires
        old(tokens).i < old(tokens).vector@.len(),
    ensures
        tokens_kept(*old(tokens), *final(tokens)),
        match parse_macro_spec(old(tokens).vector@, old(tokens).i as int) {
            Ok((m, j)) => r is Ok && r->Ok_0@ == m && advanced_to(*old(tokens), *final(tokens), j),
            Err(e) => r == Err::<Macro, _>(e),
        },
{
    tokens.next();
    let at = tokens.i;
    match tokens.next() {
        Some(Token::Ident(name)) => {
            let parameters = parse_parameters(tokens);
            let at_open = tokens.i;
            match tokens.next() {
                Some(Token::Open) => {
                    let body = parse_body(tokens)?;
                    parse_end(tokens)?;
                    Ok(Macro { name, parameters, body })
                },
                _ => Err(ParseError { kind: ParseErrorKind::ExpectedOpen, at: at_open }),
            }
        },
        _ => Err(ParseError { kind: ParseErrorKind::ExpectedMacroName, at }),
    }
}

pub open spec fn glue_program(
    ms: Seq<MacroModel>,
    xs: Seq<MacroItem>,
    r: Result<(Seq<MacroModel>, Seq<MacroItem>), ParseError>,
) -> Result<(Seq<MacroModel>, Seq<MacroItem>), ParseError> {
    match r {
        Err(e) => Err(e),
        Ok((ms2, xs2)) => Ok((ms + ms2, xs + xs2)),
    }
}

proof fn lemma_glue_program(
    ms: Seq<MacroModel>,
    xs: Seq<MacroItem>,
    m: Option<MacroModel>,
    x: Option<MacroItem>,
    r: Result<(Seq<MacroModel>, Seq<MacroItem>), ParseError>,
)
    ensures
        glue_program(ms, xs, prepend_program(m, x, r)) == glue_program(
            match m { Some(m) => ms.push(m), None => ms },
            match x { Some(x) => xs.push(x), None => xs },
            r,
        ),
{
    if let Ok((ms2, xs2)) = r {
        if let Some(m) = m {
            assert(ms + (seq![m] + ms2) =~= ms.push(m) + ms2);
        }
        if let Some(x) = x {
            assert(xs + (seq![x] + xs2) =~= xs.push(x) + xs2);
        }
    }
}

proof fn lemma_macros_push(v: Seq<Macro>, m: Macro)
    ensures
        macros_view(v.push(m)) == macros_view(v).push(m@),
{
    assert(macros_view(v.push(m)) =~= macros_view(v).push(m@));
}

/// Parses a whole token stream into its macro definitions and items. The
/// program keeps the stream's symbol table.
pub fn parse_program(tokens: TokenIterator) -> (r: Result<ExpandableProgram, ParseError>)
    requires
        tokens.i <= tokens.vector@.len(),
    ensures
        match parse_program_spec(tokens.vector@, tokens.i as int) {
            Ok((ms, xs)) => r is Ok && macros_view(r->Ok_0.macros@) == ms && items_view(r->Ok_0.items@) == xs
                && r->Ok_0.names@ == tokens.names@,
            Err(e) => r == Err::<ExpandableProgram, _>(e),
        },
{
    let mut it = tokens;
    let ghost ts = it.vector@;
    let ghost i0 = it.i as int;
    let mut macros: Vec<Macro> = Vec::new();
    let mut items: Vec<MacroInstruction> = Vec::new();
    assert(glue_program(macros_view(macros@), items_view(items@), parse_program_spec(ts, i0)) == parse_program_spec(ts, i0)) by {
        if let Ok((ms, xs)) = parse_program_spec(ts, i0) {
            assert(macros_view(macros@) + ms =~= ms);
            assert(items_view(items@) + xs =~= xs);
        }
    }
    loop
        invariant
            tokens_kept(tokens, it),
            ts == it.vector@,
            ts == tokens.vector@,
            i0 == tokens.i,
            i0 <= it.i <= ts.len(),
            parse_program_spec(ts, i0) == glue_program(macros_view(macros@), items_view(items@),
                parse_program_spec(ts, it.i as int)),
        decreases ts.len() - it.i,
    {
        match it.peek() {
            None => {
                assert(macros_view(macros@) + Seq::<MacroModel>::empty() =~= macros_view(macros@));
                assert(items_view(items@) + Seq::<MacroItem>::empty() =~= items_view(items@));
                return Ok(ExpandableProgram { macros, items, names: it.names });
            },
            Some(Token::Newline) => {
                it.next();
            },
            Some(Token::LabelDef(l)) => {
                it.next();
                let x = MacroInstruction::Label(l);
                proof {
                    lemma_glue_program(macros_view(macros@), items_view(items@), None, Some(x@),
                        parse_program_spec(ts, it.i as int));
                    lemma_items_push(items@, x);
                }
                items.push(x);
            },
            Some(Token::Macro) => {
                let m = parse_macro(&mut it)?;
                proof {
                    lemma_glue_program(macros_view(macros@), items_view(items@), Some(m@), None,
                        parse_program_spec(ts, it.i as int));
                    lemma_macros_push(macros@, m);
                }
                macros.push(m);
            },
            _ => {
                let x = parse_statement(&mut it)?;
                proof {
                    lemma_glue_program(macros_view(macros@), items_view(items@), None, Some(x@),
                        parse_program_spec(ts, it.i as int));
                    lemma_items_push(items@, x);
                }
                items.push(x);
            },
        }
    }
}

} // verus!
