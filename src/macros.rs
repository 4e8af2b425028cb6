//! Macro definitions, calls and the items of a macro-aware program.
use vstd::prelude::*;
use crate::isa::{Address, Flag, Register, Symbol, Value};
use crate::lexer::Mnemonic;

verus! {

/// The type of a macro parameter, and of an actual argument.
#[derive(Clone, Copy, Debug, PartialEq, Eq, Structural)]
pub enum MacroArgumentType {
    Register,
    Value,
    Address,
    Flag,
    Instruction,
    Identifier,
}

/// An operand as written: a literal, or a reference `$name` to a macro parameter.
#[derive(Clone, Copy, Debug, PartialEq, Eq, Structural)]
pub enum Slot<T> {
    Literal(T),
    Param(Symbol),
}

/// An instruction whose operands may be parameter references; grouped by the
/// shape of its operands.
#[derive(Clone, Copy, Debug, PartialEq, Eq, Structural)]
pub enum ExpandableInstruction {
    Nop,
    /// `mov add sub and or cmp shl shr`: a register and a value.
    RegVal(Mnemonic, Slot<Register>, Slot<Value>),
    /// `ldw stw`: a register and an address.
    RegAddr(Mnemonic, Slot<Register>, Slot<Address>),
    Lda(Slot<Address>),
    Psh(Slot<Value>),
    /// `pop inv`: a register.
    Reg(Mnemonic, Slot<Register>),
    Jmp(Slot<Flag>, Slot<Address>),
}

/// An actual argument of a macro call, typed by its form.
#[derive(Clone, Copy, Debug, PartialEq, Eq, Structural)]
pub enum MacroArgument {
    Register(Register),
    Value(Value),
    Address(Address),
    Flag(Flag),
    Instruction(ExpandableInstruction),
    Identifier(Symbol),
}

impl MacroArgument {
    pub open spec fn spec_macro_type(self) -> MacroArgumentType {
        match self {
            MacroArgument::Register(_) => MacroArgumentType::Register,
            MacroArgument::Value(_) => MacroArgumentType::Value,
            MacroArgument::Address(_) => MacroArgumentType::Address,
            MacroArgument::Flag(_) => MacroArgumentType::Flag,
            MacroArgument::Instruction(_) => MacroArgumentType::Instruction,
            MacroArgument::Identifier(_) => MacroArgumentType::Identifier,
        }
    }

    /// The type of this argument.
    pub fn macro_type(&self) -> (r: MacroArgumentType)
        ensures
            r == self.spec_macro_type(),
    {
        match self {
            MacroArgument::Register(_) => MacroArgumentType::Register,
            MacroArgument::Value(_) => MacroArgumentType::Value,
            MacroArgument::Address(_) => MacroArgumentType::Address,
            MacroArgument::Flag(_) => MacroArgumentType::Flag,
            MacroArgument::Instruction(_) => MacroArgumentType::Instruction,
            MacroArgument::Identifier(_) => MacroArgumentType::Identifier,
        }
    }
}

/// `!name arg…`
pub struct MacroCall {
    pub name: Symbol,
    pub arguments: Vec<Slot<MacroArgument>>,
}

/// An item of a program or of a macro body.
pub enum MacroInstruction {
    Instruction(ExpandableInstruction),
    /// `@name:`
    Label(Symbol),
    Call(MacroCall),
    /// `$name` on a line of its own: the instruction bound to a parameter.
    Argument(Symbol),
}

/// What a `MacroInstruction` holds.
pub ghost enum MacroItem {
    Instruction(ExpandableInstruction),
    Label(Symbol),
    Call(Symbol, Seq<Slot<MacroArgument>>),
    Argument(Symbol),
}

impl View for MacroInstruction {
    type V = MacroItem;

    open spec fn view(&self) -> MacroItem {
        match self {
            MacroInstruction::Instruction(i) => MacroItem::Instruction(*i),
            MacroInstruction::Label(s) => MacroItem::Label(*s),
            MacroInstruction::Call(c) => MacroItem::Call(c.name, c.arguments@),
            MacroInstruction::Argument(p) => MacroItem::Argument(*p),
        }
    }
}

pub open spec fn items_view(v: Seq<MacroInstruction>) -> Seq<MacroItem> {
    v.map_values(|m: MacroInstruction| m@)
}

/// A typed parameter `$name:type`.
#[derive(Clone, Copy, Debug, PartialEq, Eq, Structural)]
pub struct Parameter {
    pub name: Symbol,
    pub kind: MacroArgumentType,
}

/// `macro name $p:type… { body }`
pub struct Macro {
    pub name: Symbol,
    pub parameters: Vec<Parameter>,
    pub body: Vec<MacroInstruction>,
}

/// What a `Macro` holds.
pub ghost struct MacroModel {
    pub name: Symbol,
    pub parameters: Seq<Parameter>,
    pub body: Seq<MacroItem>,
}

impl View for Macro {
    type V = MacroModel;

    open spec fn view(&self) -> MacroModel {
        MacroModel { name: self.name, parameters: self.parameters@, body: items_view(self.body@) }
    }
}

pub open spec fn macros_view(v: Seq<Macro>) -> Seq<MacroModel> {
    v.map_values(|m: Macro| m@)
}

/// A parsed program: its macro definitions and its items in source order,
/// with the symbol table their names point into.
pub struct ExpandableProgram {
    pub macros: Vec<Macro>,
    pub items: Vec<MacroInstruction>,
    pub names: Vec<Vec<u8>>,
}

} // verus!
