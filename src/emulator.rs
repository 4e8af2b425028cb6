//! The emulator: machine state and the fetch–decode–execute loop.
use vstd::prelude::*;
use crate::isa::{FLAG_BORROW, FLAG_CARRY, FLAG_EQUAL, FLAG_HALT, FLAG_LESS, REG_FLAGS, REG_HIGH,
    REG_LOW, REG_PC_HIGH, REG_PC_LOW, REG_STACK_PTR};

verus! {

/// Bytes of RAM.
pub const RAM_SIZE: usize = 65536;
/// Bytes of stack.
pub const STACK_SIZE: usize = 256;

/// Why the machine stopped with an error.
#[derive(Clone, Copy, Debug, PartialEq, Eq, Structural)]
pub enum EmuError {
    /// The first word at `pc` is a reserved pattern.
    UnknownOpcode { pc: u16, word: u8 },
}

/// The abstract machine: eight registers, RAM and stack.
pub ghost struct MachineState {
    pub regs: Seq<u8>,
    pub ram: Seq<u8>,
    pub stack: Seq<u8>,
}

/// The machine: register file, RAM and stack, each owned exclusively.
pub struct Computer {
    registers: Vec<u8>,
    ram: Vec<u8>,
    stack: Vec<u8>,
}

impl View for Computer {
    type V = MachineState;

    closed spec fn view(&self) -> MachineState {
        MachineState { regs: self.registers@, ram: self.ram@, stack: self.stack@ }
    }
}

impl MachineState {
    pub open spec fn wf(self) -> bool {
        self.regs.len() == 8 && self.ram.len() == RAM_SIZE && self.stack.len() == STACK_SIZE
    }
}

/// The 16-bit value of a big-endian register pair.
pub open spec fn pair(hi: u8, lo: u8) -> nat {
    hi as nat * 256 + lo as nat
}

pub open spec fn pc_of(s: MachineState) -> nat {
    pair(s.regs[REG_PC_HIGH as int], s.regs[REG_PC_LOW as int])
}

pub open spec fn hl_of(s: MachineState) -> nat {
    pair(s.regs[REG_HIGH as int], s.regs[REG_LOW as int])
}

/// The RAM byte at an address taken modulo the RAM size.
pub open spec fn ram_at(s: MachineState, a: nat) -> u8 {
    s.ram[(a % RAM_SIZE as nat) as int]
}

pub open spec fn opcode(w: u8) -> u8 {
    w / 16
}

/// The immediate-mode bit, bit 3 of the first word.
pub open spec fn mode(w: u8) -> bool {
    (w / 8) % 2 == 1
}

/// The register or flag field, the low 3 bits of the first word.
pub open spec fn field(w: u8) -> u8 {
    w % 8
}

/// The bytes that the instruction whose first word is `w` occupies.
pub open spec fn op_size(w: u8) -> nat {
    let op = opcode(w);
    if op == 0 || op == 6 || op == 12 {
        1
    } else if op == 2 || op == 3 || op == 4 || op == 7 {
        if mode(w) { 3 } else { 1 }
    } else {
        2
    }
}

/// First words that no instruction encodes to.
pub open spec fn is_reserved(w: u8) -> bool {
    let op = opcode(w);
    (op == 0 && w != 0) || ((op == 4 || op == 5) && field(w) != 0) || ((op == 6 || op == 12) && mode(w))
}

pub open spec fn flag_of(s: MachineState, f: u8) -> bool {
    (s.regs[REG_FLAGS as int] >> f) & 1 == 1
}

pub open spec fn with_reg(s: MachineState, i: int, v: u8) -> MachineState {
    MachineState { regs: s.regs.update(i, v), ..s }
}

pub open spec fn with_pc(s: MachineState, a: nat) -> MachineState {
    with_reg(with_reg(s, REG_PC_HIGH as int, (a / 256) as u8), REG_PC_LOW as int, (a % 256) as u8)
}

pub open spec fn with_flag(s: MachineState, f: u8, b: bool) -> MachineState {
    let r = s.regs[REG_FLAGS as int];
    with_reg(s, REG_FLAGS as int, if b { r | (1u8 << f) } else { r & !(1u8 << f) })
}

pub open spec fn with_ram(s: MachineState, a: nat, v: u8) -> MachineState {
    MachineState { ram: s.ram.update(a as int, v), ..s }
}

/// The state with PC moved past the instruction whose first word is at PC.
pub open spec fn advanced(s: MachineState) -> MachineState {
    with_pc(s, (pc_of(s) + op_size(ram_at(s, pc_of(s)))) % 65536)
}

/// A value operand: the literal byte after the first word, or the register
/// that byte names.
pub open spec fn value_at(s: MachineState, pc: nat, w: u8) -> u8 {
    let b = ram_at(s, pc + 1);
    if mode(w) { b } else { s.regs[(b % 8) as int] }
}

/// An address operand: the two bytes after the first word, big-endian, or `HL`.
pub open spec fn address_at(s: MachineState, pc: nat, w: u8) -> nat {
    if mode(w) { pair(ram_at(s, pc + 1), ram_at(s, pc + 2)) } else { hl_of(s) }
}

/// A byte read as a two's-complement signed number.
pub open spec fn signed(b: u8) -> int {
    if b < 128 { b as int } else { b as int - 256 }
}

pub open spec fn fits_i8(x: int) -> bool {
    -128 <= x <= 127
}

pub open spec fn wrap8(x: int) -> u8 {
    (x % 256) as u8
}

pub open spec fn shifted_left(x: u8, v: u8) -> u8 {
    if v >= 8 { 0 } else { x << v }
}

pub open spec fn shifted_right(x: u8, v: u8) -> u8 {
    if v >= 8 { 0 } else { x >> v }
}

/// What the instruction whose first word `w` stood at `pc` does to `n`, the state in
/// which PC already points past it.
pub open spec fn effect(n: MachineState, pc: nat, w: u8) -> Result<MachineState, EmuError> {
    let r = field(w) as int;
    let x = n.regs[r];
    let v = value_at(n, pc, w);
    let a = address_at(n, pc, w);
    if is_reserved(w) {
        Err(EmuError::UnknownOpcode { pc: pc as u16, word: w })
    } else {
        let op = opcode(w);
        if op == 0 {
            Ok(n)
        } else if op == 1 {
            Ok(with_reg(n, r, v))
        } else if op == 2 {
            Ok(with_reg(n, r, ram_at(n, a)))
        } else if op == 3 {
            Ok(with_ram(n, a, x))
        } else if op == 4 {
            Ok(with_reg(with_reg(n, REG_HIGH as int, ram_at(n, a)), REG_LOW as int, ram_at(n, a + 1)))
        } else if op == 5 {
            let sp = n.regs[REG_STACK_PTR as int];
            let m = MachineState { stack: n.stack.update(sp as int, v), ..n };
            Ok(with_reg(m, REG_STACK_PTR as int, wrap8(sp + 1)))
        } else if op == 6 {
            let sp = wrap8(n.regs[REG_STACK_PTR as int] - 1);
            Ok(with_reg(with_reg(n, REG_STACK_PTR as int, sp), r, n.stack[sp as int]))
        } else if op == 7 {
            if flag_of(n, field(w)) { Ok(with_pc(n, a)) } else { Ok(n) }
        } else if op == 8 {
            Ok(with_flag(with_reg(n, r, wrap8(x + v)), FLAG_CARRY, !fits_i8(signed(x) + signed(v))))
        } else if op == 9 {
            Ok(with_flag(with_reg(n, r, wrap8(x - v)), FLAG_BORROW, !fits_i8(signed(x) - signed(v))))
        } else if op == 10 {
            Ok(with_reg(n, r, x & v))
        } else if op == 11 {
            Ok(with_reg(n, r, x | v))
        } else if op == 12 {
            Ok(with_reg(n, r, !x))
        } else if op == 13 {
            Ok(with_flag(with_flag(n, FLAG_LESS, x < v), FLAG_EQUAL, x == v))
        } else if op == 14 {
            Ok(with_reg(n, r, shifted_left(x, v)))
        } else {
            Ok(with_reg(n, r, shifted_right(x, v)))
        }
    }
}

/// One fetch–decode–execute step.
pub open spec fn step_spec(s: MachineState) -> Result<MachineState, EmuError> {
    effect(advanced(s), pc_of(s), ram_at(s, pc_of(s)))
}

pub open spec fn halted(s: MachineState) -> bool {
    flag_of(s, FLAG_HALT)
}

/// Steps until `HALT` is set or `fuel` steps are done: the final state and the
/// number of steps taken.
pub open spec fn run_spec(s: MachineState, fuel: nat) -> Result<(MachineState, nat), EmuError>
    decreases fuel,
{
    if fuel == 0 || halted(s) {
        Ok((s, 0))
    } else {
        match step_spec(s) {
            Err(e) => Err(e),
            Ok(t) => match run_spec(t, (fuel - 1) as nat) {
                Err(e) => Err(e),
                Ok((u, k)) => Ok((u, k + 1)),
            },
        }
    }
}

/// The state right after boot: zeroed registers and stack, the image at RAM offset 0.
pub open spec fn boot(image: Seq<u8>) -> MachineState {
    MachineState {
        regs: Seq::new(8, |i: int| 0u8),
        ram: Seq::new(RAM_SIZE as nat, |i: int| if i < image.len() { image[i] } else { 0u8 }),
        stack: Seq::new(STACK_SIZE as nat, |i: int| 0u8),
    }
}

fn zeros(n: usize) -> (r: Vec<u8>)
    ensures
        r@ == Seq::new(n as nat, |i: int| 0u8),
{
    let mut v: Vec<u8> = Vec::new();
    while v.len() < n
        invariant
            v@.len() <= n,
            forall|i: int| 0 <= i < v@.len() ==> v@[i] == 0u8,
        decreases n - v@.len(),
    {
        v.push(0);
    }
    assert(v@ =~= Seq::new(n as nat, |i: int| 0u8));
    v
}

fn signed8(b: u8) -> (r: i16)
    ensures
        r == signed(b),
{
    if b < 128 { b as i16 } else { b as i16 - 256 }
}

impl Computer {
    pub open spec fn wf(&self) -> bool {
        self@.wf()
    }

    /// A machine with the image copied into RAM at offset 0 and everything else zero.
    pub fn load(image: &[u8]) -> (r: Computer)
        requires
            image@.len() <= RAM_SIZE,
        ensures
            r.wf(),
            r@ == boot(image@),
    {
        let mut ram: Vec<u8> = Vec::new();
        let mut i: usize = 0;
        while i < RAM_SIZE
            invariant
                image@.len() <= RAM_SIZE,
                i <= RAM_SIZE,
                ram@.len() == i,
                forall|j: int| 0 <= j < i ==> ram@[j] == (if j < image@.len() { image@[j] } else { 0u8 }),
            decreases RAM_SIZE - i,
        {
            if i < image.len() {
                ram.push(image[i]);
            } else {
                ram.push(0);
            }
            i = i + 1;
        }
        let c = Computer { registers: zeros(8), ram, stack: zeros(STACK_SIZE) };
        assert(c@.ram =~= boot(image@).ram);
        c
    }

    pub fn reg8(&self, register: u8) -> (r: u8)
        requires
            self.wf(),
            register < 8,
        ensures
            r == self@.regs[register as int],
    {
        self.registers[register as usize]
    }

    pub fn set_reg8(&mut self, register: u8, value: u8)
        requires
            old(self).wf(),
            register < 8,
        ensures
            final(self).wf(),
            final(self)@ == with_reg(old(self)@, register as int, value),
    {
        self.registers.set(register as usize, value);
    }

    /// The big-endian pair that starts at `register`.
    pub fn reg16(&self, register: u8) -> (r: u16)
        requires
            self.wf(),
            register < 7,
        ensures
            r == pair(self@.regs[register as int], self@.regs[register + 1]),
    {
        self.registers[register as usize] as u16 * 256 + self.registers[register as usize + 1] as u16
    }

    pub fn set_reg16(&mut self, register: u8, value: u16)
        requires
            old(self).wf(),
            register < 7,
        ensures
            final(self).wf(),
            final(self)@ == with_reg(with_reg(old(self)@, register as int, (value / 256) as u8), register + 1, (value % 256) as u8),
    {
        self.set_reg8(register, (value / 256) as u8);
        self.set_reg8(register + 1, (value % 256) as u8);
    }

    pub fn ram8(&self, address: u16) -> (r: u8)
        requires
            self.wf(),
        ensures
            r == self@.ram[address as int],
    {
        self.ram[address as usize]
    }

    pub fn set_ram8(&mut self, address: u16, value: u8)
        requires
            old(self).wf(),
        ensures
            final(self).wf(),
            final(self)@ == with_ram(old(self)@, address as nat, value),
    {
        self.ram.set(address as usize, value);
    }

    /// The RAM byte at `address + offset`, the address wrapping at 2^16.
    fn ram_after(&self, address: u16, offset: u16) -> (r: u8)
        requires
            self.wf(),
            offset <= 2,
        ensures
            r == ram_at(self@, (address + offset) as nat),
    {
        let a: u32 = (address as u32 + offset as u32) % 65536;
        self.ram[a as usize]
    }

    /// The HL address register.
    pub fn address(&self) -> (r: u16)
        requires
            self.wf(),
        ensures
            r == hl_of(self@),
    {
        self.reg16(REG_HIGH)
    }

    pub fn flag(&self, index: u8) -> (r: bool)
        requires
            self.wf(),
            index < 8,
        ensures
            r == flag_of(self@, index),
    {
        (self.reg8(REG_FLAGS) >> index) & 1 == 1
    }

    pub fn set_flag(&mut self, index: u8, value: bool)
        requires
            old(self).wf(),
            index < 8,
        ensures
            final(self).wf(),
            final(self)@ == with_flag(old(self)@, index, value),
    {
        let r = self.reg8(REG_FLAGS);
        if value {
            self.set_reg8(REG_FLAGS, r | (1u8 << index));
        } else {
            self.set_reg8(REG_FLAGS, r & !(1u8 << index));
        }
    }

    pub fn stack_ptr(&self) -> (r: u8)
        requires
            self.wf(),
        ensures
            r == self@.regs[REG_STACK_PTR as int],
    {
        self.reg8(REG_STACK_PTR)
    }

    pub fn set_stack_ptr(&mut self, value: u8)
        requires
            old(self).wf(),
        ensures
            final(self).wf(),
            final(self)@ == with_reg(old(self)@, REG_STACK_PTR as int, value),
    {
        self.set_reg8(REG_STACK_PTR, value)
    }

    pub fn inc_stack_ptr(&mut self)
        requires
            old(self).wf(),
        ensures
            final(self).wf(),
            final(self)@ == with_reg(old(self)@, REG_STACK_PTR as int, wrap8(old(self)@.regs[REG_STACK_PTR as int] + 1)),
    {
        let sp = self.stack_ptr();
        self.set_stack_ptr(((sp as u16 + 1) % 256) as u8)
    }

    pub fn dec_stack_ptr(&mut self)
        requires
            old(self).wf(),
        ensures
            final(self).wf(),
            final(self)@ == with_reg(old(self)@, REG_STACK_PTR as int, wrap8(old(self)@.regs[REG_STACK_PTR as int] - 1)),
    {
        let sp = self.stack_ptr();
        self.set_stack_ptr(((sp as u16 + 255) % 256) as u8)
    }

    pub fn stack8(&self, index: u8) -> (r: u8)
        requires
            self.wf(),
        ensures
            r == self@.stack[index as int],
    {
        self.stack[index as usize]
    }

    pub fn pc(&self) -> (r: u16)
        requires
            self.wf(),
        ensures
            r == pc_of(self@),
    {
        self.reg16(REG_PC_HIGH)
    }

    pub fn set_pc(&mut self, value: u16)
        requires
            old(self).wf(),
        ensures
            final(self).wf(),
            final(self)@ == with_pc(old(self)@, value as nat),
    {
        self.set_reg16(REG_PC_HIGH, value)
    }

    /// The value operand of the instruction whose first word `w` is at `pc`.
    fn op_value8(&self, pc: u16, w: u8) -> (r: u8)
        requires
            self.wf(),
        ensures
            r == value_at(self@, pc as nat, w),
    {
        let b = self.ram_after(pc, 1);
        if (w / 8) % 2 == 1 { b } else { self.reg8(b % 8) }
    }

    /// The address operand of the instruction whose first word `w` is at `pc`.
    fn op_value16(&self, pc: u16, w: u8) -> (r: u16)
        requires
            self.wf(),
        ensures
            r == address_at(self@, pc as nat, w),
    {
        if (w / 8) % 2 == 1 {
            self.ram_after(pc, 1) as u16 * 256 + self.ram_after(pc, 2) as u16
        } else {
            self.address()
        }
    }
}

impl Computer {
    /// `nop` does nothing; PC already points past it.
    fn run_nop(&mut self, pc: u16, w: u8)
        requires
            old(self).wf(),
            opcode(w) == 0,
            !is_reserved(w),
        ensures
            final(self).wf(),
            final(self)@ == effect(old(self)@, pc as nat, w)->Ok_0,
    {

    }

    /// `mov` copies a value into a register; PC already points past it.
    fn run_mov(&mut self, pc: u16, w: u8)
        requires
            old(self).wf(),
            opcode(w) == 1,
            !is_reserved(w),
        ensures
            final(self).wf(),
            final(self)@ == effect(old(self)@, pc as nat, w)->Ok_0,
    {
        let value = self.op_value8(pc, w);
        self.set_reg8(w % 8, value);
    }

    /// `ldw` loads a RAM byte into a register; PC already points past it.
    fn run_ldw(&mut self, pc: u16, w: u8)
        requires
            old(self).wf(),
            opcode(w) == 2,
            !is_reserved(w),
        ensures
            final(self).wf(),
            final(self)@ == effect(old(self)@, pc as nat, w)->Ok_0,
    {
        let a = self.op_value16(pc, w);
        let value = self.ram8(a);
        self.set_reg8(w % 8, value);
    }

    /// `stw` stores a register into RAM; PC already points past it.
    fn run_stw(&mut self, pc: u16, w: u8)
        requires
            old(self).wf(),
            opcode(w) == 3,
            !is_reserved(w),
        ensures
            final(self).wf(),
            final(self)@ == effect(old(self)@, pc as nat, w)->Ok_0,
    {
        let a = self.op_value16(pc, w);
        let value = self.reg8(w % 8);
        self.set_ram8(a, value);
    }

    /// `lda` loads two RAM bytes into `HL`; PC already points past it.
    fn run_lda(&mut self, pc: u16, w: u8)
        requires
            old(self).wf(),
            opcode(w) == 4,
            !is_reserved(w),
        ensures
            final(self).wf(),
            final(self)@ == effect(old(self)@, pc as nat, w)->Ok_0,
    {
        let a = self.op_value16(pc, w);
        let high = self.ram8(a);
        let low = self.ram_after(a, 1);
        self.set_reg8(REG_HIGH, high);
        self.set_reg8(REG_LOW, low);
    }

    /// `psh` pushes a value onto the stack; PC already points past it.
    fn run_psh(&mut self, pc: u16, w: u8)
        requires
            old(self).wf(),
            opcode(w) == 5,
            !is_reserved(w),
        ensures
            final(self).wf(),
            final(self)@ == effect(old(self)@, pc as nat, w)->Ok_0,
    {
        let value = self.op_value8(pc, w);
        let sp = self.stack_ptr();
        self.stack.set(sp as usize, value);
        self.inc_stack_ptr();
    }

    /// `pop` pops the stack into a register; PC already points past it.
    fn run_pop(&mut self, pc: u16, w: u8)
        requires
            old(self).wf(),
            opcode(w) == 6,
            !is_reserved(w),
        ensures
            final(self).wf(),
            final(self)@ == effect(old(self)@, pc as nat, w)->Ok_0,
    {
        self.dec_stack_ptr();
        let value = self.stack8(self.stack_ptr());
        self.set_reg8(w % 8, value);
    }

    /// `jmp` jumps when a flag is set; PC already points past it.
    fn run_jmp(&mut self, pc: u16, w: u8)
        requires
            old(self).wf(),
            opcode(w) == 7,
            !is_reserved(w),
        ensures
            final(self).wf(),
            final(self)@ == effect(old(self)@, pc as nat, w)->Ok_0,
    {
        if self.flag(w % 8) {
            let a = self.op_value16(pc, w);
            self.set_pc(a);
        }
    }

    /// `add` adds a value, `CARRY` telling signed overflow; PC already points past it.
    fn run_add(&mut self, pc: u16, w: u8)
        requires
            old(self).wf(),
            opcode(w) == 8,
            !is_reserved(w),
        ensures
            final(self).wf(),
            final(self)@ == effect(old(self)@, pc as nat, w)->Ok_0,
    {
        let r = w % 8;
        let x = self.reg8(r);
        let v = self.op_value8(pc, w);
        let sum = signed8(x) + signed8(v);
        self.set_reg8(r, ((x as u16 + v as u16) % 256) as u8);
        self.set_flag(FLAG_CARRY, sum < -128 || sum > 127);
    }

    /// `sub` subtracts a value, `BORROW` telling signed overflow; PC already points past it.
    fn run_sub(&mut self, pc: u16, w: u8)
        requires
            old(self).wf(),
            opcode(w) == 9,
            !is_reserved(w),
        ensures
            final(self).wf(),
            final(self)@ == effect(old(self)@, pc as nat, w)->Ok_0,
    {
        let r = w % 8;
        let x = self.reg8(r);
        let v = self.op_value8(pc, w);
        let diff = signed8(x) - signed8(v);
        self.set_reg8(r, ((x as u16 + 256 - v as u16) % 256) as u8);
        self.set_flag(FLAG_BORROW, diff < -128 || diff > 127);
    }

    /// `and` masks a register with a value; PC already points past it.
    fn run_and(&mut self, pc: u16, w: u8)
        requires
            old(self).wf(),
            opcode(w) == 10,
            !is_reserved(w),
        ensures
            final(self).wf(),
            final(self)@ == effect(old(self)@, pc as nat, w)->Ok_0,
    {
        let r = w % 8;
        let x = self.reg8(r);
        let v = self.op_value8(pc, w);
        self.set_reg8(r, x & v);
    }

    /// `or` sets the bits of a value in a register; PC already points past it.
    fn run_or(&mut self, pc: u16, w: u8)
        requires
            old(self).wf(),
            opcode(w) == 11,
            !is_reserved(w),
        ensures
            final(self).wf(),
            final(self)@ == effect(old(self)@, pc as nat, w)->Ok_0,
    {
        let r = w % 8;
        let x = self.reg8(r);
        let v = self.op_value8(pc, w);
        self.set_reg8(r, x | v);
    }

    /// `inv` inverts a register; PC already points past it.
    fn run_inv(&mut self, pc: u16, w: u8)
        requires
            old(self).wf(),
            opcode(w) == 12,
            !is_reserved(w),
        ensures
            final(self).wf(),
            final(self)@ == effect(old(self)@, pc as nat, w)->Ok_0,
    {
        let r = w % 8;
        let x = self.reg8(r);
        self.set_reg8(r, !x);
    }

    /// `cmp` compares a register with a value, unsigned, into `LESS` and `EQUAL`; PC already points past it.
    fn run_cmp(&mut self, pc: u16, w: u8)
        requires
            old(self).wf(),
            opcode(w) == 13,
            !is_reserved(w),
        ensures
            final(self).wf(),
            final(self)@ == effect(old(self)@, pc as nat, w)->Ok_0,
    {
        let x = self.reg8(w % 8);
        let v = self.op_value8(pc, w);
        self.set_flag(FLAG_LESS, x < v);
        self.set_flag(FLAG_EQUAL, x == v);
    }

    /// `shl` shifts a register left; PC already points past it.
    fn run_shl(&mut self, pc: u16, w: u8)
        requires
            old(self).wf(),
            opcode(w) == 14,
            !is_reserved(w),
        ensures
            final(self).wf(),
            final(self)@ == effect(old(self)@, pc as nat, w)->Ok_0,
    {
        let r = w % 8;
        let x = self.reg8(r);
        let v = self.op_value8(pc, w);
        self.set_reg8(r, if v >= 8 { 0 } else { x << v });
    }

    /// `shr` shifts a register right, logically; PC already points past it.
    fn run_shr(&mut self, pc: u16, w: u8)
        requires
            old(self).wf(),
            opcode(w) == 15,
            !is_reserved(w),
        ensures
            final(self).wf(),
            final(self)@ == effect(old(self)@, pc as nat, w)->Ok_0,
    {
        let r = w % 8;
        let x = self.reg8(r);
        let v = self.op_value8(pc, w);
        self.set_reg8(r, if v >= 8 { 0 } else { x >> v });
    }
}

fn op_size_exec(w: u8) -> (r: u16)
    ensures
        r == op_size(w),
{
    let op = w / 16;
    if op == 0 || op == 6 || op == 12 {
        1
    } else if op == 2 || op == 3 || op == 4 || op == 7 {
        if (w / 8) % 2 == 1 { 3 } else { 1 }
    } else {
        2
    }
}

fn is_reserved_exec(w: u8) -> (r: bool)
    ensures
        r == is_reserved(w),
{
    let op = w / 16;
    (op == 0 && w != 0) || ((op == 4 || op == 5) && w % 8 != 0) || ((op == 6 || op == 12) && (w / 8) % 2 == 1)
}

impl Computer {
    /// Executes the instruction at PC. On an error the machine is left unchanged.
    pub fn step(&mut self) -> (r: Result<(), EmuError>)
        requires
            old(self).wf(),
        ensures
            final(self).wf(),
            match step_spec(old(self)@) {
                Ok(t) => r is Ok && final(self)@ == t,
                Err(e) => r == Err::<(), EmuError>(e) && final(self)@ == old(self)@,
            },
    {
        let pc = self.pc();
        let w = self.ram8(pc);
        if is_reserved_exec(w) {
            return Err(EmuError::UnknownOpcode { pc, word: w });
        }
        let next = ((pc as u32 + op_size_exec(w) as u32) % 65536) as u16;
        self.set_pc(next);
        let op = w / 16;
        if op == 0 {
            self.run_nop(pc, w);
        } else if op == 1 {
            self.run_mov(pc, w);
        } else if op == 2 {
            self.run_ldw(pc, w);
        } else if op == 3 {
            self.run_stw(pc, w);
        } else if op == 4 {
            self.run_lda(pc, w);
        } else if op == 5 {
            self.run_psh(pc, w);
        } else if op == 6 {
            self.run_pop(pc, w);
        } else if op == 7 {
            self.run_jmp(pc, w);
        } else if op == 8 {
            self.run_add(pc, w);
        } else if op == 9 {
            self.run_sub(pc, w);
        } else if op == 10 {
            self.run_and(pc, w);
        } else if op == 11 {
            self.run_or(pc, w);
        } else if op == 12 {
            self.run_inv(pc, w);
        } else if op == 13 {
            self.run_cmp(pc, w);
        } else if op == 14 {
            self.run_shl(pc, w);
        } else {
            self.run_shr(pc, w);
        }
        Ok(())
    }

    /// Steps until `HALT` is set, at most `max_steps` times; returns how many
    /// steps ran, or the error of the step that failed.
    pub fn run(&mut self, max_steps: u64) -> (r: Result<u64, EmuError>)
        requires
            old(self).wf(),
        ensures
            final(self).wf(),
            match run_spec(old(self)@, max_steps as nat) {
                Ok((t, k)) => r == Ok::<u64, EmuError>(k as u64) && final(self)@ == t,
                Err(e) => r == Err::<u64, EmuError>(e),
            },
    {
        let mut k: u64 = 0;
        while k < max_steps && !self.flag(FLAG_HALT)
            invariant
                self.wf(),
                k <= max_steps,
                match run_spec(old(self)@, max_steps as nat) {
                    Ok((t, n)) => run_spec(self@, (max_steps - k) as nat) == Ok::<_, EmuError>((t, (n - k) as nat)) && n >= k,
                    Err(e) => run_spec(self@, (max_steps - k) as nat) == Err::<(MachineState, nat), _>(e),
                },
            decreases max_steps - k,
        {
            let ghost before = self@;
            match self.step() {
                Err(e) => {
                    return Err(e);
                },
                Ok(()) => {},
            }
            proof {
                let f = (max_steps - k) as nat;
                assert(run_spec(before, f) == match run_spec(self@, (f - 1) as nat) {
                    Err(e) => Err(e),
                    Ok((u, j)) => Ok::<_, EmuError>((u, j + 1)),
                });
            }
            k = k + 1;
        }
        Ok(k)
    }
}

/// Whether the instruction at PC sets PC itself: a jump that is taken, or a
/// register write whose target is one of the two PC registers.
pub open spec fn writes_pc(s: MachineState) -> bool {
    let w = ram_at(s, pc_of(s));
    let op = opcode(w);
    let r = field(w);
    (op == 7 && flag_of(advanced(s), r)) || ((r == REG_PC_HIGH || r == REG_PC_LOW) && (op == 1
        || op == 2 || op == 6 || op == 8 || op == 9 || op == 10 || op == 11 || op == 12 || op == 14
        || op == 15))
}

proof fn lemma_pair_split(a: nat)
    requires
        a < 65536,
    ensures
        pair((a / 256) as u8, (a % 256) as u8) == a,
{
}

/// An instruction that does not set PC itself advances PC by exactly its size.
pub proof fn lemma_pc_advances(s: MachineState)
    requires
        s.wf(),
        step_spec(s) is Ok,
        !writes_pc(s),
    ensures
        pc_of(step_spec(s)->Ok_0) == (pc_of(s) + op_size(ram_at(s, pc_of(s)))) % 65536,
{
    let a = (pc_of(s) + op_size(ram_at(s, pc_of(s)))) % 65536;
    lemma_pair_split(a);
    assert(pc_of(advanced(s)) == a);
}

} // verus!
