use asm8::assembler::assemble;
use asm8::emulator::{Computer, EmuError};
use asm8::isa::{FLAG_BORROW, FLAG_CARRY, FLAG_EQUAL, FLAG_HALT, FLAG_LESS};

fn machine(src: &str) -> Computer {
    Computer::load(&assemble(src).unwrap())
}

#[test]
fn nop_advances_pc_by_one() {
    let mut c = Computer::load(&[0x00]);
    assert_eq!(c.pc(), 0);
    c.step().unwrap();
    assert_eq!(c.pc(), 1);
}

#[test]
fn preset_halt_stops_before_the_first_step() {
    let mut c = Computer::load(&[0x00]);
    c.set_flag(FLAG_HALT, true);
    assert_eq!(c.run(10), Ok(0));
    assert_eq!(c.pc(), 0);
}

#[test]
fn mov_mov_add() {
    let mut c = Computer::load(&[0x18, 0x05, 0x1A, 0x07, 0x80, 0x02]);
    assert_eq!(c.run(3), Ok(3));
    assert_eq!(c.reg8(0), 12);
    assert_eq!(c.reg8(2), 7);
    assert!(!c.flag(FLAG_CARRY));
    assert_eq!(c.pc(), 6);
}

#[test]
fn pc_advances_by_instruction_size() {
    let mut c = machine("ldw reg0 300\nstw reg1 HL\npsh 4\nlda HL\n");
    c.step().unwrap();
    assert_eq!(c.pc(), 3);
    c.step().unwrap();
    assert_eq!(c.pc(), 4);
    c.step().unwrap();
    assert_eq!(c.pc(), 6);
    c.step().unwrap();
    assert_eq!(c.pc(), 7);
}

#[test]
fn add_sets_carry_on_signed_overflow() {
    let mut c = machine("mov reg0 100\nadd reg0 100\n");
    c.run(2).unwrap();
    assert_eq!(c.reg8(0), 200);
    assert!(c.flag(FLAG_CARRY));
}

#[test]
fn add_negative_without_overflow() {
    let mut c = machine("mov reg0 -3\nadd reg0 5\n");
    c.run(2).unwrap();
    assert_eq!(c.reg8(0), 2);
    assert!(!c.flag(FLAG_CARRY));
}

#[test]
fn sub_sets_borrow_on_signed_overflow() {
    let mut c = machine("mov reg0 -100\nsub reg0 100\n");
    c.run(2).unwrap();
    assert_eq!(c.reg8(0), 56);
    assert!(c.flag(FLAG_BORROW));
    let mut d = machine("mov reg0 3\nsub reg0 5\n");
    d.run(2).unwrap();
    assert_eq!(d.reg8(0), 254);
    assert!(!d.flag(FLAG_BORROW));
}

#[test]
fn bitwise_operations() {
    let mut c = machine("mov reg0 12\nand reg0 10\nmov reg1 12\nor reg1 3\nmov reg2 15\ninv reg2\n");
    c.run(6).unwrap();
    assert_eq!(c.reg8(0), 8);
    assert_eq!(c.reg8(1), 15);
    assert_eq!(c.reg8(2), 0xF0);
}

#[test]
fn shifts() {
    let mut c = machine("mov reg0 -127\nshl reg0 1\nmov reg1 -128\nshr reg1 7\nmov reg2 1\nshl reg2 8\nmov reg3 -1\nshr reg3 9\n");
    c.run(8).unwrap();
    assert_eq!(c.reg8(0), 0x02);
    assert_eq!(c.reg8(1), 0x01);
    assert_eq!(c.reg8(2), 0);
    assert_eq!(c.reg8(3), 0);
}

#[test]
fn cmp_is_unsigned() {
    let mut c = machine("mov reg0 -1\ncmp reg0 1\n");
    c.run(2).unwrap();
    assert!(!c.flag(FLAG_LESS));
    assert!(!c.flag(FLAG_EQUAL));
    let mut d = machine("mov reg0 1\ncmp reg0 -1\n");
    d.run(2).unwrap();
    assert!(d.flag(FLAG_LESS));
    let mut e = machine("mov reg0 7\ncmp reg0 7\n");
    e.run(2).unwrap();
    assert!(e.flag(FLAG_EQUAL));
    assert!(!e.flag(FLAG_LESS));
}

#[test]
fn load_and_store() {
    let mut c = machine("mov reg0 42\nstw reg0 1000\nldw reg1 1000\nmov high 3\nmov low -24\nstw reg0 HL\nldw reg2 HL\nlda 1000\n");
    c.run(8).unwrap();
    assert_eq!(c.ram8(1000), 42);
    assert_eq!(c.reg8(1), 42);
    // lda 1000 then loads RAM[1000] and RAM[1001] into HIGH and LOW
    assert_eq!(c.address(), 42 * 256);
}

#[test]
fn push_and_pop() {
    let mut c = machine("psh 9\npsh 8\npop reg0\npop reg1\n");
    c.run(2).unwrap();
    assert_eq!(c.stack_ptr(), 2);
    assert_eq!(c.stack8(0), 9);
    assert_eq!(c.stack8(1), 8);
    c.run(2).unwrap();
    assert_eq!(c.reg8(0), 8);
    assert_eq!(c.reg8(1), 9);
    assert_eq!(c.stack_ptr(), 0);
}

#[test]
fn pop_on_empty_stack_wraps() {
    let mut c = machine("pop reg0\npsh 5\n");
    c.step().unwrap();
    assert_eq!(c.stack_ptr(), 255);
    c.step().unwrap();
    assert_eq!(c.stack8(255), 5);
    assert_eq!(c.stack_ptr(), 0);
}

#[test]
fn jump_taken_and_not_taken() {
    let mut c = machine("jmp carry @skip\nnop\n@skip:\nnop\n");
    c.step().unwrap();
    assert_eq!(c.pc(), 3);
    c.set_pc(0);
    c.set_flag(FLAG_CARRY, true);
    c.step().unwrap();
    assert_eq!(c.pc(), 4);
}

#[test]
fn program_that_halts_itself() {
    let mut c = machine("mov reg0 0\n@loop:\nadd reg0 1\ncmp reg0 5\njmp less @loop\nmov flag 1\n");
    let steps = c.run(1000).unwrap();
    assert!(c.flag(FLAG_HALT));
    assert_eq!(c.reg8(0), 5);
    assert_eq!(steps, 1 + 5 * 3 + 1);
}

#[test]
fn reserved_patterns_are_refused() {
    for word in [0x01u8, 0x41, 0x51, 0x68, 0xC8] {
        let mut c = Computer::load(&[word]);
        assert_eq!(c.step(), Err(EmuError::UnknownOpcode { pc: 0, word }));
        assert_eq!(c.pc(), 0);
    }
}

#[test]
fn pc_wraps_at_the_end_of_ram() {
    let mut c = Computer::load(&[]);
    c.set_pc(0xFFFF);
    c.step().unwrap();
    assert_eq!(c.pc(), 0);
}

#[test]
fn image_is_loaded_at_offset_zero() {
    let c = Computer::load(&[1, 2, 3]);
    assert_eq!(c.ram8(0), 1);
    assert_eq!(c.ram8(2), 3);
    assert_eq!(c.ram8(3), 0);
    for r in 0..8 {
        assert_eq!(c.reg8(r), 0);
    }
}

#[test]
fn same_source_runs_to_the_same_state() {
    let src = "mov reg0 3\n@l:\nsub reg0 1\npsh reg0\ncmp reg0 0\njmp equal @end\ncmp reg0 9\njmp less @l\n@end:\nmov flag 1\n";
    let mut a = machine(src);
    let mut b = machine(src);
    let steps_a = a.run(500).unwrap();
    let steps_b = b.run(500).unwrap();
    assert_eq!(steps_a, steps_b);
    for r in 0..8 {
        assert_eq!(a.reg8(r), b.reg8(r));
    }
    for i in 0..=255u8 {
        assert_eq!(a.stack8(i), b.stack8(i));
    }
    assert_eq!(a.stack8(0), 2);
    assert_eq!(a.stack8(2), 0);
    assert!(a.flag(FLAG_HALT));
}
