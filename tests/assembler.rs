use asm8::assembler::{assemble, AssembleError};
use asm8::encoder::{EncodeError, RelativeProgram};
use asm8::expander::ExpandError;
use asm8::isa::{Address, Flag, Instruction, Register, Value};
use asm8::lexer::{lex, LexErrorKind, Mnemonic, Token};
use asm8::macros::MacroArgumentType;
use asm8::parser::ParseErrorKind;

#[test]
fn nop_assembles_to_zero() {
    assert_eq!(assemble("nop\n").unwrap(), vec![0x00]);
}

#[test]
fn mov_literal() {
    assert_eq!(assemble("mov reg0 5\n").unwrap(), vec![0x18, 0x05]);
}

#[test]
fn mov_register() {
    assert_eq!(assemble("mov reg0 reg1\n").unwrap(), vec![0x10, 0x01]);
}

#[test]
fn lda_hl_and_literal() {
    assert_eq!(assemble("lda HL\n").unwrap(), vec![0x40]);
    assert_eq!(assemble("lda 258\n").unwrap(), vec![0x48, 0x01, 0x02]);
}

#[test]
fn label_resolves_to_offset() {
    assert_eq!(
        assemble("@loop:\nnop\njmp halt @loop\n").unwrap(),
        vec![0x00, 0x78, 0x00, 0x00]
    );
}

#[test]
fn forward_label_reference() {
    // jmp at 0 (3 bytes), nop at 3, label at 4
    assert_eq!(
        assemble("jmp carry @end\nnop\n@end:\nnop\n").unwrap(),
        vec![0x79, 0x00, 0x04, 0x00, 0x00]
    );
}

#[test]
fn label_offset_high_byte() {
    // 130 two-byte instructions put the label at 260 = 0x0104
    let mut src = String::new();
    for _ in 0..130 {
        src.push_str("mov reg0 1\n");
    }
    src.push_str("@far:\njmp equal @far\n");
    let image = assemble(&src).unwrap();
    assert_eq!(image.len(), 263);
    assert_eq!(&image[260..], &[0x7D, 0x01, 0x04]);
}

#[test]
fn every_opcode_and_size() {
    let src = "nop\nmov reg1 -1\nldw reg2 HL\nldw reg2 16\nstw reg3 HL\nstw reg3 17\nlda 1\npsh 9\npsh reg4\npop reg5\njmp flag3 HL\nadd reg6 1\nsub reg7 2\nand reg0 3\nor reg1 4\ninv reg2\ncmp reg3 5\nshl reg4 6\nshr reg5 7\n";
    let image = assemble(src).unwrap();
    assert_eq!(
        image,
        vec![
            0x00, 0x19, 0xFF, 0x22, 0x2A, 0x00, 0x10, 0x33, 0x3B, 0x00, 0x11, 0x48, 0x00, 0x01,
            0x58, 0x09, 0x50, 0x04, 0x65, 0x73, 0x8E, 0x01, 0x9F, 0x02, 0xA8, 0x03, 0xB9, 0x04,
            0xC2, 0xDB, 0x05, 0xEC, 0x06, 0xFD, 0x07,
        ]
    );
}

#[test]
fn register_and_flag_aliases() {
    assert_eq!(
        assemble("mov high low\nmov pc_high pc_low\nmov stack_ptr flag\n").unwrap(),
        vec![0x12, 0x03, 0x14, 0x05, 0x16, 0x07]
    );
    assert_eq!(
        assemble("jmp halt HL\njmp carry HL\njmp borrow HL\njmp overflow HL\njmp less HL\njmp equal HL\njmp flag7 HL\n")
            .unwrap(),
        vec![0x70, 0x71, 0x72, 0x73, 0x74, 0x75, 0x77]
    );
}

#[test]
fn comments_and_blank_lines_are_ignored() {
    assert_eq!(
        assemble("# a comment\n\n   nop   # trailing\n\n").unwrap(),
        vec![0x00]
    );
}

#[test]
fn assembling_twice_gives_identical_images() {
    let src = "@a:\nmov reg0 5\nadd reg0 reg2\njmp halt @a\n";
    let first = assemble(src).unwrap();
    let second = assemble(src).unwrap();
    assert_eq!(first, second);
}

#[test]
fn macro_with_typed_parameters() {
    let src = "macro twice $r:register $v:value {\nadd $r $v\nadd $r $v\n}\n!twice reg0 3\n";
    assert_eq!(assemble(src).unwrap(), vec![0x88, 0x03, 0x88, 0x03]);
}

#[test]
fn macro_forward_reference_and_instruction_argument() {
    let src = "!wrap mov reg1 2\nmacro wrap $body:instruction {\nnop\n$body\n}\n";
    assert_eq!(assemble(src).unwrap(), vec![0x00, 0x19, 0x02]);
}

#[test]
fn nested_macro_calls() {
    let src = "macro inc $r:register {\nadd $r 1\n}\nmacro inc2 $r:register {\n!inc $r\n!inc $r\n}\n!inc2 reg3\n";
    assert_eq!(assemble(src).unwrap(), vec![0x8B, 0x01, 0x8B, 0x01]);
}

#[test]
fn macro_address_and_flag_parameters() {
    let src = "macro go $f:flag $a:address {\njmp $f $a\n}\n@top:\n!go less @top\n!go equal HL\n!go carry 300\n";
    assert_eq!(
        assemble(src).unwrap(),
        vec![0x7C, 0x00, 0x00, 0x75, 0x79, 0x01, 0x2C]
    );
}

#[test]
fn undefined_macro() {
    match assemble("!missing\n") {
        Err(AssembleError::Expand(ExpandError::UndefinedMacro(_))) => {}
        other => panic!("unexpected {:?}", other),
    }
}

#[test]
fn duplicate_macro() {
    match assemble("macro m {\nnop\n}\nmacro m {\nnop\n}\n") {
        Err(AssembleError::Expand(ExpandError::DuplicateMacro(_))) => {}
        other => panic!("unexpected {:?}", other),
    }
}

#[test]
fn arity_mismatch() {
    match assemble("macro m $r:register {\ninv $r\n}\n!m\n") {
        Err(AssembleError::Expand(ExpandError::ArityMismatch { expected: 1, found: 0, .. })) => {}
        other => panic!("unexpected {:?}", other),
    }
}

#[test]
fn register_parameter_refuses_a_value() {
    match assemble("macro m $r:register {\ninv $r\n}\n!m 5\n") {
        Err(AssembleError::Expand(ExpandError::WrongArgumentType {
            expected: MacroArgumentType::Register,
            found: MacroArgumentType::Value,
        })) => {}
        other => panic!("unexpected {:?}", other),
    }
}

#[test]
fn parameter_used_in_the_wrong_place() {
    match assemble("macro m $v:value {\ninv $v\n}\n!m 5\n") {
        Err(AssembleError::Expand(ExpandError::WrongArgumentType {
            expected: MacroArgumentType::Register,
            found: MacroArgumentType::Value,
        })) => {}
        other => panic!("unexpected {:?}", other),
    }
}

#[test]
fn unknown_argument() {
    match assemble("inv $r\n") {
        Err(AssembleError::Expand(ExpandError::UnknownArgument(_))) => {}
        other => panic!("unexpected {:?}", other),
    }
}

#[test]
fn recursive_macro_hits_the_depth_limit() {
    match assemble("macro r {\n!r\n}\n!r\n") {
        Err(AssembleError::Expand(ExpandError::DepthExceeded)) => {}
        other => panic!("unexpected {:?}", other),
    }
}

#[test]
fn unknown_label() {
    match assemble("jmp halt @nowhere\n") {
        Err(AssembleError::Encode(EncodeError::UnknownLabel(_))) => {}
        other => panic!("unexpected {:?}", other),
    }
}

#[test]
fn duplicate_label() {
    match assemble("@a:\nnop\n@a:\nnop\n") {
        Err(AssembleError::Encode(EncodeError::DuplicateLabel(_))) => {}
        other => panic!("unexpected {:?}", other),
    }
}

#[test]
fn unreferenced_label_is_allowed() {
    assert_eq!(assemble("@unused:\nnop\n").unwrap(), vec![0x00]);
}

#[test]
fn value_literal_out_of_range() {
    match assemble("mov reg0 200\n") {
        Err(AssembleError::Parse(e)) => assert_eq!(e.kind, ParseErrorKind::LiteralOutOfRange),
        other => panic!("unexpected {:?}", other),
    }
    assert_eq!(assemble("mov reg0 -128\n").unwrap(), vec![0x18, 0x80]);
}

#[test]
fn address_literal_out_of_range() {
    match assemble("lda 65536\n") {
        Err(AssembleError::Parse(e)) => assert_eq!(e.kind, ParseErrorKind::LiteralOutOfRange),
        other => panic!("unexpected {:?}", other),
    }
    assert_eq!(assemble("lda 65535\n").unwrap(), vec![0x48, 0xFF, 0xFF]);
}

#[test]
fn missing_operand() {
    match assemble("mov reg0\n") {
        Err(AssembleError::Parse(e)) => {
            assert_eq!(e.kind, ParseErrorKind::ExpectedValue);
            assert_eq!(e.at, 2);
        }
        other => panic!("unexpected {:?}", other),
    }
}

#[test]
fn extra_operand() {
    match assemble("nop reg0\n") {
        Err(AssembleError::Parse(e)) => assert_eq!(e.kind, ParseErrorKind::ExpectedEndOfLine),
        other => panic!("unexpected {:?}", other),
    }
}

#[test]
fn unclosed_macro() {
    match assemble("macro m {\nnop\n") {
        Err(AssembleError::Parse(e)) => assert_eq!(e.kind, ParseErrorKind::UnclosedMacro),
        other => panic!("unexpected {:?}", other),
    }
}

#[test]
fn malformed_register_and_flag() {
    match assemble("inv reg8\n") {
        Err(AssembleError::Lex(e)) => {
            assert_eq!(e.kind, LexErrorKind::MalformedRegister);
            assert_eq!(e.offset, 4);
        }
        other => panic!("unexpected {:?}", other),
    }
    match assemble("jmp flag12 HL\n") {
        Err(AssembleError::Lex(e)) => assert_eq!(e.kind, LexErrorKind::MalformedFlag),
        other => panic!("unexpected {:?}", other),
    }
}

#[test]
fn unrecognized_token() {
    match assemble("nop\n%%\n") {
        Err(AssembleError::Lex(e)) => {
            assert_eq!(e.kind, LexErrorKind::Unrecognized);
            assert_eq!(e.offset, 4);
        }
        other => panic!("unexpected {:?}", other),
    }
}

#[test]
fn unknown_parameter_type() {
    match assemble("macro m $x:thing {\n}\n") {
        Err(AssembleError::Lex(e)) => assert_eq!(e.kind, LexErrorKind::UnknownType),
        other => panic!("unexpected {:?}", other),
    }
}

#[test]
fn lexer_tokens_and_symbols() {
    let t = lex("@top:\nmov reg3 -7 # x\njmp less @top\n!m $a $b:flag\n").ok().unwrap();
    assert_eq!(
        t.vector,
        vec![
            Token::LabelDef(0),
            Token::Newline,
            Token::Mnemonic(Mnemonic::Mov),
            Token::Register(3),
            Token::Number(-7),
            Token::Newline,
            Token::Mnemonic(Mnemonic::Jmp),
            Token::Flag(4),
            Token::LabelRef(0),
            Token::Newline,
            Token::Call(1),
            Token::ArgRef(2),
            Token::ArgDecl(3, MacroArgumentType::Flag),
            Token::Newline,
        ]
    );
    assert_eq!(t.offsets, vec![0, 5, 6, 10, 15, 21, 22, 26, 31, 35, 36, 39, 42, 49]);
    assert_eq!(t.names, vec![b"top".to_vec(), b"m".to_vec(), b"a".to_vec(), b"b".to_vec()]);
}

#[test]
fn huge_number_saturates_and_is_rejected() {
    let t = lex("99999999999").ok().unwrap();
    assert_eq!(t.vector, vec![Token::Number(1000000)]);
}

#[test]
fn token_checkpoints() {
    let mut t = lex("nop nop nop").ok().unwrap();
    t.push();
    assert_eq!(t.next(), Some(Token::Mnemonic(Mnemonic::Nop)));
    assert_eq!(t.next(), Some(Token::Mnemonic(Mnemonic::Nop)));
    t.pop();
    assert_eq!(t.i, 0);
    t.push();
    t.next();
    t.spop();
    assert_eq!(t.i, 1);
    assert!(t.indices.is_empty());
}

#[test]
fn layout_size_equals_image_length() {
    let p = RelativeProgram {
        instructions: vec![
            Instruction::Label(0),
            Instruction::Mov(Register(0), Value::Literal(5)),
            Instruction::Ldw(Register(1), Address::Literal(7)),
            Instruction::Label(1),
            Instruction::Jmp(Flag(0), Address::Label(1)),
            Instruction::Pop(Register(2)),
        ],
    };
    let layout = p.layout().ok().unwrap();
    assert_eq!(layout.size, 9);
    assert_eq!(layout.labels, vec![(0, 0), (1, 5)]);
    let image = p.emit(&layout.labels).unwrap();
    assert_eq!(image.len(), layout.size);
    assert_eq!(image, vec![0x18, 0x05, 0x29, 0x00, 0x07, 0x78, 0x00, 0x05, 0x62]);
    assert_eq!(p.encode().unwrap(), image);
}

#[test]
fn instruction_sizes_follow_the_table() {
    let cases = [
        (Instruction::Nop, 1),
        (Instruction::Mov(Register(0), Value::Register(Register(1))), 2),
        (Instruction::Ldw(Register(0), Address::HL), 1),
        (Instruction::Stw(Register(0), Address::Literal(3)), 3),
        (Instruction::Lda(Address::Label(0)), 3),
        (Instruction::Psh(Value::Literal(1)), 2),
        (Instruction::Pop(Register(0)), 1),
        (Instruction::Jmp(Flag(0), Address::HL), 1),
        (Instruction::Inv(Register(0)), 1),
        (Instruction::Shr(Register(0), Value::Literal(1)), 2),
        (Instruction::Label(0), 0),
    ];
    for (i, n) in cases {
        assert_eq!(i.size(), n);
    }
}

#[test]
fn field_out_of_range_is_an_encode_error() {
    let p = RelativeProgram { instructions: vec![Instruction::Inv(Register(9))] };
    assert_eq!(p.encode(), Err(EncodeError::FieldOutOfRange));
}

#[test]
fn image_too_large() {
    let p = RelativeProgram {
        instructions: vec![Instruction::Lda(Address::Literal(0)); 21846],
    };
    assert_eq!(p.encode(), Err(EncodeError::ImageTooLarge));
}

#[test]
fn line_and_column_of_an_offset() {
    let src = "nop\n  mov reg0 5\n\nx";
    assert_eq!(asm8::lexer::position(src, 0), (1, 1));
    assert_eq!(asm8::lexer::position(src, 6), (2, 3));
    assert_eq!(asm8::lexer::position(src, 16), (2, 13));
    assert_eq!(asm8::lexer::position(src, 17), (3, 1));
    assert_eq!(asm8::lexer::position(src, 18), (4, 1));
}
