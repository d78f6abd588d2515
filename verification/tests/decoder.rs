use nasko::instructions::{Instruction, OpCode};

#[test]
fn bytes_decode_in_order() {
    let expected = [
        OpCode::Halt,
        OpCode::Load,
        OpCode::Add,
        OpCode::Sub,
        OpCode::Mul,
        OpCode::Div,
        OpCode::Eq,
        OpCode::Neq,
        OpCode::Jmp,
        OpCode::JmpF,
        OpCode::JmpB,
        OpCode::Gt,
        OpCode::Gte,
        OpCode::Lt,
        OpCode::Lte,
    ];
    for (byte, op) in expected.iter().enumerate() {
        assert_eq!(OpCode::from(byte as u8), *op);
    }
}

#[test]
fn other_bytes_are_illegal() {
    for byte in 15..=255u8 {
        assert_eq!(OpCode::from(byte), OpCode::Illegal);
    }
}

#[test]
fn operand_widths() {
    assert_eq!(OpCode::Halt.operands(), 0);
    assert_eq!(OpCode::Illegal.operands(), 0);
    for op in [OpCode::Load, OpCode::Add, OpCode::Sub, OpCode::Mul, OpCode::Div] {
        assert_eq!(op.operands(), 3);
    }
    for op in [OpCode::Eq, OpCode::Neq, OpCode::Gt, OpCode::Gte, OpCode::Lt, OpCode::Lte] {
        assert_eq!(op.operands(), 2);
    }
    for op in [OpCode::Jmp, OpCode::JmpF, OpCode::JmpB] {
        assert_eq!(op.operands(), 1);
    }
}

#[test]
fn instruction_holds_its_opcode() {
    assert_eq!(Instruction::new(OpCode::Halt).opcode(), OpCode::Halt);
    assert_eq!(Instruction::new(OpCode::Lte).opcode(), OpCode::Lte);
    assert_eq!(Instruction::new(OpCode::Add), Instruction::new(OpCode::Add));
    assert_ne!(Instruction::new(OpCode::Add), Instruction::new(OpCode::Sub));
}

#[test]
fn instructions_are_equal_exactly_when_their_opcodes_are() {
    for a in 0..=15u8 {
        for b in 0..=15u8 {
            let left = Instruction::new(OpCode::from(a));
            let right = Instruction::new(OpCode::from(b));
            assert_eq!(left == right, a == b, "{} {}", a, b);
        }
    }
}
