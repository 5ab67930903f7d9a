use vyn::bytecode::{decode_opcode, read_uint16, read_uint32, read_uint8, OpCode, ToOpcode};

#[test]
fn make_encodes_big_endian_operands() {
    assert_eq!(OpCode::make(OpCode::LoadConstInt, vec![2, 0x0304]), vec![0x03, 0x02, 0x03, 0x04]);
    assert_eq!(OpCode::make(OpCode::Halt, vec![]), vec![0x01]);
    assert_eq!(OpCode::make(OpCode::JumpUncond, vec![0xABCD]), vec![0x53, 0xAB, 0xCD]);
    assert_eq!(
        OpCode::make(OpCode::ArrayNewFixed, vec![1, 0x01020304]),
        vec![0x54, 0x01, 0x01, 0x02, 0x03, 0x04]
    );
}

#[test]
fn operands_are_cut_to_their_width() {
    assert_eq!(OpCode::make(OpCode::LoadNil, vec![0x1FF]), vec![0x06, 0xFF]);
    assert_eq!(OpCode::make(OpCode::JumpUncond, vec![0x12345]), vec![0x53, 0x23, 0x45]);
}

#[test]
fn missing_operands_are_zero() {
    assert_eq!(OpCode::make(OpCode::AddInt, vec![7]), vec![0x10, 0x07, 0x00, 0x00]);
}

#[test]
fn read_back_what_make_wrote() {
    let code = OpCode::make(OpCode::ArraySet, vec![9, 0xDEADBEEF, 4]);
    assert_eq!(read_uint8(&code, 1), 9);
    assert_eq!(read_uint32(&code, 2), 0xDEADBEEF);
    assert_eq!(read_uint8(&code, 6), 4);
    let code = OpCode::make(OpCode::LoadGlobal, vec![3, 0xBEEF]);
    assert_eq!(read_uint16(&code, 2), 0xBEEF);
}

#[test]
fn change_operand_rewrites_only_operands() {
    let mut code = OpCode::make(OpCode::Halt, vec![]);
    code.extend(OpCode::make(OpCode::JumpIfFalse, vec![5, 0]));
    code.extend(OpCode::make(OpCode::Halt, vec![]));
    OpCode::change_operand(&mut code, 1, vec![6, 0x0102]);
    assert_eq!(code, vec![0x01, 0x52, 0x06, 0x01, 0x02, 0x01]);
}

#[test]
fn opcode_bytes_round_trip() {
    let all = [
        OpCode::Halt,
        OpCode::LoadConstInt,
        OpCode::LoadString,
        OpCode::AddInt,
        OpCode::ConcatString,
        OpCode::NegateFloat,
        OpCode::GreaterEqualFloat,
        OpCode::NotEqual,
        OpCode::StoreGlobal,
        OpCode::LoadGlobal,
        OpCode::Move,
        OpCode::JumpUncond,
        OpCode::ArrayPush,
    ];
    for op in all {
        let b = op.to_byte();
        assert_eq!(decode_opcode(b), Some(op));
        assert_eq!(b.to_opcode(), op);
        assert_eq!(u8::from(op), b);
    }
    assert_eq!(decode_opcode(0x00), None);
    assert_eq!(decode_opcode(0x02), None);
    assert_eq!(decode_opcode(0xFF), None);
}

#[test]
fn definitions_name_and_width() {
    let d = OpCode::get_definition(OpCode::LoadConstInt);
    assert_eq!(d.name, "LOAD_CONST_INT");
    assert_eq!(d.operands_width, vec![1, 2]);
    let d = OpCode::get_definition(OpCode::SubtractInt);
    assert_eq!(d.name, "SUB_INT");
    assert_eq!(d.operands_width, vec![1, 1, 1]);
    let d = OpCode::get_definition(OpCode::ArraySet);
    assert_eq!(d.operands_width, vec![1, 4, 1]);
    assert_eq!(OpCode::get_definition(OpCode::Halt).operands_width.len(), 0);
}
