use vstd::prelude::*;
use byteorder::{BigEndian, ByteOrder, LittleEndian};

verus! {

// Opcode byte values. Each opcode is encoded as one byte followed by its
// operands, each operand big-endian in the width its definition gives.
pub const HALT: u8 = 0x01;
pub const LOAD_CONST_INT: u8 = 0x03;
pub const LOAD_CONST_FLOAT: u8 = 0x04;
pub const LOAD_STRING: u8 = 0x05;
pub const LOAD_NIL: u8 = 0x06;
pub const LOAD_TRUE: u8 = 0x07;
pub const LOAD_FALSE: u8 = 0x08;
pub const ADD_INT: u8 = 0x10;
pub const SUBTRACT_INT: u8 = 0x11;
pub const MULTIPLY_INT: u8 = 0x12;
pub const DIVIDE_INT: u8 = 0x13;
pub const EXPONENT_INT: u8 = 0x14;
pub const ADD_FLOAT: u8 = 0x15;
pub const SUBTRACT_FLOAT: u8 = 0x16;
pub const MULTIPLY_FLOAT: u8 = 0x17;
pub const DIVIDE_FLOAT: u8 = 0x18;
pub const EXPONENT_FLOAT: u8 = 0x19;
pub const CONCAT_STRING: u8 = 0x1A;
pub const NEGATE_INT: u8 = 0x20;
pub const NEGATE_FLOAT: u8 = 0x21;
pub const NOT: u8 = 0x22;
pub const LESS_INT: u8 = 0x30;
pub const LESS_EQUAL_INT: u8 = 0x31;
pub const GREATER_INT: u8 = 0x32;
pub const GREATER_EQUAL_INT: u8 = 0x33;
pub const LESS_FLOAT: u8 = 0x34;
pub const LESS_EQUAL_FLOAT: u8 = 0x35;
pub const GREATER_FLOAT: u8 = 0x36;
pub const GREATER_EQUAL_FLOAT: u8 = 0x37;
pub const EQUAL: u8 = 0x38;
pub const NOT_EQUAL: u8 = 0x39;
pub const STORE_GLOBAL: u8 = 0x40;
pub const LOAD_GLOBAL: u8 = 0x41;
pub const MOVE: u8 = 0x50;
pub const LOG_ADDR: u8 = 0x51;
pub const JUMP_IF_FALSE: u8 = 0x52;
pub const JUMP_UNCOND: u8 = 0x53;
pub const ARRAY_NEW_FIXED: u8 = 0x54;
pub const ARRAY_NEW_DYNAMIC: u8 = 0x55;
pub const ARRAY_SET: u8 = 0x56;
pub const ARRAY_SET_REG: u8 = 0x57;
pub const ARRAY_GET: u8 = 0x58;
pub const ARRAY_PUSH: u8 = 0x59;

/// The instructions of the virtual machine.
#[derive(Clone, Copy, Debug, PartialEq, Eq, Structural)]
pub enum OpCode {
    Halt,
    LoadConstInt,
    LoadConstFloat,
    LoadString,
    LoadNil,
    LoadTrue,
    LoadFalse,
    AddInt,
    SubtractInt,
    MultiplyInt,
    DivideInt,
    ExponentInt,
    AddFloat,
    SubtractFloat,
    MultiplyFloat,
    DivideFloat,
    ExponentFloat,
    ConcatString,
    NegateInt,
    NegateFloat,
    Not,
    LessInt,
    LessEqualInt,
    GreaterInt,
    GreaterEqualInt,
    LessFloat,
    LessEqualFloat,
    GreaterFloat,
    GreaterEqualFloat,
    Equal,
    NotEqual,
    StoreGlobal,
    LoadGlobal,
    Move,
    LogAddr,
    JumpIfFalse,
    JumpUncond,
    ArrayNewFixed,
    ArrayNewDynamic,
    ArraySet,
    ArraySetReg,
    ArrayGet,
    ArrayPush,
}

/// The byte that encodes an opcode.
pub open spec fn spec_opcode_byte(op: OpCode) -> u8 {
    match op {
        OpCode::Halt => HALT,
        OpCode::LoadConstInt => LOAD_CONST_INT,
        OpCode::LoadConstFloat => LOAD_CONST_FLOAT,
        OpCode::LoadString => LOAD_STRING,
        OpCode::LoadNil => LOAD_NIL,
        OpCode::LoadTrue => LOAD_TRUE,
        OpCode::LoadFalse => LOAD_FALSE,
        OpCode::AddInt => ADD_INT,
        OpCode::SubtractInt => SUBTRACT_INT,
        OpCode::MultiplyInt => MULTIPLY_INT,
        OpCode::DivideInt => DIVIDE_INT,
        OpCode::ExponentInt => EXPONENT_INT,
        OpCode::AddFloat => ADD_FLOAT,
        OpCode::SubtractFloat => SUBTRACT_FLOAT,
        OpCode::MultiplyFloat => MULTIPLY_FLOAT,
        OpCode::DivideFloat => DIVIDE_FLOAT,
        OpCode::ExponentFloat => EXPONENT_FLOAT,
        OpCode::ConcatString => CONCAT_STRING,
        OpCode::NegateInt => NEGATE_INT,
        OpCode::NegateFloat => NEGATE_FLOAT,
        OpCode::Not => NOT,
        OpCode::LessInt => LESS_INT,
        OpCode::LessEqualInt => LESS_EQUAL_INT,
        OpCode::GreaterInt => GREATER_INT,
        OpCode::GreaterEqualInt => GREATER_EQUAL_INT,
        OpCode::LessFloat => LESS_FLOAT,
        OpCode::LessEqualFloat => LESS_EQUAL_FLOAT,
        OpCode::GreaterFloat => GREATER_FLOAT,
        OpCode::GreaterEqualFloat => GREATER_EQUAL_FLOAT,
        OpCode::Equal => EQUAL,
        OpCode::NotEqual => NOT_EQUAL,
        OpCode::StoreGlobal => STORE_GLOBAL,
        OpCode::LoadGlobal => LOAD_GLOBAL,
        OpCode::Move => MOVE,
        OpCode::LogAddr => LOG_ADDR,
        OpCode::JumpIfFalse => JUMP_IF_FALSE,
        OpCode::JumpUncond => JUMP_UNCOND,
        OpCode::ArrayNewFixed => ARRAY_NEW_FIXED,
        OpCode::ArrayNewDynamic => ARRAY_NEW_DYNAMIC,
        OpCode::ArraySet => ARRAY_SET,
        OpCode::ArraySetReg => ARRAY_SET_REG,
        OpCode::ArrayGet => ARRAY_GET,
        OpCode::ArrayPush => ARRAY_PUSH,
    }
}

/// The opcode a byte encodes, if any.
pub open spec fn spec_byte_opcode(b: u8) -> Option<OpCode> {
    match b {
        0x01u8 => Some(OpCode::Halt),
        0x03u8 => Some(OpCode::LoadConstInt),
        0x04u8 => Some(OpCode::LoadConstFloat),
        0x05u8 => Some(OpCode::LoadString),
        0x06u8 => Some(OpCode::LoadNil),
        0x07u8 => Some(OpCode::LoadTrue),
        0x08u8 => Some(OpCode::LoadFalse),
        0x10u8 => Some(OpCode::AddInt),
        0x11u8 => Some(OpCode::SubtractInt),
        0x12u8 => Some(OpCode::MultiplyInt),
        0x13u8 => Some(OpCode::DivideInt),
        0x14u8 => Some(OpCode::ExponentInt),
        0x15u8 => Some(OpCode::AddFloat),
        0x16u8 => Some(OpCode::SubtractFloat),
        0x17u8 => Some(OpCode::MultiplyFloat),
        0x18u8 => Some(OpCode::DivideFloat),
        0x19u8 => Some(OpCode::ExponentFloat),
        0x1Au8 => Some(OpCode::ConcatString),
        0x20u8 => Some(OpCode::NegateInt),
        0x21u8 => Some(OpCode::NegateFloat),
        0x22u8 => Some(OpCode::Not),
        0x30u8 => Some(OpCode::LessInt),
        0x31u8 => Some(OpCode::LessEqualInt),
        0x32u8 => Some(OpCode::GreaterInt),
        0x33u8 => Some(OpCode::GreaterEqualInt),
        0x34u8 => Some(OpCode::LessFloat),
        0x35u8 => Some(OpCode::LessEqualFloat),
        0x36u8 => Some(OpCode::GreaterFloat),
        0x37u8 => Some(OpCode::GreaterEqualFloat),
        0x38u8 => Some(OpCode::Equal),
        0x39u8 => Some(OpCode::NotEqual),
        0x40u8 => Some(OpCode::StoreGlobal),
        0x41u8 => Some(OpCode::LoadGlobal),
        0x50u8 => Some(OpCode::Move),
        0x51u8 => Some(OpCode::LogAddr),
        0x52u8 => Some(OpCode::JumpIfFalse),
        0x53u8 => Some(OpCode::JumpUncond),
        0x54u8 => Some(OpCode::ArrayNewFixed),
        0x55u8 => Some(OpCode::ArrayNewDynamic),
        0x56u8 => Some(OpCode::ArraySet),
        0x57u8 => Some(OpCode::ArraySetReg),
        0x58u8 => Some(OpCode::ArrayGet),
        0x59u8 => Some(OpCode::ArrayPush),
        _ => None,
    }
}

/// The operand widths (in bytes) of an opcode, in order.
pub open spec fn opcode_widths(op: OpCode) -> Seq<usize> {
    match op {
        OpCode::Halt => Seq::<usize>::empty(),
        OpCode::LoadConstInt => seq![1usize, 2usize],
        OpCode::LoadConstFloat => seq![1usize, 2usize],
        OpCode::LoadString => seq![1usize, 2usize],
        OpCode::LoadNil => seq![1usize],
        OpCode::LoadTrue => seq![1usize],
        OpCode::LoadFalse => seq![1usize],
        OpCode::AddInt => seq![1usize, 1usize, 1usize],
        OpCode::SubtractInt => seq![1usize, 1usize, 1usize],
        OpCode::MultiplyInt => seq![1usize, 1usize, 1usize],
        OpCode::DivideInt => seq![1usize, 1usize, 1usize],
        OpCode::ExponentInt => seq![1usize, 1usize, 1usize],
        OpCode::AddFloat => seq![1usize, 1usize, 1usize],
        OpCode::SubtractFloat => seq![1usize, 1usize, 1usize],
        OpCode::MultiplyFloat => seq![1usize, 1usize, 1usize],
        OpCode::DivideFloat => seq![1usize, 1usize, 1usize],
        OpCode::ExponentFloat => seq![1usize, 1usize, 1usize],
        OpCode::ConcatString => seq![1usize, 1usize, 1usize],
        OpCode::NegateInt => seq![1usize, 1usize],
        OpCode::NegateFloat => seq![1usize, 1usize],
        OpCode::Not => seq![1usize, 1usize],
        OpCode::LessInt => seq![1usize, 1usize, 1usize],
        OpCode::LessEqualInt => seq![1usize, 1usize, 1usize],
        OpCode::GreaterInt => seq![1usize, 1usize, 1usize],
        OpCode::GreaterEqualInt => seq![1usize, 1usize, 1usize],
        OpCode::LessFloat => seq![1usize, 1usize, 1usize],
        OpCode::LessEqualFloat => seq![1usize, 1usize, 1usize],
        OpCode::GreaterFloat => seq![1usize, 1usize, 1usize],
        OpCode::GreaterEqualFloat => seq![1usize, 1usize, 1usize],
        OpCode::Equal => seq![1usize, 1usize, 1usize],
        OpCode::NotEqual => seq![1usize, 1usize, 1usize],
        OpCode::StoreGlobal => seq![2usize, 1usize],
        OpCode::LoadGlobal => seq![1usize, 2usize],
        OpCode::Move => seq![1usize, 1usize],
        OpCode::LogAddr => seq![1usize],
        OpCode::JumpIfFalse => seq![1usize, 2usize],
        OpCode::JumpUncond => seq![2usize],
        OpCode::ArrayNewFixed => seq![1usize, 4usize],
        OpCode::ArrayNewDynamic => seq![1usize, 4usize],
        OpCode::ArraySet => seq![1usize, 4usize, 1usize],
        OpCode::ArraySetReg => seq![1usize, 1usize, 1usize],
        OpCode::ArrayGet => seq![1usize, 1usize, 1usize],
        OpCode::ArrayPush => seq![1usize, 1usize],
    }
}

/// The name an opcode is shown under.
pub open spec fn opcode_name(op: OpCode) -> Seq<char> {
    match op {
        OpCode::Halt => "HALT"@,
        OpCode::LoadConstInt => "LOAD_CONST_INT"@,
        OpCode::LoadConstFloat => "LOAD_CONST_FLOAT"@,
        OpCode::LoadString => "LOAD_STRING"@,
        OpCode::LoadNil => "LOAD_NIL"@,
        OpCode::LoadTrue => "LOAD_TRUE"@,
        OpCode::LoadFalse => "LOAD_FALSE"@,
        OpCode::AddInt => "ADD_INT"@,
        OpCode::SubtractInt => "SUB_INT"@,
        OpCode::MultiplyInt => "MUL_INT"@,
        OpCode::DivideInt => "DIV_INT"@,
        OpCode::ExponentInt => "EXP_INT"@,
        OpCode::AddFloat => "ADD_FLOAT"@,
        OpCode::SubtractFloat => "SUB_FLOAT"@,
        OpCode::MultiplyFloat => "MUL_FLOAT"@,
        OpCode::DivideFloat => "DIV_FLOAT"@,
        OpCode::ExponentFloat => "EXP_FLOAT"@,
        OpCode::ConcatString => "CONCAT_STRING"@,
        OpCode::NegateInt => "NEGATE_INT"@,
        OpCode::NegateFloat => "NEGATE_FLOAT"@,
        OpCode::Not => "NOT"@,
        OpCode::LessInt => "LESS_INT"@,
        OpCode::LessEqualInt => "LESS_EQUAL_INT"@,
        OpCode::GreaterInt => "GREATER_INT"@,
        OpCode::GreaterEqualInt => "GREATER_EQUAL_INT"@,
        OpCode::LessFloat => "LESS_FLOAT"@,
        OpCode::LessEqualFloat => "LESS_EQUAL_FLOAT"@,
        OpCode::GreaterFloat => "GREATER_FLOAT"@,
        OpCode::GreaterEqualFloat => "GREATER_EQUAL_FLOAT"@,
        OpCode::Equal => "EQUAL"@,
        OpCode::NotEqual => "NOT_EQUAL"@,
        OpCode::StoreGlobal => "STORE_GLOBAL"@,
        OpCode::LoadGlobal => "LOAD_GLOBAL"@,
        OpCode::Move => "MOVE"@,
        OpCode::LogAddr => "LOG_ADDR"@,
        OpCode::JumpIfFalse => "JUMP_IF_FALSE"@,
        OpCode::JumpUncond => "JUMP_UNCOND"@,
        OpCode::ArrayNewFixed => "ARRAY_NEW_FIXED"@,
        OpCode::ArrayNewDynamic => "ARRAY_NEW_DYNAMIC"@,
        OpCode::ArraySet => "ARRAY_SET"@,
        OpCode::ArraySetReg => "ARRAY_SET_REG"@,
        OpCode::ArrayGet => "ARRAY_GET"@,
        OpCode::ArrayPush => "ARRAY_PUSH"@,
    }
}

/// An instruction's shape: its printed name and its operand widths.
pub struct Definition {
    pub name: &'static str,
    pub operands_width: Vec<usize>,
}

pub type Instructions = Vec<u8>;

/// 256 to the power `w`: the number of values `w` bytes can hold.
pub open spec fn pow256(w: nat) -> nat
    decreases w,
{
    if w == 0 {
        1
    } else {
        256 * pow256((w - 1) as nat)
    }
}

/// The unsigned big-endian number held in the `w` bytes of `s` from `at`.
pub open spec fn be_value(s: Seq<u8>, at: int, w: nat) -> nat
    decreases w,
{
    if w == 0 {
        0
    } else {
        be_value(s, at, (w - 1) as nat) * 256 + s[at + w - 1] as nat
    }
}

/// Where operand `i` starts within an instruction whose operands have widths `ws`.
pub open spec fn operand_offset(ws: Seq<usize>, i: int) -> int
    decreases i,
{
    if i <= 0 {
        1
    } else {
        operand_offset(ws, i - 1) + ws[i - 1]
    }
}

/// The length of an instruction whose operands have widths `ws`.
pub open spec fn instruction_len(ws: Seq<usize>) -> int {
    operand_offset(ws, ws.len() as int)
}

/// The value an operand slot holds when `operands` are encoded: the operand
/// cut to the slot's width, or zero for a slot no operand was given for.
pub open spec fn slot_value(ws: Seq<usize>, operands: Seq<usize>, i: int) -> nat {
    if i < operands.len() {
        (operands[i] as nat) % pow256(ws[i] as nat)
    } else {
        0
    }
}

/// `bytes` is the encoding of `op` with `operands`.
pub open spec fn encodes(bytes: Seq<u8>, op: OpCode, operands: Seq<usize>) -> bool {
    let ws = opcode_widths(op);
    &&& bytes.len() == instruction_len(ws)
    &&& bytes[0] == spec_opcode_byte(op)
    &&& forall|i: int|
        0 <= i < ws.len() ==> #[trigger] be_value(bytes, operand_offset(ws, i), ws[i] as nat)
            == slot_value(ws, operands, i)
}

/// Every opcode has at most three operands, each one, two or four bytes wide.
pub proof fn lemma_widths_shape(op: OpCode)
    ensures
        opcode_widths(op).len() <= 3,
        forall|i: int|
            0 <= i < opcode_widths(op).len() ==> #[trigger] opcode_widths(op)[i] == 1
                || opcode_widths(op)[i] == 2 || opcode_widths(op)[i] == 4,
        instruction_len(opcode_widths(op)) <= 7,
        instruction_len(opcode_widths(op)) >= 1,
{
    reveal_with_fuel(operand_offset, 4);
}

/// The byte of an opcode decodes back to the opcode, and every byte that
/// decodes to an opcode is that opcode's byte.
pub proof fn lemma_opcode_byte_roundtrip(op: OpCode, b: u8)
    ensures
        spec_byte_opcode(spec_opcode_byte(op)) == Some(op),
        spec_byte_opcode(b) == Some(op) ==> spec_opcode_byte(op) == b,
{
}


/// What `make` writes into a one-byte operand slot is what `read_uint8`
/// reads there: the operand cut to a byte.
pub proof fn law_make_then_read_uint8(bytes: Seq<u8>, op: OpCode, operands: Seq<usize>, i: int)
    requires
        encodes(bytes, op, operands),
        0 <= i < operands.len(),
        i < opcode_widths(op).len(),
        opcode_widths(op)[i] == 1,
    ensures
        0 <= operand_offset(opcode_widths(op), i) < bytes.len(),
        bytes[operand_offset(opcode_widths(op), i)] as nat == operands[i] as nat % 256,
{
    let ws = opcode_widths(op);
    lemma_widths_shape(op);
    lemma_offsets(ws, i + 1, ws.len() as int);
    lemma_offsets(ws, 0, i);
    assert(be_value(bytes, operand_offset(ws, i), ws[i] as nat) == slot_value(ws, operands, i));
    lemma_be_value_1(bytes, operand_offset(ws, i));
    lemma_pow256_small();
}

/// Values of `be_value` depend only on the bytes in its window.
pub proof fn lemma_be_value_frame(s1: Seq<u8>, s2: Seq<u8>, at: int, w: nat)
    requires
        forall|k: int| at <= k < at + w ==> s1[k] == s2[k],
    ensures
        be_value(s1, at, w) == be_value(s2, at, w),
    decreases w,
{
    if w > 0 {
        lemma_be_value_frame(s1, s2, at, (w - 1) as nat);
    }
}

/// A window of zero bytes holds zero.
pub proof fn lemma_be_value_zero(s: Seq<u8>, at: int, w: nat)
    requires
        forall|k: int| at <= k < at + w ==> s[k] == 0,
    ensures
        be_value(s, at, w) == 0,
    decreases w,
{
    if w > 0 {
        lemma_be_value_zero(s, at, (w - 1) as nat);
    }
}

/// The value of a one-byte window.
pub proof fn lemma_be_value_1(s: Seq<u8>, at: int)
    ensures
        be_value(s, at, 1) == s[at] as nat,
{
    reveal_with_fuel(be_value, 2);
}

/// The value of a two-byte window.
pub proof fn lemma_be_value_2(s: Seq<u8>, at: int)
    ensures
        be_value(s, at, 2) == s[at] as nat * 256 + s[at + 1] as nat,
{
    reveal_with_fuel(be_value, 3);
}

/// The value of a four-byte window.
pub proof fn lemma_be_value_4(s: Seq<u8>, at: int)
    ensures
        be_value(s, at, 4) == ((s[at] as nat * 256 + s[at + 1] as nat) * 256 + s[at + 2] as nat)
            * 256 + s[at + 3] as nat,
{
    reveal_with_fuel(be_value, 5);
}

proof fn lemma_pow256_small()
    ensures
        pow256(1) == 256,
        pow256(2) == 65536,
        pow256(4) == 0x1_0000_0000,
{
    reveal_with_fuel(pow256, 5);
}

proof fn lemma_split_u16(n: nat)
    requires
        n < 65536,
    ensures
        (n / 256) * 256 + n % 256 == n,
        n / 256 < 256,
{
}

proof fn lemma_split_u32(n: nat)
    requires
        n < 0x1_0000_0000,
    ensures
        ((n / 0x100_0000 * 256 + (n / 0x1_0000) % 256) * 256 + (n / 256) % 256) * 256 + n % 256
            == n,
        n / 0x100_0000 < 256,
{
    assert(((n / 0x100_0000 * 256 + (n / 0x1_0000) % 256) * 256 + (n / 256) % 256) * 256 + n % 256
        == n) by (nonlinear_arith)
        requires
            n < 0x1_0000_0000,
    {
        assert(n / 0x1_0000 == (n / 0x100_0000) * 256 + (n / 0x1_0000) % 256);
        assert(n / 256 == (n / 0x1_0000) * 256 + (n / 256) % 256);
        assert(n == (n / 256) * 256 + n % 256);
    }
}

/// BigEndian::write_u16 of byteorder applied to the slice of `buf` that
/// starts at `at`: it writes the two big-endian bytes of `n` at `at` and
/// `at + 1` and leaves every other byte as it was.
#[verifier::external_body]
fn be_write_u16(buf: &mut Vec<u8>, at: usize, n: u16)
    requires
        at + 2 <= old(buf).len(),
    ensures
        final(buf)@ == old(buf)@.update(at as int, (n / 256) as u8).update(at + 1, (n % 256) as u8),
{
    BigEndian::write_u16(&mut buf[at..], n);
}

/// LittleEndian::write_u16 of byteorder applied to the slice of `buf` that
/// starts at `at`: it writes the two little-endian bytes of `n` (low byte
/// first) at `at` and `at + 1` and leaves every other byte as it was.
#[verifier::external_body]
pub(crate) fn le_write_u16(buf: &mut Vec<u8>, at: usize, n: u16)
    requires
        at + 2 <= old(buf).len(),
    ensures
        final(buf)@ == old(buf)@.update(at as int, (n % 256) as u8).update(at + 1, (n / 256) as u8),
{
    LittleEndian::write_u16(&mut buf[at..], n);
}

/// BigEndian::write_u32 of byteorder applied to the slice of `buf` that
/// starts at `at`: it writes the four big-endian bytes of `n` from `at` on
/// and leaves every other byte as it was.
#[verifier::external_body]
fn be_write_u32(buf: &mut Vec<u8>, at: usize, n: u32)
    requires
        at + 4 <= old(buf).len(),
    ensures
        final(buf)@ == old(buf)@.update(at as int, (n / 0x100_0000) as u8).update(
            at + 1,
            ((n / 0x1_0000) % 256) as u8,
        ).update(at + 2, ((n / 256) % 256) as u8).update(at + 3, (n % 256) as u8),
{
    BigEndian::write_u32(&mut buf[at..], n);
}

/// BigEndian::read_u16 of byteorder on the two bytes of `buf` from `at`:
/// the first byte is the high one.
#[verifier::external_body]
fn be_read_u16(buf: &Vec<u8>, at: usize) -> (r: u16)
    requires
        at + 2 <= buf.len(),
    ensures
        r == buf@[at as int] as nat * 256 + buf@[at + 1] as nat,
{
    BigEndian::read_u16(&buf[at..at + 2])
}

/// BigEndian::read_u32 of byteorder on the four bytes of `buf` from `at`,
/// high byte first.
#[verifier::external_body]
fn be_read_u32(buf: &Vec<u8>, at: usize) -> (r: u32)
    requires
        at + 4 <= buf.len(),
    ensures
        r == ((buf@[at as int] as nat * 256 + buf@[at + 1] as nat) * 256 + buf@[at + 2] as nat)
            * 256 + buf@[at + 3] as nat,
{
    BigEndian::read_u32(&buf[at..at + 4])
}

/// Writes `value`, cut to `width` bytes, big-endian at `at`; bytes outside
/// the window are kept.
pub(crate) fn write_operand(buf: &mut Vec<u8>, at: usize, width: usize, value: usize)
    requires
        width == 1 || width == 2 || width == 4,
        at + width <= old(buf).len(),
    ensures
        final(buf)@.len() == old(buf)@.len(),
        be_value(final(buf)@, at as int, width as nat) == (value as nat) % pow256(width as nat),
        forall|k: int|
            0 <= k < old(buf)@.len() && !(at <= k < at + width) ==> final(buf)@[k] == old(buf)@[k],
{
    proof {
        lemma_pow256_small();
    }
    if width == 1 {
        buf.set(at, (value % 256) as u8);
        proof {
            lemma_be_value_1(buf@, at as int);
        }
    } else if width == 2 {
        let n: u16 = (value % 65536) as u16;
        be_write_u16(buf, at, n);
        proof {
            lemma_be_value_2(buf@, at as int);
            lemma_split_u16(n as nat);
        }
    } else {
        let wide: u64 = value as u64;
        let n: u32 = (wide % 0x1_0000_0000) as u32;
        be_write_u32(buf, at, n);
        proof {
            lemma_be_value_4(buf@, at as int);
            lemma_split_u32(n as nat);
        }
    }
}

proof fn lemma_offsets(ws: Seq<usize>, i: int, j: int)
    requires
        0 <= i <= j <= ws.len(),
    ensures
        operand_offset(ws, i) <= operand_offset(ws, j),
    decreases j - i,
{
    if i < j {
        lemma_offsets(ws, i, j - 1);
    }
}

impl OpCode {
    /// Encodes an instruction: the opcode byte, then each operand big-endian
    /// in its slot's width. Slots with no operand given stay zero.
    pub fn make(opcode: OpCode, operands: Vec<usize>) -> (bytes: Instructions)
        requires
            operands.len() <= opcode_widths(opcode).len(),
        ensures
            encodes(bytes@, opcode, operands@),
    {
        let definition = OpCode::get_definition(opcode);
        let ws = &definition.operands_width;
        proof {
            lemma_widths_shape(opcode);
        }
        let mut instruction_length: usize = 1;
        let mut i: usize = 0;
        while i < ws.len()
            invariant
                ws@ == opcode_widths(opcode),
                ws.len() <= 3,
                forall|k: int| 0 <= k < ws.len() ==> #[trigger] ws@[k] == 1 || ws@[k] == 2 || ws@[k] == 4,
                0 <= i <= ws.len(),
                instruction_length == operand_offset(ws@, i as int),
                instruction_length <= 1 + 4 * i,
            decreases ws.len() - i,
        {
            instruction_length = instruction_length + ws[i];
            i = i + 1;
        }
        let mut instructions: Instructions = vec![0u8; instruction_length];
        instructions.set(0, opcode.to_byte());
        let mut offset: usize = 1;
        let mut i: usize = 0;
        while i < operands.len()
            invariant
                ws@ == opcode_widths(opcode),
                ws.len() <= 3,
                forall|k: int| 0 <= k < ws.len() ==> #[trigger] ws@[k] == 1 || ws@[k] == 2 || ws@[k] == 4,
                operands.len() <= ws.len(),
                0 <= i <= operands.len(),
                offset == operand_offset(ws@, i as int),
                instruction_length == instruction_len(ws@),
                instructions@.len() == instruction_length,
                instructions@[0] == spec_opcode_byte(opcode),
                forall|j: int|
                    0 <= j < i ==> #[trigger] be_value(instructions@, operand_offset(ws@, j), ws@[j] as nat)
                        == slot_value(ws@, operands@, j),
                forall|k: int| offset <= k < instruction_length ==> instructions@[k] == 0,
            decreases operands.len() - i,
        {
            let width = ws[i];
            proof {
                lemma_offsets(ws@, i + 1, ws.len() as int);
                lemma_offsets(ws@, 0, i as int);
            }
            let ghost before = instructions@;
            write_operand(&mut instructions, offset, width, operands[i]);
            proof {
                assert forall|j: int| 0 <= j < i implies #[trigger] be_value(instructions@, operand_offset(ws@, j), ws@[j] as nat)
                    == slot_value(ws@, operands@, j) by {
                    lemma_offsets(ws@, j + 1, i as int);
                    lemma_offsets(ws@, 0, j);
                    lemma_be_value_frame(before, instructions@, operand_offset(ws@, j), ws@[j] as nat);
                }
            }
            offset = offset + width;
            i = i + 1;
        }
        proof {
            assert forall|j: int| i <= j < ws.len() implies #[trigger] be_value(instructions@, operand_offset(ws@, j), ws@[j] as nat)
                == slot_value(ws@, operands@, j) by {
                lemma_offsets(ws@, i as int, j);
                lemma_offsets(ws@, j + 1, ws.len() as int);
                lemma_be_value_zero(instructions@, operand_offset(ws@, j), ws@[j] as nat);
            }
        }
        instructions
    }

    /// Rewrites the operands of the instruction at `position` in place with
    /// `new_operands`, each cut to its slot's width. Every other byte stays.
    pub fn change_operand(instructions: &mut Instructions, position: usize, new_operands: Vec<usize>)
        requires
            position < old(instructions).len(),
            spec_byte_opcode(old(instructions)@[position as int]) is Some,
            new_operands.len() >= opcode_widths(
                spec_byte_opcode(old(instructions)@[position as int]).unwrap(),
            ).len(),
            position + instruction_len(
                opcode_widths(spec_byte_opcode(old(instructions)@[position as int]).unwrap()),
            ) <= old(instructions).len(),
        ensures
            ({
                let op = spec_byte_opcode(old(instructions)@[position as int]).unwrap();
                let ws = opcode_widths(op);
                &&& final(instructions)@.len() == old(instructions)@.len()
                &&& forall|k: int|
                    0 <= k < old(instructions)@.len() && !(position + 1 <= k < position + instruction_len(ws))
                        ==> final(instructions)@[k] == old(instructions)@[k]
                &&& forall|i: int|
                    0 <= i < ws.len() ==> #[trigger] be_value(final(instructions)@, position + operand_offset(ws, i), ws[i] as nat)
                        == (new_operands@[i] as nat) % pow256(ws[i] as nat)
            }),
    {
        let opcode = instructions[position].to_opcode();
        let definition = OpCode::get_definition(opcode);
        let ws = &definition.operands_width;
        proof {
            lemma_widths_shape(opcode);
        }
        let ghost orig = instructions@;
        let total_len = instructions.len();
        let mut offset: usize = position + 1;
        let mut i: usize = 0;
        while i < ws.len()
            invariant
                ws@ == opcode_widths(opcode),
                opcode == spec_byte_opcode(orig[position as int]).unwrap(),
                ws.len() <= 3,
                forall|k: int| 0 <= k < ws.len() ==> #[trigger] ws@[k] == 1 || ws@[k] == 2 || ws@[k] == 4,
                new_operands.len() >= ws.len(),
                0 <= i <= ws.len(),
                offset == position + operand_offset(ws@, i as int),
                position + instruction_len(ws@) <= orig.len(),
                total_len == orig.len(),
                instructions@.len() == orig.len(),
                forall|k: int|
                    0 <= k < orig.len() && !(position + 1 <= k < offset) ==> instructions@[k] == orig[k],
                forall|j: int|
                    0 <= j < i ==> #[trigger] be_value(instructions@, position + operand_offset(ws@, j), ws@[j] as nat)
                        == (new_operands@[j] as nat) % pow256(ws@[j] as nat),
            decreases ws.len() - i,
        {
            let width = ws[i];
            proof {
                lemma_offsets(ws@, i + 1, ws.len() as int);
                lemma_offsets(ws@, 0, i as int);
            }
            let ghost before = instructions@;
            write_operand(instructions, offset, width, new_operands[i]);
            proof {
                assert forall|j: int| 0 <= j < i implies #[trigger] be_value(instructions@, position + operand_offset(ws@, j), ws@[j] as nat)
                    == (new_operands@[j] as nat) % pow256(ws@[j] as nat) by {
                    lemma_offsets(ws@, j + 1, i as int);
                    lemma_offsets(ws@, 0, j);
                    lemma_be_value_frame(before, instructions@, position + operand_offset(ws@, j), ws@[j] as nat);
                }
            }
            assert(operand_offset(ws@, i + 1) == operand_offset(ws@, i as int) + ws@[i as int]);
            assert(offset + width <= orig.len());
            offset = offset + width;
            i = i + 1;
        }
    }
}

/// The byte at `offset`.
pub fn read_uint8(instructions: &Instructions, offset: usize) -> (r: u8)
    requires
        offset < instructions.len(),
    ensures
        r == instructions@[offset as int],
        r as nat == be_value(instructions@, offset as int, 1),
{
    proof {
        lemma_be_value_1(instructions@, offset as int);
    }
    instructions[offset]
}

/// The big-endian 16-bit number at `offset`.
pub fn read_uint16(instructions: &Instructions, offset: usize) -> (r: u16)
    requires
        offset + 2 <= instructions.len(),
    ensures
        r as nat == be_value(instructions@, offset as int, 2),
{
    proof {
        lemma_be_value_2(instructions@, offset as int);
    }
    be_read_u16(instructions, offset)
}

/// The big-endian 32-bit number at `offset`.
pub fn read_uint32(instructions: &Instructions, offset: usize) -> (r: u32)
    requires
        offset + 4 <= instructions.len(),
    ensures
        r as nat == be_value(instructions@, offset as int, 4),
{
    proof {
        lemma_be_value_4(instructions@, offset as int);
    }
    be_read_u32(instructions, offset)
}

impl OpCode {
    /// The byte that encodes this opcode.
    pub fn to_byte(self) -> (b: u8)
        ensures
            b == spec_opcode_byte(self),
    {
        match self {
            OpCode::Halt => HALT,
            OpCode::LoadConstInt => LOAD_CONST_INT,
            OpCode::LoadConstFloat => LOAD_CONST_FLOAT,
            OpCode::LoadString => LOAD_STRING,
            OpCode::LoadNil => LOAD_NIL,
            OpCode::LoadTrue => LOAD_TRUE,
            OpCode::LoadFalse => LOAD_FALSE,
            OpCode::AddInt => ADD_INT,
            OpCode::SubtractInt => SUBTRACT_INT,
            OpCode::MultiplyInt => MULTIPLY_INT,
            OpCode::DivideInt => DIVIDE_INT,
            OpCode::ExponentInt => EXPONENT_INT,
            OpCode::AddFloat => ADD_FLOAT,
            OpCode::SubtractFloat => SUBTRACT_FLOAT,
            OpCode::MultiplyFloat => MULTIPLY_FLOAT,
            OpCode::DivideFloat => DIVIDE_FLOAT,
            OpCode::ExponentFloat => EXPONENT_FLOAT,
            OpCode::ConcatString => CONCAT_STRING,
            OpCode::NegateInt => NEGATE_INT,
            OpCode::NegateFloat => NEGATE_FLOAT,
            OpCode::Not => NOT,
            OpCode::LessInt => LESS_INT,
            OpCode::LessEqualInt => LESS_EQUAL_INT,
            OpCode::GreaterInt => GREATER_INT,
            OpCode::GreaterEqualInt => GREATER_EQUAL_INT,
            OpCode::LessFloat => LESS_FLOAT,
            OpCode::LessEqualFloat => LESS_EQUAL_FLOAT,
            OpCode::GreaterFloat => GREATER_FLOAT,
            OpCode::GreaterEqualFloat => GREATER_EQUAL_FLOAT,
            OpCode::Equal => EQUAL,
            OpCode::NotEqual => NOT_EQUAL,
            OpCode::StoreGlobal => STORE_GLOBAL,
            OpCode::LoadGlobal => LOAD_GLOBAL,
            OpCode::Move => MOVE,
            OpCode::LogAddr => LOG_ADDR,
            OpCode::JumpIfFalse => JUMP_IF_FALSE,
            OpCode::JumpUncond => JUMP_UNCOND,
            OpCode::ArrayNewFixed => ARRAY_NEW_FIXED,
            OpCode::ArrayNewDynamic => ARRAY_NEW_DYNAMIC,
            OpCode::ArraySet => ARRAY_SET,
            OpCode::ArraySetReg => ARRAY_SET_REG,
            OpCode::ArrayGet => ARRAY_GET,
            OpCode::ArrayPush => ARRAY_PUSH,
        }
    }

    /// The name and operand widths of an opcode.
    pub fn get_definition(opcode: OpCode) -> (d: Definition)
        ensures
            d.name@ == opcode_name(opcode),
            d.operands_width@ == opcode_widths(opcode),
    {
        match opcode {
            OpCode::Halt => Definition { name: "HALT", operands_width: Vec::new() },
            OpCode::LoadConstInt => Definition { name: "LOAD_CONST_INT", operands_width: vec![1usize, 2usize] },
            OpCode::LoadConstFloat => Definition { name: "LOAD_CONST_FLOAT", operands_width: vec![1usize, 2usize] },
            OpCode::LoadString => Definition { name: "LOAD_STRING", operands_width: vec![1usize, 2usize] },
            OpCode::LoadNil => Definition { name: "LOAD_NIL", operands_width: vec![1usize] },
            OpCode::LoadTrue => Definition { name: "LOAD_TRUE", operands_width: vec![1usize] },
            OpCode::LoadFalse => Definition { name: "LOAD_FALSE", operands_width: vec![1usize] },
            OpCode::AddInt => Definition { name: "ADD_INT", operands_width: vec![1usize, 1usize, 1usize] },
            OpCode::SubtractInt => Definition { name: "SUB_INT", operands_width: vec![1usize, 1usize, 1usize] },
            OpCode::MultiplyInt => Definition { name: "MUL_INT", operands_width: vec![1usize, 1usize, 1usize] },
            OpCode::DivideInt => Definition { name: "DIV_INT", operands_width: vec![1usize, 1usize, 1usize] },
            OpCode::ExponentInt => Definition { name: "EXP_INT", operands_width: vec![1usize, 1usize, 1usize] },
            OpCode::AddFloat => Definition { name: "ADD_FLOAT", operands_width: vec![1usize, 1usize, 1usize] },
            OpCode::SubtractFloat => Definition { name: "SUB_FLOAT", operands_width: vec![1usize, 1usize, 1usize] },
            OpCode::MultiplyFloat => Definition { name: "MUL_FLOAT", operands_width: vec![1usize, 1usize, 1usize] },
            OpCode::DivideFloat => Definition { name: "DIV_FLOAT", operands_width: vec![1usize, 1usize, 1usize] },
            OpCode::ExponentFloat => Definition { name: "EXP_FLOAT", operands_width: vec![1usize, 1usize, 1usize] },
            OpCode::ConcatString => Definition { name: "CONCAT_STRING", operands_width: vec![1usize, 1usize, 1usize] },
            OpCode::NegateInt => Definition { name: "NEGATE_INT", operands_width: vec![1usize, 1usize] },
            OpCode::NegateFloat => Definition { name: "NEGATE_FLOAT", operands_width: vec![1usize, 1usize] },
            OpCode::Not => Definition { name: "NOT", operands_width: vec![1usize, 1usize] },
            OpCode::LessInt => Definition { name: "LESS_INT", operands_width: vec![1usize, 1usize, 1usize] },
            OpCode::LessEqualInt => Definition { name: "LESS_EQUAL_INT", operands_width: vec![1usize, 1usize, 1usize] },
            OpCode::GreaterInt => Definition { name: "GREATER_INT", operands_width: vec![1usize, 1usize, 1usize] },
            OpCode::GreaterEqualInt => Definition { name: "GREATER_EQUAL_INT", operands_width: vec![1usize, 1usize, 1usize] },
            OpCode::LessFloat => Definition { name: "LESS_FLOAT", operands_width: vec![1usize, 1usize, 1usize] },
            OpCode::LessEqualFloat => Definition { name: "LESS_EQUAL_FLOAT", operands_width: vec![1usize, 1usize, 1usize] },
            OpCode::GreaterFloat => Definition { name: "GREATER_FLOAT", operands_width: vec![1usize, 1usize, 1usize] },
            OpCode::GreaterEqualFloat => Definition { name: "GREATER_EQUAL_FLOAT", operands_width: vec![1usize, 1usize, 1usize] },
            OpCode::Equal => Definition { name: "EQUAL", operands_width: vec![1usize, 1usize, 1usize] },
            OpCode::NotEqual => Definition { name: "NOT_EQUAL", operands_width: vec![1usize, 1usize, 1usize] },
            OpCode::StoreGlobal => Definition { name: "STORE_GLOBAL", operands_width: vec![2usize, 1usize] },
            OpCode::LoadGlobal => Definition { name: "LOAD_GLOBAL", operands_width: vec![1usize, 2usize] },
            OpCode::Move => Definition { name: "MOVE", operands_width: vec![1usize, 1usize] },
            OpCode::LogAddr => Definition { name: "LOG_ADDR", operands_width: vec![1usize] },
            OpCode::JumpIfFalse => Definition { name: "JUMP_IF_FALSE", operands_width: vec![1usize, 2usize] },
            OpCode::JumpUncond => Definition { name: "JUMP_UNCOND", operands_width: vec![2usize] },
            OpCode::ArrayNewFixed => Definition { name: "ARRAY_NEW_FIXED", operands_width: vec![1usize, 4usize] },
            OpCode::ArrayNewDynamic => Definition { name: "ARRAY_NEW_DYNAMIC", operands_width: vec![1usize, 4usize] },
            OpCode::ArraySet => Definition { name: "ARRAY_SET", operands_width: vec![1usize, 4usize, 1usize] },
            OpCode::ArraySetReg => Definition { name: "ARRAY_SET_REG", operands_width: vec![1usize, 1usize, 1usize] },
            OpCode::ArrayGet => Definition { name: "ARRAY_GET", operands_width: vec![1usize, 1usize, 1usize] },
            OpCode::ArrayPush => Definition { name: "ARRAY_PUSH", operands_width: vec![1usize, 1usize] },
        }
    }
}

/// The operator symbol an opcode is shown with, for the opcodes that are
/// operators.
pub open spec fn opcode_symbol(op: OpCode) -> Option<Seq<char>> {
    match op {
        OpCode::AddInt | OpCode::AddFloat => Some("+"@),
        OpCode::SubtractInt | OpCode::SubtractFloat => Some("-"@),
        OpCode::MultiplyInt | OpCode::MultiplyFloat => Some("*"@),
        OpCode::DivideInt | OpCode::DivideFloat => Some("/"@),
        OpCode::ExponentInt | OpCode::ExponentFloat => Some("^"@),
        OpCode::NegateInt | OpCode::NegateFloat => Some("-"@),
        OpCode::Not => Some("not"@),
        OpCode::LessInt | OpCode::LessFloat => Some("<"@),
        OpCode::LessEqualInt | OpCode::LessEqualFloat => Some("<="@),
        OpCode::GreaterInt | OpCode::GreaterFloat => Some(">"@),
        OpCode::GreaterEqualInt | OpCode::GreaterEqualFloat => Some(">="@),
        OpCode::Equal => Some("=="@),
        OpCode::NotEqual => Some("!="@),
        OpCode::ConcatString => Some("+"@),
        _ => None,
    }
}

impl OpCode {
    /// The operator symbol the opcode is shown with; `None` for an opcode
    /// that is no operator (it is shown by its variant name).
    pub fn symbol(&self) -> (s: Option<&'static str>)
        ensures
            s matches Some(t) ==> opcode_symbol(*self) == Some(t@),
            s is None <==> opcode_symbol(*self) is None,
    {
        match self {
            OpCode::AddInt | OpCode::AddFloat => Some("+"),
            OpCode::SubtractInt | OpCode::SubtractFloat => Some("-"),
            OpCode::MultiplyInt | OpCode::MultiplyFloat => Some("*"),
            OpCode::DivideInt | OpCode::DivideFloat => Some("/"),
            OpCode::ExponentInt | OpCode::ExponentFloat => Some("^"),
            OpCode::NegateInt | OpCode::NegateFloat => Some("-"),
            OpCode::Not => Some("not"),
            OpCode::LessInt | OpCode::LessFloat => Some("<"),
            OpCode::LessEqualInt | OpCode::LessEqualFloat => Some("<="),
            OpCode::GreaterInt | OpCode::GreaterFloat => Some(">"),
            OpCode::GreaterEqualInt | OpCode::GreaterEqualFloat => Some(">="),
            OpCode::Equal => Some("=="),
            OpCode::NotEqual => Some("!="),
            OpCode::ConcatString => Some("+"),
            _ => None,
        }
    }
}

impl From<OpCode> for u8 {
    fn from(op: OpCode) -> (b: u8) {
        op.to_byte()
    }
}

impl vstd::std_specs::convert::FromSpecImpl<OpCode> for u8 {
    open spec fn obeys_from_spec() -> bool {
        true
    }

    open spec fn from_spec(op: OpCode) -> u8 {
        spec_opcode_byte(op)
    }
}


/// The opcode a byte encodes, or `None` for a byte that encodes none.
pub fn decode_opcode(b: u8) -> (r: Option<OpCode>)
    ensures
        r == spec_byte_opcode(b),
{
    match b {
        0x01u8 => Some(OpCode::Halt),
        0x03u8 => Some(OpCode::LoadConstInt),
        0x04u8 => Some(OpCode::LoadConstFloat),
        0x05u8 => Some(OpCode::LoadString),
        0x06u8 => Some(OpCode::LoadNil),
        0x07u8 => Some(OpCode::LoadTrue),
        0x08u8 => Some(OpCode::LoadFalse),
        0x10u8 => Some(OpCode::AddInt),
        0x11u8 => Some(OpCode::SubtractInt),
        0x12u8 => Some(OpCode::MultiplyInt),
        0x13u8 => Some(OpCode::DivideInt),
        0x14u8 => Some(OpCode::ExponentInt),
        0x15u8 => Some(OpCode::AddFloat),
        0x16u8 => Some(OpCode::SubtractFloat),
        0x17u8 => Some(OpCode::MultiplyFloat),
        0x18u8 => Some(OpCode::DivideFloat),
        0x19u8 => Some(OpCode::ExponentFloat),
        0x1Au8 => Some(OpCode::ConcatString),
        0x20u8 => Some(OpCode::NegateInt),
        0x21u8 => Some(OpCode::NegateFloat),
        0x22u8 => Some(OpCode::Not),
        0x30u8 => Some(OpCode::LessInt),
        0x31u8 => Some(OpCode::LessEqualInt),
        0x32u8 => Some(OpCode::GreaterInt),
        0x33u8 => Some(OpCode::GreaterEqualInt),
        0x34u8 => Some(OpCode::LessFloat),
        0x35u8 => Some(OpCode::LessEqualFloat),
        0x36u8 => Some(OpCode::GreaterFloat),
        0x37u8 => Some(OpCode::GreaterEqualFloat),
        0x38u8 => Some(OpCode::Equal),
        0x39u8 => Some(OpCode::NotEqual),
        0x40u8 => Some(OpCode::StoreGlobal),
        0x41u8 => Some(OpCode::LoadGlobal),
        0x50u8 => Some(OpCode::Move),
        0x51u8 => Some(OpCode::LogAddr),
        0x52u8 => Some(OpCode::JumpIfFalse),
        0x53u8 => Some(OpCode::JumpUncond),
        0x54u8 => Some(OpCode::ArrayNewFixed),
        0x55u8 => Some(OpCode::ArrayNewDynamic),
        0x56u8 => Some(OpCode::ArraySet),
        0x57u8 => Some(OpCode::ArraySetReg),
        0x58u8 => Some(OpCode::ArrayGet),
        0x59u8 => Some(OpCode::ArrayPush),
        _ => None,
    }
}

/// Decoding a byte into the opcode it encodes.
pub trait ToOpcode: Sized {
    /// The byte is one that encodes an opcode.
    spec fn is_opcode(&self) -> bool;

    /// The opcode the byte encodes.
    spec fn spec_to_opcode(&self) -> OpCode;

    fn to_opcode(self) -> (op: OpCode)
        requires
            self.is_opcode(),
        ensures
            op == self.spec_to_opcode(),
    ;
}

impl ToOpcode for u8 {
    open spec fn is_opcode(&self) -> bool {
        spec_byte_opcode(*self) is Some
    }

    open spec fn spec_to_opcode(&self) -> OpCode {
        spec_byte_opcode(*self).unwrap()
    }

    fn to_opcode(self) -> (op: OpCode) {
        match self {
            0x01u8 => OpCode::Halt,
            0x03u8 => OpCode::LoadConstInt,
            0x04u8 => OpCode::LoadConstFloat,
            0x05u8 => OpCode::LoadString,
            0x06u8 => OpCode::LoadNil,
            0x07u8 => OpCode::LoadTrue,
            0x08u8 => OpCode::LoadFalse,
            0x10u8 => OpCode::AddInt,
            0x11u8 => OpCode::SubtractInt,
            0x12u8 => OpCode::MultiplyInt,
            0x13u8 => OpCode::DivideInt,
            0x14u8 => OpCode::ExponentInt,
            0x15u8 => OpCode::AddFloat,
            0x16u8 => OpCode::SubtractFloat,
            0x17u8 => OpCode::MultiplyFloat,
            0x18u8 => OpCode::DivideFloat,
            0x19u8 => OpCode::ExponentFloat,
            0x1Au8 => OpCode::ConcatString,
            0x20u8 => OpCode::NegateInt,
            0x21u8 => OpCode::NegateFloat,
            0x22u8 => OpCode::Not,
            0x30u8 => OpCode::LessInt,
            0x31u8 => OpCode::LessEqualInt,
            0x32u8 => OpCode::GreaterInt,
            0x33u8 => OpCode::GreaterEqualInt,
            0x34u8 => OpCode::LessFloat,
            0x35u8 => OpCode::LessEqualFloat,
            0x36u8 => OpCode::GreaterFloat,
            0x37u8 => OpCode::GreaterEqualFloat,
            0x38u8 => OpCode::Equal,
            0x39u8 => OpCode::NotEqual,
            0x40u8 => OpCode::StoreGlobal,
            0x41u8 => OpCode::LoadGlobal,
            0x50u8 => OpCode::Move,
            0x51u8 => OpCode::LogAddr,
            0x52u8 => OpCode::JumpIfFalse,
            0x53u8 => OpCode::JumpUncond,
            0x54u8 => OpCode::ArrayNewFixed,
            0x55u8 => OpCode::ArrayNewDynamic,
            0x56u8 => OpCode::ArraySet,
            0x57u8 => OpCode::ArraySetReg,
            0x58u8 => OpCode::ArrayGet,
            0x59u8 => OpCode::ArrayPush,
            _ => {
                proof {
                    assert(false);
                }
                OpCode::Halt
            },
        }
    }
}

} // verus!
