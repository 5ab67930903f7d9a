use vstd::prelude::*;
use crate::bytecode::OpCode;
use crate::lexer::push_char;
use crate::text::{push_decimal, spec_decimal};
use crate::vm::{Operand, VmError, push_str};

verus! {

/// The name an opcode has in the instruction set's declaration.
pub open spec fn opcode_variant_name(op: OpCode) -> Seq<char> {
    match op {
        OpCode::Halt => "Halt"@,
        OpCode::LoadConstInt => "LoadConstInt"@,
        OpCode::LoadConstFloat => "LoadConstFloat"@,
        OpCode::LoadString => "LoadString"@,
        OpCode::LoadNil => "LoadNil"@,
        OpCode::LoadTrue => "LoadTrue"@,
        OpCode::LoadFalse => "LoadFalse"@,
        OpCode::AddInt => "AddInt"@,
        OpCode::SubtractInt => "SubtractInt"@,
        OpCode::MultiplyInt => "MultiplyInt"@,
        OpCode::DivideInt => "DivideInt"@,
        OpCode::ExponentInt => "ExponentInt"@,
        OpCode::AddFloat => "AddFloat"@,
        OpCode::SubtractFloat => "SubtractFloat"@,
        OpCode::MultiplyFloat => "MultiplyFloat"@,
        OpCode::DivideFloat => "DivideFloat"@,
        OpCode::ExponentFloat => "ExponentFloat"@,
        OpCode::ConcatString => "ConcatString"@,
        OpCode::NegateInt => "NegateInt"@,
        OpCode::NegateFloat => "NegateFloat"@,
        OpCode::Not => "Not"@,
        OpCode::LessInt => "LessInt"@,
        OpCode::LessEqualInt => "LessEqualInt"@,
        OpCode::GreaterInt => "GreaterInt"@,
        OpCode::GreaterEqualInt => "GreaterEqualInt"@,
        OpCode::LessFloat => "LessFloat"@,
        OpCode::LessEqualFloat => "LessEqualFloat"@,
        OpCode::GreaterFloat => "GreaterFloat"@,
        OpCode::GreaterEqualFloat => "GreaterEqualFloat"@,
        OpCode::Equal => "Equal"@,
        OpCode::NotEqual => "NotEqual"@,
        OpCode::StoreGlobal => "StoreGlobal"@,
        OpCode::LoadGlobal => "LoadGlobal"@,
        OpCode::Move => "Move"@,
        OpCode::LogAddr => "LogAddr"@,
        OpCode::JumpIfFalse => "JumpIfFalse"@,
        OpCode::JumpUncond => "JumpUncond"@,
        OpCode::ArrayNewFixed => "ArrayNewFixed"@,
        OpCode::ArrayNewDynamic => "ArrayNewDynamic"@,
        OpCode::ArraySet => "ArraySet"@,
        OpCode::ArraySetReg => "ArraySetReg"@,
        OpCode::ArrayGet => "ArrayGet"@,
        OpCode::ArrayPush => "ArrayPush"@,
    }
}

/// The kind of value an opcode needs in its operand registers.
pub open spec fn operand_kind_text(op: OpCode) -> Seq<char> {
    match op {
        OpCode::AddInt => "an integer"@,
        OpCode::SubtractInt => "an integer"@,
        OpCode::MultiplyInt => "an integer"@,
        OpCode::DivideInt => "an integer"@,
        OpCode::ExponentInt => "an integer"@,
        OpCode::NegateInt => "an integer"@,
        OpCode::LessInt => "an integer"@,
        OpCode::LessEqualInt => "an integer"@,
        OpCode::GreaterInt => "an integer"@,
        OpCode::GreaterEqualInt => "an integer"@,
        OpCode::AddFloat => "a float"@,
        OpCode::SubtractFloat => "a float"@,
        OpCode::MultiplyFloat => "a float"@,
        OpCode::DivideFloat => "a float"@,
        OpCode::ExponentFloat => "a float"@,
        OpCode::NegateFloat => "a float"@,
        OpCode::LessFloat => "a float"@,
        OpCode::LessEqualFloat => "a float"@,
        OpCode::GreaterFloat => "a float"@,
        OpCode::GreaterEqualFloat => "a float"@,
        OpCode::Not => "a boolean"@,
        OpCode::ConcatString => "a string"@,
        _ => "a value"@,
    }
}

/// How an operand is named in a message.
pub open spec fn operand_text(o: Operand) -> Seq<char> {
    match o {
        Operand::Left => "left operand"@,
        Operand::Right => "right operand"@,
        Operand::Only => "operand"@,
    }
}

/// The upper-case hexadecimal digit of `d` (below 16).
pub open spec fn hex_digit(d: int) -> char {
    if d < 10 {
        ('0' as int + d) as char
    } else {
        ('A' as int + d - 10) as char
    }
}

/// The message a machine error is reported with.
pub open spec fn vm_error_text(e: VmError) -> Seq<char> {
    match e {
        VmError::InvalidConstantIndex(i) => "Invalid constant index "@ + spec_decimal(i as nat),
        VmError::ExpectedIntegerConstant(i) => "Expected integer constant at index "@ + spec_decimal(i as nat),
        VmError::ExpectedFloatConstant(i) => "Expected float constant at index "@ + spec_decimal(i as nat),
        VmError::InvalidStringIndex(i) => "Invalid string index "@ + spec_decimal(i as nat),
        VmError::OperandType { opcode, operand } => opcode_variant_name(opcode) + ": "@ + operand_text(operand)
            + " is not "@ + operand_kind_text(opcode),
        VmError::DivisionByZero => "Division by zero"@,
        VmError::NegativeExponent => "Negative exponent for integer"@,
        VmError::IntegerOverflow => "Integer overflow"@,
        VmError::Unimplemented(op) => "Unimplemented opcode: "@ + opcode_variant_name(op),
        VmError::InvalidOpcode(b) => "Cannot convert byte '0x"@ + seq![hex_digit(b as int / 16), hex_digit(b as int % 16)]
            + "' to an opcode"@,
        VmError::TruncatedInstruction => "Instruction runs past the end of the code"@,
    }
}

impl OpCode {
    /// The name this opcode has in the instruction set's declaration.
    pub fn variant_name(&self) -> (s: &'static str)
        ensures
            s@ == opcode_variant_name(*self),
    {
        proof {
            reveal_strlit("Halt");
            reveal_strlit("LoadConstInt");
            reveal_strlit("LoadConstFloat");
            reveal_strlit("LoadString");
            reveal_strlit("LoadNil");
            reveal_strlit("LoadTrue");
            reveal_strlit("LoadFalse");
            reveal_strlit("AddInt");
            reveal_strlit("SubtractInt");
            reveal_strlit("MultiplyInt");
            reveal_strlit("DivideInt");
            reveal_strlit("ExponentInt");
            reveal_strlit("AddFloat");
            reveal_strlit("SubtractFloat");
            reveal_strlit("MultiplyFloat");
            reveal_strlit("DivideFloat");
            reveal_strlit("ExponentFloat");
            reveal_strlit("ConcatString");
            reveal_strlit("NegateInt");
            reveal_strlit("NegateFloat");
            reveal_strlit("Not");
            reveal_strlit("LessInt");
            reveal_strlit("LessEqualInt");
            reveal_strlit("GreaterInt");
            reveal_strlit("GreaterEqualInt");
            reveal_strlit("LessFloat");
            reveal_strlit("LessEqualFloat");
            reveal_strlit("GreaterFloat");
            reveal_strlit("GreaterEqualFloat");
            reveal_strlit("Equal");
            reveal_strlit("NotEqual");
            reveal_strlit("StoreGlobal");
            reveal_strlit("LoadGlobal");
            reveal_strlit("Move");
            reveal_strlit("LogAddr");
            reveal_strlit("JumpIfFalse");
            reveal_strlit("JumpUncond");
            reveal_strlit("ArrayNewFixed");
            reveal_strlit("ArrayNewDynamic");
            reveal_strlit("ArraySet");
            reveal_strlit("ArraySetReg");
            reveal_strlit("ArrayGet");
            reveal_strlit("ArrayPush");
        }
        match self {
            OpCode::Halt => "Halt",
            OpCode::LoadConstInt => "LoadConstInt",
            OpCode::LoadConstFloat => "LoadConstFloat",
            OpCode::LoadString => "LoadString",
            OpCode::LoadNil => "LoadNil",
            OpCode::LoadTrue => "LoadTrue",
            OpCode::LoadFalse => "LoadFalse",
            OpCode::AddInt => "AddInt",
            OpCode::SubtractInt => "SubtractInt",
            OpCode::MultiplyInt => "MultiplyInt",
            OpCode::DivideInt => "DivideInt",
            OpCode::ExponentInt => "ExponentInt",
            OpCode::AddFloat => "AddFloat",
            OpCode::SubtractFloat => "SubtractFloat",
            OpCode::MultiplyFloat => "MultiplyFloat",
            OpCode::DivideFloat => "DivideFloat",
            OpCode::ExponentFloat => "ExponentFloat",
            OpCode::ConcatString => "ConcatString",
            OpCode::NegateInt => "NegateInt",
            OpCode::NegateFloat => "NegateFloat",
            OpCode::Not => "Not",
            OpCode::LessInt => "LessInt",
            OpCode::LessEqualInt => "LessEqualInt",
            OpCode::GreaterInt => "GreaterInt",
            OpCode::GreaterEqualInt => "GreaterEqualInt",
            OpCode::LessFloat => "LessFloat",
            OpCode::LessEqualFloat => "LessEqualFloat",
            OpCode::GreaterFloat => "GreaterFloat",
            OpCode::GreaterEqualFloat => "GreaterEqualFloat",
            OpCode::Equal => "Equal",
            OpCode::NotEqual => "NotEqual",
            OpCode::StoreGlobal => "StoreGlobal",
            OpCode::LoadGlobal => "LoadGlobal",
            OpCode::Move => "Move",
            OpCode::LogAddr => "LogAddr",
            OpCode::JumpIfFalse => "JumpIfFalse",
            OpCode::JumpUncond => "JumpUncond",
            OpCode::ArrayNewFixed => "ArrayNewFixed",
            OpCode::ArrayNewDynamic => "ArrayNewDynamic",
            OpCode::ArraySet => "ArraySet",
            OpCode::ArraySetReg => "ArraySetReg",
            OpCode::ArrayGet => "ArrayGet",
            OpCode::ArrayPush => "ArrayPush",
        }
    }
}

/// The kind of value `op` needs in its operand registers.
fn operand_kind(op: OpCode) -> (s: &'static str)
    ensures
        s@ == operand_kind_text(op),
{
    proof {
        reveal_strlit("an integer");
        reveal_strlit("a float");
        reveal_strlit("a boolean");
        reveal_strlit("a string");
        reveal_strlit("a value");
    }
    match op {
        OpCode::AddInt | OpCode::SubtractInt | OpCode::MultiplyInt | OpCode::DivideInt | OpCode::ExponentInt | OpCode::NegateInt | OpCode::LessInt | OpCode::LessEqualInt | OpCode::GreaterInt | OpCode::GreaterEqualInt => "an integer",
        OpCode::AddFloat | OpCode::SubtractFloat | OpCode::MultiplyFloat | OpCode::DivideFloat | OpCode::ExponentFloat | OpCode::NegateFloat | OpCode::LessFloat | OpCode::LessEqualFloat | OpCode::GreaterFloat | OpCode::GreaterEqualFloat => "a float",
        OpCode::Not => "a boolean",
        OpCode::ConcatString => "a string",
        _ => "a value",
    }
}

/// The upper-case hexadecimal digit of `d`.
fn hex(d: u8) -> (c: char)
    requires
        d < 16,
    ensures
        c == hex_digit(d as int),
{
    if d < 10 {
        ((48 + d) as char)
    } else {
        ((55 + d) as char)
    }
}

impl VmError {
    /// The message this error is reported with.
    pub fn message(&self) -> (s: String)
        ensures
            s@ == vm_error_text(*self),
    {
        let mut s = String::new();
        match self {
            VmError::InvalidConstantIndex(i) => {
                push_str(&mut s, "Invalid constant index ");
                push_decimal(&mut s, *i as u64);
            },
            VmError::ExpectedIntegerConstant(i) => {
                push_str(&mut s, "Expected integer constant at index ");
                push_decimal(&mut s, *i as u64);
            },
            VmError::ExpectedFloatConstant(i) => {
                push_str(&mut s, "Expected float constant at index ");
                push_decimal(&mut s, *i as u64);
            },
            VmError::InvalidStringIndex(i) => {
                push_str(&mut s, "Invalid string index ");
                push_decimal(&mut s, *i as u64);
            },
            VmError::OperandType { opcode, operand } => {
                push_str(&mut s, opcode.variant_name());
                push_str(&mut s, ": ");
                match operand {
                    Operand::Left => push_str(&mut s, "left operand"),
                    Operand::Right => push_str(&mut s, "right operand"),
                    Operand::Only => push_str(&mut s, "operand"),
                }
                push_str(&mut s, " is not ");
                push_str(&mut s, operand_kind(*opcode));
            },
            VmError::DivisionByZero => push_str(&mut s, "Division by zero"),
            VmError::NegativeExponent => push_str(&mut s, "Negative exponent for integer"),
            VmError::IntegerOverflow => push_str(&mut s, "Integer overflow"),
            VmError::Unimplemented(op) => {
                push_str(&mut s, "Unimplemented opcode: ");
                push_str(&mut s, op.variant_name());
            },
            VmError::InvalidOpcode(b) => {
                push_str(&mut s, "Cannot convert byte '0x");
                push_char(&mut s, hex(*b / 16));
                push_char(&mut s, hex(*b % 16));
                push_str(&mut s, "' to an opcode");
            },
            VmError::TruncatedInstruction => push_str(&mut s, "Instruction runs past the end of the code"),
        }
        proof {
            reveal_strlit("Invalid constant index ");
            reveal_strlit("Expected integer constant at index ");
            reveal_strlit("Expected float constant at index ");
            reveal_strlit("Invalid string index ");
            reveal_strlit(": ");
            reveal_strlit("left operand");
            reveal_strlit("right operand");
            reveal_strlit("operand");
            reveal_strlit(" is not ");
            reveal_strlit("Division by zero");
            reveal_strlit("Negative exponent for integer");
            reveal_strlit("Integer overflow");
            reveal_strlit("Unimplemented opcode: ");
            reveal_strlit("Cannot convert byte '0x");
            reveal_strlit("' to an opcode");
            reveal_strlit("Instruction runs past the end of the code");
        }
        s
    }
}

} // verus!
