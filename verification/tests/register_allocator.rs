use vyn::errors::VynError;
use vyn::ir::VynIROC;
use vyn::register_allocator::RegisterAllocator;
use vyn::span::Span;
use vyn::vm::{Operand, VmError};
use vyn::bytecode::OpCode;
use vyn::compiler::{VynCompiler, VynIR};
use vyn::ir::Label;

fn program() -> Vec<vyn::ir::VynIROpCode> {
    let s = Span::default();
    vec![
        VynIROC::LoadConstInt { dest: 0, value: 1 }.spanned(s),
        VynIROC::LoadConstInt { dest: 1, value: 2 }.spanned(s),
        VynIROC::LogAddr { addr: 1 }.spanned(s),
        VynIROC::LogAddr { addr: 1 }.spanned(s),
        VynIROC::Halt.spanned(s),
    ]
}

#[test]
fn peak_usage_outlives_freeing() {
    let s = Span::default();
    let mut ra = RegisterAllocator::new(4);
    ra.analyze_liveness(&program());
    assert_eq!(ra.num_live_ranges(), 6);
    assert_eq!(ra.allocate(0, 0, s).ok(), Some(0));
    assert_eq!(ra.allocate(1, 1, s).ok(), Some(1));
    // v1 is still read after instruction 2: nothing is freed
    ra.free(1, 2);
    assert_eq!(ra.num_used_registers(), 2);
    // v0 is never read again
    ra.free(0, 2);
    assert_eq!(ra.num_used_registers(), 1);
    assert_eq!(ra.peak_register_usage(), 2);
    // the freed physical register is handed out again
    assert_eq!(ra.allocate(5, 2, s).ok(), Some(0));
    assert_eq!(ra.peak_register_usage(), 2);
}

#[test]
fn get_gives_what_allocate_gave() {
    let s = Span::default();
    let mut ra = RegisterAllocator::new(2);
    ra.analyze_liveness(&program());
    assert_eq!(ra.allocate(7, 0, s).ok(), Some(0));
    assert_eq!(ra.get(7).ok(), Some(0));
    assert!(ra.is_allocated(7));
    // a register never allocated is an error
    assert!(matches!(ra.get(9), Err(VynError::RegisterOverflow { .. })));
    // allocating again gives the same register
    assert_eq!(ra.allocate(7, 1, s).ok(), Some(0));
}

#[test]
fn allocation_fails_when_every_register_is_live() {
    let s = Span::default();
    let mut ra = RegisterAllocator::new(1);
    ra.analyze_liveness(&program());
    assert_eq!(ra.allocate(1, 1, s).ok(), Some(0));
    // v1 is live after instruction 1, so its register cannot be reused
    assert!(matches!(ra.allocate(2, 1, s), Err(VynError::RegisterOverflow { .. })));
    // after instruction 3 nothing reads v1 any more
    assert_eq!(ra.allocate(2, 3, s).ok(), Some(0));
    assert!(!ra.is_allocated(1));
}

#[test]
fn machine_error_texts() {
    assert_eq!(VmError::DivisionByZero.message(), "Division by zero");
    assert_eq!(VmError::NegativeExponent.message(), "Negative exponent for integer");
    assert_eq!(
        VmError::OperandType { opcode: OpCode::AddInt, operand: Operand::Left }.message(),
        "AddInt: left operand is not an integer"
    );
    assert_eq!(
        VmError::OperandType { opcode: OpCode::DivideFloat, operand: Operand::Right }.message(),
        "DivideFloat: right operand is not a float"
    );
    assert_eq!(VmError::OperandType { opcode: OpCode::Not, operand: Operand::Only }.message(), "Not: operand is not a boolean");
    assert_eq!(VmError::InvalidConstantIndex(12).message(), "Invalid constant index 12");
    assert_eq!(VmError::ExpectedIntegerConstant(3).message(), "Expected integer constant at index 3");
    assert_eq!(VmError::InvalidStringIndex(0).message(), "Invalid string index 0");
    assert_eq!(VmError::Unimplemented(OpCode::ArrayGet).message(), "Unimplemented opcode: ArrayGet");
    assert_eq!(VmError::InvalidOpcode(0xAB).message(), "Cannot convert byte '0xAB' to an opcode");
}

#[test]
fn compiled_jumps_hold_their_target_low_byte_first() {
    let s = Span::default();
    let ir = VynIR {
        instructions: vec![
            VynIROC::LoadBool { dest: 0, value: true }.spanned(s),
            VynIROC::JumpIfFalse { condition_reg: 0, label: Label(1) }.spanned(s),
            VynIROC::LoadBool { dest: 1, value: false }.spanned(s),
            VynIROC::Label(Label(1)).spanned(s),
            VynIROC::Halt.spanned(s),
        ],
    };
    let mut compiler = VynCompiler::new();
    let bytecode = match compiler.compile_ir(&ir) {
        Ok(b) => b,
        Err(_) => panic!("compiling failed"),
    };
    let code = bytecode.instructions;
    // LoadTrue r0 (2 bytes), JumpIfFalse r0 offset (4 bytes), LoadFalse r? (2 bytes), Halt
    assert_eq!(code.len(), 9);
    assert_eq!(code[0], OpCode::LoadTrue.to_byte());
    assert_eq!(code[2], OpCode::JumpIfFalse.to_byte());
    // the label stands at offset 8
    assert_eq!(code[4], 8);
    assert_eq!(code[5], 0);
    assert_eq!(code[8], OpCode::Halt.to_byte());
}

#[test]
fn compiling_shares_constants_and_keeps_one_debug_run() {
    let s = Span::default();
    let ir = VynIR {
        instructions: vec![
            VynIROC::LoadConstInt { dest: 0, value: 42 }.spanned(s),
            VynIROC::LoadConstInt { dest: 1, value: 42 }.spanned(s),
            VynIROC::AddInt { dest: 2, left: 0, right: 1 }.spanned(s),
            VynIROC::Halt.spanned(s),
        ],
    };
    let mut compiler = VynCompiler::new();
    let bytecode = match compiler.compile_ir(&ir) {
        Ok(b) => b,
        Err(_) => panic!("compiling failed"),
    };
    assert_eq!(bytecode.instructions, vec![0x03, 0, 0, 0, 0x03, 1, 0, 0, 0x10, 2, 0, 1, 0x01]);
    assert_eq!(bytecode.constants.len(), 1);
    assert!(matches!(bytecode.constants[0], vyn::runtime_value::RuntimeValue::IntegerLiteral(42)));
    assert!(bytecode.string_table.is_empty());
    // every byte has the same span: one run
    assert_eq!(bytecode.debug_info.num_runs(), 1);
}
