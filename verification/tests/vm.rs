use vyn::bytecode::OpCode;
use vyn::runtime_value::RuntimeValue;
use vyn::vm::{FloatResult, HydorVM, StepOutcome, VmError};

fn program(parts: Vec<Vec<u8>>) -> Vec<u8> {
    let mut code = Vec::new();
    for p in parts {
        code.extend(p);
    }
    code
}

#[test]
fn integer_arithmetic_and_halt() {
    let code = program(vec![
        OpCode::make(OpCode::LoadConstInt, vec![0, 0]),
        OpCode::make(OpCode::LoadConstInt, vec![1, 1]),
        OpCode::make(OpCode::AddInt, vec![2, 0, 1]),
        OpCode::make(OpCode::MultiplyInt, vec![3, 2, 1]),
        OpCode::make(OpCode::SubtractInt, vec![4, 3, 0]),
        OpCode::make(OpCode::DivideInt, vec![5, 3, 0]),
        OpCode::make(OpCode::Halt, vec![]),
    ]);
    let consts = vec![RuntimeValue::IntegerLiteral(5), RuntimeValue::IntegerLiteral(3)];
    let mut vm = HydorVM::new(code, consts, vec![]);
    assert!(matches!(vm.run(), Ok(None)));
    assert_eq!(vm.get_register_as_int(2), Some(8));
    assert_eq!(vm.get_register_as_int(3), Some(24));
    assert_eq!(vm.get_register_as_int(4), Some(19));
    assert_eq!(vm.get_register_as_int(5), Some(4));
    assert_eq!(vm.get_register_as_int(6), None);
}

#[test]
fn exponent_uses_checked_power() {
    let code = program(vec![
        OpCode::make(OpCode::LoadConstInt, vec![0, 0]),
        OpCode::make(OpCode::LoadConstInt, vec![1, 1]),
        OpCode::make(OpCode::ExponentInt, vec![2, 0, 1]),
        OpCode::make(OpCode::Halt, vec![]),
    ]);
    let consts = vec![RuntimeValue::IntegerLiteral(3), RuntimeValue::IntegerLiteral(4)];
    let mut vm = HydorVM::new(code, consts, vec![]);
    assert!(matches!(vm.run(), Ok(None)));
    assert_eq!(vm.get_register_as_int(2), Some(81));
}

#[test]
fn exponent_overflow_and_negative_exponent_fault() {
    let make = |a: i32, b: i32| {
        let code = program(vec![
            OpCode::make(OpCode::LoadConstInt, vec![0, 0]),
            OpCode::make(OpCode::LoadConstInt, vec![1, 1]),
            OpCode::make(OpCode::ExponentInt, vec![2, 0, 1]),
            OpCode::make(OpCode::Halt, vec![]),
        ]);
        HydorVM::new(code, vec![RuntimeValue::IntegerLiteral(a), RuntimeValue::IntegerLiteral(b)], vec![])
    };
    let mut vm = make(2, 40);
    assert_eq!(vm.run().err(), Some(VmError::IntegerOverflow));
    let mut vm = make(2, -1);
    assert_eq!(vm.run().err(), Some(VmError::NegativeExponent));
}

#[test]
fn division_by_zero_faults_and_keeps_state() {
    let code = program(vec![
        OpCode::make(OpCode::LoadConstInt, vec![0, 0]),
        OpCode::make(OpCode::LoadConstInt, vec![1, 1]),
        OpCode::make(OpCode::DivideInt, vec![2, 0, 1]),
        OpCode::make(OpCode::Halt, vec![]),
    ]);
    let consts = vec![RuntimeValue::IntegerLiteral(7), RuntimeValue::IntegerLiteral(0)];
    let mut vm = HydorVM::new(code, consts, vec![]);
    assert_eq!(vm.run().err(), Some(VmError::DivisionByZero));
    assert_eq!(vm.get_register_as_int(2), None);
    assert_eq!(vm.get_register_as_int(0), Some(7));
}

#[test]
fn integer_overflow_faults() {
    let code = program(vec![
        OpCode::make(OpCode::LoadConstInt, vec![0, 0]),
        OpCode::make(OpCode::AddInt, vec![1, 0, 0]),
        OpCode::make(OpCode::Halt, vec![]),
    ]);
    let mut vm = HydorVM::new(code, vec![RuntimeValue::IntegerLiteral(i32::MAX)], vec![]);
    assert_eq!(vm.run().err(), Some(VmError::IntegerOverflow));
}

#[test]
fn comparisons_and_not() {
    let code = program(vec![
        OpCode::make(OpCode::LoadConstInt, vec![0, 0]),
        OpCode::make(OpCode::LoadConstInt, vec![1, 1]),
        OpCode::make(OpCode::LessInt, vec![2, 0, 1]),
        OpCode::make(OpCode::GreaterEqualInt, vec![3, 0, 1]),
        OpCode::make(OpCode::Not, vec![4, 2]),
        OpCode::make(OpCode::Equal, vec![5, 0, 0]),
        OpCode::make(OpCode::NotEqual, vec![6, 0, 1]),
        OpCode::make(OpCode::Halt, vec![]),
    ]);
    let consts = vec![RuntimeValue::IntegerLiteral(1), RuntimeValue::IntegerLiteral(2)];
    let mut vm = HydorVM::new(code, consts, vec![]);
    assert!(matches!(vm.run(), Ok(None)));
    assert_eq!(vm.get_register_as_bool(2), Some(true));
    assert_eq!(vm.get_register_as_bool(3), Some(false));
    assert_eq!(vm.get_register_as_bool(4), Some(false));
    assert_eq!(vm.get_register_as_bool(5), Some(true));
    assert_eq!(vm.get_register_as_bool(6), Some(true));
}

#[test]
fn string_concatenation_appends_to_the_table() {
    let code = program(vec![
        OpCode::make(OpCode::LoadString, vec![0, 0]),
        OpCode::make(OpCode::LoadString, vec![1, 1]),
        OpCode::make(OpCode::ConcatString, vec![2, 0, 1]),
        OpCode::make(OpCode::Halt, vec![]),
    ]);
    let strings = vec!["foo".to_string(), "bar".to_string()];
    let mut vm = HydorVM::new(code, vec![], strings);
    assert!(matches!(vm.run(), Ok(None)));
    assert_eq!(vm.get_register(2), &RuntimeValue::StringLiteral(2));
    assert_eq!(vm.get_string(2).map(|s| s.as_str()), Some("foobar"));
    assert_eq!(vm.get_string(0).map(|s| s.as_str()), Some("foo"));
    assert!(vm.get_string(3).is_none());
}

#[test]
fn float_instructions_are_handed_out() {
    let code = program(vec![
        OpCode::make(OpCode::LoadConstFloat, vec![0, 0]),
        OpCode::make(OpCode::LoadConstFloat, vec![1, 1]),
        OpCode::make(OpCode::AddFloat, vec![2, 0, 1]),
        OpCode::make(OpCode::Halt, vec![]),
    ]);
    let consts = vec![RuntimeValue::FloatLiteral("1.5".to_string()), RuntimeValue::FloatLiteral("2.25".to_string())];
    let mut vm = HydorVM::new(code, consts, vec![]);
    let request = vm.run().unwrap().expect("a float request");
    assert_eq!(request.opcode, OpCode::AddFloat);
    assert_eq!(request.dest, 2);
    assert_eq!(request.left, "1.5");
    assert_eq!(request.right, "2.25");
    vm.complete_float(FloatResult::Number("3.75".to_string()));
    assert!(matches!(vm.run(), Ok(None)));
    assert_eq!(vm.get_register_as_float(2).as_deref(), Some("3.75"));
}

#[test]
fn operand_type_and_bad_bytes_fault() {
    let code = program(vec![
        OpCode::make(OpCode::LoadTrue, vec![0]),
        OpCode::make(OpCode::NegateInt, vec![1, 0]),
    ]);
    let mut vm = HydorVM::new(code, vec![], vec![]);
    assert!(matches!(vm.run(), Err(VmError::OperandType { .. })));

    let mut vm = HydorVM::new(vec![0xEE], vec![], vec![]);
    assert_eq!(vm.run().err(), Some(VmError::InvalidOpcode(0xEE)));

    let mut vm = HydorVM::new(vec![], vec![], vec![]);
    assert_eq!(vm.run().err(), Some(VmError::TruncatedInstruction));

    let mut vm = HydorVM::new(OpCode::make(OpCode::LoadConstInt, vec![0, 9]), vec![], vec![]);
    assert_eq!(vm.run().err(), Some(VmError::InvalidConstantIndex(9)));

    let mut vm = HydorVM::new(OpCode::make(OpCode::StoreGlobal, vec![0, 0]), vec![], vec![]);
    assert_eq!(vm.run().err(), Some(VmError::Unimplemented(OpCode::StoreGlobal)));
}

#[test]
fn negation_and_moves() {
    let code = program(vec![
        OpCode::make(OpCode::LoadConstInt, vec![0, 0]),
        OpCode::make(OpCode::NegateInt, vec![1, 0]),
        OpCode::make(OpCode::Move, vec![2, 1]),
        OpCode::make(OpCode::LoadNil, vec![0]),
        OpCode::make(OpCode::Halt, vec![]),
    ]);
    let mut vm = HydorVM::new(code, vec![RuntimeValue::IntegerLiteral(9)], vec![]);
    assert!(matches!(vm.run(), Ok(None)));
    assert_eq!(vm.get_register_as_int(1), Some(-9));
    assert_eq!(vm.get_register_as_int(2), Some(-9));
    assert_eq!(vm.get_register(0), &RuntimeValue::NilLiteral);
}

#[test]
fn halting_step_changes_nothing() {
    let mut vm = HydorVM::new(OpCode::make(OpCode::Halt, vec![]), vec![], vec![]);
    assert!(matches!(vm.step(), Ok(StepOutcome::Halted)));
    assert!(matches!(vm.step(), Ok(StepOutcome::Halted)));
    assert_eq!(vm.get_register(0), &RuntimeValue::NilLiteral);
}

#[test]
fn float_equality_is_handed_out() {
    let code = program(vec![
        OpCode::make(OpCode::LoadConstFloat, vec![0, 0]),
        OpCode::make(OpCode::LoadConstFloat, vec![1, 1]),
        OpCode::make(OpCode::Equal, vec![2, 0, 1]),
        OpCode::make(OpCode::Halt, vec![]),
    ]);
    // "3" and "3.0" are different texts of one number
    let consts = vec![RuntimeValue::FloatLiteral("3".to_string()), RuntimeValue::FloatLiteral("3.0".to_string())];
    let mut vm = HydorVM::new(code, consts, vec![]);
    let request = vm.run().unwrap().expect("a float request");
    assert_eq!(request.opcode, OpCode::Equal);
    assert_eq!(request.dest, 2);
    assert_eq!(request.left, "3");
    assert_eq!(request.right, "3.0");
    vm.complete_float(FloatResult::Truth(true));
    assert!(matches!(vm.run(), Ok(None)));
}
