use vyn::bytecode::OpCode;
use vyn::disassembler::{
    decode_instructions, is_constant_index, is_decodable, is_global_index, is_register_operand, is_string_index,
    OperandKind,
};
use vyn::pipeline::{run_file, CompileFailure, Phase};
use vyn::tokens::TokenType;
use vyn::vm::HydorVM;

fn float_op(a: String, op: TokenType, b: String) -> Option<String> {
    let x: f64 = a.parse().unwrap();
    let y: f64 = b.parse().unwrap();
    match op {
        TokenType::Plus => Some(format!("{}", x + y)),
        TokenType::Minus => Some(format!("{}", x - y)),
        TokenType::Asterisk => Some(format!("{}", x * y)),
        TokenType::Slash => {
            if y == 0.0 {
                None
            } else {
                Some(format!("{}", x / y))
            }
        }
        TokenType::Caret => Some(format!("{}", x.powf(y))),
        _ => None,
    }
}

fn quiet(_phase: Phase, _begin: bool) {}

#[test]
fn phases_are_announced_in_order() {
    let events = std::cell::RefCell::new(Vec::new());
    let record = |p: Phase, begin: bool| events.borrow_mut().push((p, begin));
    let r = run_file("let @x: Int;\nx = 2;\n", &float_op, &record);
    assert!(r.is_ok());
    let events = events.into_inner();
    assert_eq!(events.len(), 12);
    assert_eq!(events[0], (Phase::Tokenizing, true));
    assert_eq!(events[1], (Phase::Tokenizing, false));
    assert_eq!(events[11], (Phase::Compiling, false));

    let events = std::cell::RefCell::new(Vec::new());
    let record = |p: Phase, begin: bool| events.borrow_mut().push((p, begin));
    let r = run_file("let = ;\n", &float_op, &record);
    assert!(r.is_err());
    assert_eq!(events.into_inner(), vec![(Phase::Tokenizing, true), (Phase::Tokenizing, false), (Phase::Parsing, true)]);
}

#[test]
fn compiles_a_small_program_to_decodable_bytecode() {
    let source = "let @x: Int;\nx = 1 + 2;\n";
    let compiled = run_file(source, &float_op, &quiet).expect("program compiles");
    let code = &compiled.bytecode.instructions;
    assert!(is_decodable(code));
    let decoded = decode_instructions(code, &compiled.bytecode.debug_info);
    assert!(!decoded.is_empty());
    assert_eq!(decoded[0].offset, 0);
    assert_eq!(decoded.last().unwrap().opcode, OpCode::Halt);
    let mut expected_offset = 0;
    for d in &decoded {
        assert_eq!(d.offset, expected_offset);
        assert_eq!(code[d.offset], d.opcode_byte);
        let widths = OpCode::get_definition(d.opcode).operands_width;
        assert_eq!(widths.len(), d.operands.len());
        expected_offset += 1 + widths.iter().sum::<usize>();
    }
    assert_eq!(expected_offset, code.len());
}

#[test]
fn compiled_program_runs_on_the_machine() {
    let source = "let @x: Int;\nx = 6 * 7;\n";
    let compiled = run_file(source, &float_op, &quiet).expect("program compiles");
    let bc = compiled.bytecode;
    let mut vm = HydorVM::new(bc.instructions, bc.constants, bc.string_table);
    let r = vm.run();
    assert!(matches!(r, Ok(None)));
    let mut found = false;
    for reg in 0..=255u8 {
        if vm.get_register_as_int(reg) == Some(42) {
            found = true;
        }
    }
    assert!(found);
}

#[test]
fn parse_errors_stop_at_parsing() {
    let r = run_file("let = ;\n", &float_op, &quiet);
    match r {
        Err(CompileFailure::Errors(phase, errors)) => {
            assert_eq!(phase, Phase::Parsing);
            assert!(!errors.errors.is_empty());
        }
        _ => panic!("expected a parse error"),
    }
}

#[test]
fn typed_initializer_is_refused_by_the_parser() {
    // the declaration parser does not step over `=`, so an initializer
    // after a type annotation is reported as an unexpected token
    let r = run_file("let x: Int = 5;\n", &float_op, &quiet);
    match r {
        Err(CompileFailure::Errors(phase, errors)) => {
            assert_eq!(phase, Phase::Parsing);
            assert!(!errors.errors.is_empty());
        }
        _ => panic!("expected a parse error"),
    }
}

#[test]
fn type_errors_stop_at_type_checking() {
    let r = run_file("let @x: Int;\nx = \"text\";\n", &float_op, &quiet);
    match r {
        Err(CompileFailure::Errors(phase, errors)) => {
            assert_eq!(phase, Phase::TypeChecking);
            assert!(!errors.errors.is_empty());
        }
        other => panic!("expected a type error, got {:?}", other.is_ok()),
    }
}

#[test]
fn static_division_by_zero_stops_at_static_evaluation() {
    let r = run_file("static N: Int = 1 / 0;\n", &float_op, &quiet);
    match r {
        Err(CompileFailure::Errors(phase, errors)) => {
            assert_eq!(phase, Phase::StaticEvaluation);
            assert!(!errors.errors.is_empty());
        }
        _ => panic!("expected a static evaluation error"),
    }
}

#[test]
fn phases_have_names_and_progress() {
    assert_eq!(Phase::Tokenizing.name(), "Tokenizing");
    assert_eq!(Phase::StaticEvaluation.name(), "Evaluating Statics");
    assert_eq!(Phase::TypeChecking.progress_start(), 48);
    assert_eq!(Phase::TypeChecking.progress_end(), 64);
    assert_eq!(Phase::Compiling.progress_end(), 100);
    let phases = [
        Phase::Tokenizing,
        Phase::Parsing,
        Phase::StaticEvaluation,
        Phase::TypeChecking,
        Phase::IRBuilding,
        Phase::Compiling,
    ];
    assert_eq!(phases[0].progress_start(), 0);
    for w in phases.windows(2) {
        assert_eq!(w[0].progress_end(), w[1].progress_start());
        assert!(w[0].progress_start() < w[0].progress_end());
    }
}

#[test]
fn operand_kinds_follow_the_opcode() {
    let code = OpCode::make(OpCode::LoadConstInt, vec![3, 0x0102]);
    let mut debug_info = vyn::debug_info::DebugInfo::new();
    debug_info.add_span(0, vyn::span::Span { line: 4, start_column: 2, end_column: 9 });
    assert!(is_decodable(&code));
    let decoded = decode_instructions(&code, &debug_info);
    assert_eq!(decoded.len(), 1);
    assert_eq!(decoded[0].span, vyn::span::Span { line: 4, start_column: 2, end_column: 9 });
    assert_eq!(decoded[0].operands[0].kind, OperandKind::Register);
    assert_eq!(decoded[0].operands[0].value, 3);
    assert_eq!(decoded[0].operands[1].kind, OperandKind::Constant);
    assert_eq!(decoded[0].operands[1].value, 0x0102);

    let code = OpCode::make(OpCode::StoreGlobal, vec![7, 1]);
    let decoded = decode_instructions(&code, &vyn::debug_info::DebugInfo::new());
    assert_eq!(decoded[0].operands[0].kind, OperandKind::Global);
    assert_eq!(decoded[0].operands[1].kind, OperandKind::Register);

    let code = OpCode::make(OpCode::JumpUncond, vec![300]);
    let decoded = decode_instructions(&code, &vyn::debug_info::DebugInfo::new());
    assert_eq!(decoded[0].operands[0].kind, OperandKind::Raw);
    assert_eq!(decoded[0].operands[0].value, 300);

    let code = OpCode::make(OpCode::LoadString, vec![1, 2]);
    let decoded = decode_instructions(&code, &vyn::debug_info::DebugInfo::new());
    assert_eq!(decoded[0].operands[1].kind, OperandKind::StringIndex);
}

#[test]
fn undecodable_code_is_detected() {
    assert!(is_decodable(&vec![]));
    assert!(!is_decodable(&vec![0x00]));
    assert!(!is_decodable(&vec![0x03, 0x01]));
    let wide = OpCode::make(OpCode::ArrayNewFixed, vec![1, 2]);
    assert!(!is_decodable(&wide));
    let mut two = OpCode::make(OpCode::AddInt, vec![1, 2, 3]);
    two.extend(OpCode::make(OpCode::Halt, vec![]));
    assert!(is_decodable(&two));
}

#[test]
fn register_operand_positions() {
    assert!(is_register_operand(&OpCode::LoadConstInt, 0));
    assert!(!is_register_operand(&OpCode::LoadConstInt, 1));
    assert!(is_register_operand(&OpCode::AddInt, 2));
    assert!(is_register_operand(&OpCode::StoreGlobal, 1));
    assert!(!is_register_operand(&OpCode::StoreGlobal, 0));
    assert!(!is_register_operand(&OpCode::Halt, 0));
    assert!(is_constant_index(&OpCode::LoadConstFloat, 1));
    assert!(!is_constant_index(&OpCode::LoadString, 1));
    assert!(is_string_index(&OpCode::LoadString, 1));
    assert!(is_global_index(&OpCode::LoadGlobal, 1));
    assert!(is_global_index(&OpCode::StoreGlobal, 0));
    assert!(!is_global_index(&OpCode::LoadGlobal, 0));
}

#[test]
fn names_declared_in_a_scope_are_gone_after_it() {
    let ok = run_file("let @x: Int;\nif true {\nlet @y: Int;\ny = 2;\n}\nx = 3;\n", &float_op, &quiet);
    assert!(ok.is_ok());
    let r = run_file("let @x: Int;\nif true {\nlet @y: Int;\n}\nx = y;\n", &float_op, &quiet);
    match r {
        Err(CompileFailure::Errors(phase, errors)) => {
            assert_eq!(phase, Phase::TypeChecking);
            assert!(!errors.errors.is_empty());
        }
        _ => panic!("expected a type error"),
    }
}

#[test]
fn immutable_and_static_names_cannot_be_assigned() {
    let r = run_file("let x: Int;\nx = 1;\n", &float_op, &quiet);
    assert!(matches!(r, Err(CompileFailure::Errors(Phase::TypeChecking, _))));
    let r = run_file("static N: Int = 4;\nN = 1;\n", &float_op, &quiet);
    assert!(matches!(r, Err(CompileFailure::Errors(Phase::TypeChecking, _))));
}

#[test]
fn redeclaration_is_a_type_error() {
    let r = run_file("let @x: Int;\nlet @x: Int;\n", &float_op, &quiet);
    assert!(matches!(r, Err(CompileFailure::Errors(Phase::TypeChecking, _))));
}

fn type_errors_of(source: &str) -> Vec<vyn::errors::VynError> {
    match run_file(source, &float_op, &quiet) {
        Err(CompileFailure::Errors(Phase::TypeChecking, errors)) => errors.errors,
        _ => panic!("expected a type error"),
    }
}

#[test]
fn indexing_a_non_array_is_reported_as_such() {
    let errors = type_errors_of("let @a: Int;\na::0;\n");
    assert_eq!(errors.len(), 1);
    assert!(matches!(errors[0], vyn::errors::VynError::InvalidIndexing { target: vyn::types::Type::Integer, .. }));
}

#[test]
fn a_non_integer_index_is_a_type_mismatch() {
    let errors = type_errors_of("let @a: Int;\na::true;\n");
    assert_eq!(errors.len(), 1);
    match &errors[0] {
        vyn::errors::VynError::TypeMismatch { expected, found, .. } => {
            assert_eq!(expected.len(), 1);
            assert!(matches!(expected[0], vyn::types::Type::Integer));
            assert!(matches!(found, vyn::types::Type::Bool));
        }
        _ => panic!("expected a type mismatch"),
    }
}

#[test]
fn a_non_boolean_condition_is_a_type_mismatch() {
    let errors = type_errors_of("let @a: Int;\nif a {\n}\n");
    assert_eq!(errors.len(), 1);
    match &errors[0] {
        vyn::errors::VynError::TypeMismatch { expected, found, .. } => {
            assert_eq!(expected.len(), 1);
            assert!(matches!(expected[0], vyn::types::Type::Bool));
            assert!(matches!(found, vyn::types::Type::Integer));
        }
        _ => panic!("expected a type mismatch"),
    }
}
