use vyn::ast::{Expr, Node};
use vyn::bytecode::OpCode;
use vyn::hydor_error::HydorError;
use vyn::messages::marker_layout;
use vyn::errors::VynError;
use vyn::runtime_value::RuntimeType;
use vyn::span::Span;
use vyn::text::{push_decimal, push_signed_decimal};
use vyn::tokens::{Token, TokenType};
use vyn::types::Type;

fn sp() -> Span {
    Span { line: 1, start_column: 1, end_column: 2 }
}

#[test]
fn decimal_numerals() {
    let mut s = String::new();
    push_decimal(&mut s, 0);
    assert_eq!(s, "0");
    let mut s = String::from("n=");
    push_decimal(&mut s, 1234567890123);
    assert_eq!(s, "n=1234567890123");
    let mut s = String::new();
    push_signed_decimal(&mut s, -42);
    assert_eq!(s, "-42");
    let mut s = String::new();
    push_signed_decimal(&mut s, i64::MIN);
    assert_eq!(s, "-9223372036854775808");
    let mut s = String::new();
    push_decimal(&mut s, u64::MAX);
    assert_eq!(s, "18446744073709551615");
}

#[test]
fn type_and_token_texts() {
    assert_eq!(Type::Integer.to_string(), "Int");
    assert_eq!(Type::Array(Box::new(Type::Bool), 3).to_string(), "[3]Bool");
    assert_eq!(Type::Sequence(Box::new(Type::String)).to_string(), "[]String");
    assert_eq!(Token::Integer(-5).to_string(), "-5");
    assert_eq!(Token::String("hi".to_string()).to_string(), "\"hi\"");
    assert_eq!(Token::Identifier("abc".to_string()).to_string(), "abc");
    assert_eq!(Token::Plus.to_string(), "+");
    assert_eq!(TokenType::Plus.name(), "Plus");
    assert_eq!(TokenType::Semicolon.text(), ";");
    assert_eq!(RuntimeType::Boolean.display_text(), "Boolean");
    assert_eq!(RuntimeType::Boolean.to_string(), "boolean");
}

#[test]
fn expression_texts() {
    let one = Box::new(Expr::IntegerLiteral(1).spanned(sp()));
    let two = Box::new(Expr::IntegerLiteral(2).spanned(sp()));
    let sum = Expr::BinaryOperation { left: one, operator: Token::Plus, right: two };
    let expected = "(1 + 2)".to_string();
    assert_eq!(sum.to_string(), expected);
    let arr = Expr::ArrayLiteral {
        elements: vec![
            Box::new(Expr::BooleanLiteral(true).spanned(sp())),
            Box::new(Expr::NilLiteral.spanned(sp())),
            Box::new(Expr::StringLiteral("s".to_string()).spanned(sp())),
        ],
    };
    assert_eq!(arr.to_string(), "[true, nil, \"s\"]");
    let idx = Expr::Index {
        target: Box::new(Expr::Identifier("a".to_string()).spanned(sp())),
        property: Box::new(Expr::IntegerLiteral(0).spanned(sp())),
    };
    assert_eq!(idx.to_string(), "a::0");
}

#[test]
fn messages_name_the_offending_values() {
    let e = VynError::UndefinedVariable { name: "foo".to_string(), span: sp() };
    assert_eq!(e.message(), "Undefined variable 'foo'");
    assert_eq!(e.hint(), Some("Declare the variable 'foo' before using it".to_string()));

    let e = VynError::ArrayLengthMismatch { expected: 3, got: 12, span: sp() };
    assert_eq!(e.message(), "Array length mismatch, expected length '[3]' but got '[12]' instead");

    let e = VynError::VariableRedeclaration {
        name: "x".to_string(),
        original_span: Span { line: 4, start_column: 9, end_column: 10 },
        redeclaration_span: sp(),
    };
    assert_eq!(e.message(), "Variable 'x' is already declared at Ln 4:9");

    let e = VynError::IndexOutOfBounds { size: 2, idx: -1, span: sp() };
    assert_eq!(e.message(), "Cannot index a value in index '-1' with a length of '2'");
    assert_eq!(e.hint(), None);

    let e = VynError::DivisionByZero { span: sp() };
    assert_eq!(e.message(), "Cannot divide by zero");
    assert_eq!(e.hint(), None);
}

#[test]
fn type_mismatch_lists_alternatives() {
    let e = VynError::TypeMismatch { expected: vec![Type::Integer, Type::Float], found: Type::Bool, span: sp() };
    assert_eq!(e.message(), "Type mismatch: expected 'Int' or 'Float', got 'Bool'");
    assert_eq!(e.hint(), Some("Ensure the value matches one of the expected types".to_string()));
    let e = VynError::TypeMismatch { expected: vec![Type::String], found: Type::Integer, span: sp() };
    assert_eq!(e.message(), "Type mismatch: expected 'String', got 'Int'");
    assert_eq!(e.hint(), Some("Convert the value to type 'String'".to_string()));
}

#[test]
fn operator_errors_depend_on_the_operand_types() {
    let e = VynError::InvalidBinaryOp {
        operator: TokenType::Plus,
        left_type: Type::Bool,
        right_type: Type::Bool,
        span: sp(),
    };
    assert_eq!(e.message(), "Math operator '+' is not supported for type 'Bool'");
    assert_eq!(e.hint(), Some("Arithmetic operators require integer or float operands".to_string()));
    let e = VynError::InvalidBinaryOp {
        operator: TokenType::LessThan,
        left_type: Type::Integer,
        right_type: Type::String,
        span: sp(),
    };
    assert_eq!(
        e.message(),
        "Math operator '<' cannot be used between 'Int' and 'String'"
    );
    assert_eq!(e.hint(), Some("Both operands must have the same type".to_string()));

    let e = VynError::ArithmeticError {
        operation: TokenType::Minus,
        left_type: RuntimeType::String,
        right_type: RuntimeType::String,
        span: sp(),
    };
    assert_eq!(e.hint(), Some("Type 'String' does not support arithmetic operations".to_string()));

    let e = VynError::InvalidUnaryOp { operator: TokenType::Not, operand_type: Type::Integer, span: sp() };
    assert_eq!(e.hint(), Some("Logical negation requires a boolean operand".to_string()));
}

#[test]
fn unknown_nodes_and_type_inference() {
    let e = VynError::UnknownAST { node: Node::Expression(Expr::NilLiteral), span: sp() };
    assert_eq!(e.message(), "Unimplemented expression:\n\n");
    assert_eq!(e.hint(), Some("This is a compiler bug. Please report this issue".to_string()));
    let e = VynError::TypeInfer { expr: Expr::Identifier("q".to_string()), span: sp() };
    assert_eq!(e.message(), "Cannot infer type of expression 'q'");
    assert_eq!(e.hint(), Some("Annotate a type for expression 'q'".to_string()));
}

#[test]
fn machine_error_messages() {
    let e = HydorError::GlobalStackOverflow { stack_length: 300, max: 256, span: sp() };
    assert_eq!(e.message(), "Global stack overflow: too many global variables (300 / max 256)");
    assert_eq!(e.category(), "Runtime");
    assert_eq!(
        e.hint(),
        Some("Reduce the number of global variables, or move values into local scopes or functions".to_string())
    );
    let e = HydorError::OperandStackUnderflow { stack_length: 0, span: sp() };
    assert_eq!(e.message(), "Operand stack underflow: attempted to pop from stack with 0 elements");
    let e = HydorError::VariableRedeclaration {
        name: "v".to_string(),
        original_span: Span { line: 2, start_column: 5, end_column: 6 },
        redeclaration_span: Span { line: 3, start_column: 1, end_column: 2 },
    };
    assert_eq!(e.message(), "Variable 'v' is already declared at Ln 2:5");
    assert_eq!(e.span(), Span { line: 3, start_column: 1, end_column: 2 });
    assert_eq!(e.category(), "Type");
    let e = HydorError::TypeMismatch { expected: vec![Type::Integer], found: Type::Float, span: sp() };
    assert_eq!(e.message(), "Type mismatch: expected 'Int', got 'Float'");
    let e = HydorError::UnaryOperationError { operation: TokenType::Minus, operand_type: RuntimeType::String, span: sp() };
    assert_eq!(e.message(), "Unary operation '-' is not supported for type 'String'");
    assert_eq!(e.hint(), Some("Negation requires an integer or float operand".to_string()));
}

#[test]
fn opcode_symbols() {
    assert_eq!(OpCode::AddFloat.symbol(), Some("+"));
    assert_eq!(OpCode::Not.symbol(), Some("not"));
    assert_eq!(OpCode::GreaterEqualInt.symbol(), Some(">="));
    assert_eq!(OpCode::Halt.symbol(), None);
}

#[test]
fn error_categories_and_spans() {
    let e = VynError::StaticOverflow { span: sp() };
    assert_eq!(e.category(), "StaticEval");
    assert_eq!(e.span(), sp());
    let e = VynError::ImmutableMutation {
        identifier: "k".to_string(),
        span: Span { line: 9, start_column: 1, end_column: 2 },
        mutation_span: sp(),
    };
    assert_eq!(e.category(), "Type");
    assert_eq!(e.message(), "Cannot mutate immutable identifier 'k'");
    assert_eq!(e.hint(), Some("Prefix identifier 'k' with '@'".to_string()));
}

#[test]
fn marker_under_a_span() {
    assert_eq!(marker_layout(Span { line: 1, start_column: 5, end_column: 9 }), (4, 4));
    assert_eq!(marker_layout(Span { line: 1, start_column: 0, end_column: 0 }), (0, 1));
    assert_eq!(marker_layout(Span { line: 1, start_column: 3, end_column: 4 }), (2, 1));
}

#[test]
fn hints_and_messages_show_token_symbols() {
    let e = VynError::ExpectedToken { expected: TokenType::Semicolon, got: TokenType::Identifier, span: Span::default() };
    assert_eq!(e.hint(), Some("Insert ';' at this location".to_string()));
    assert_eq!(e.message(), "Expected ';' but found 'Identifier'");
    let e = VynError::InvalidTypeName { got: "Str".to_string(), span: Span::default() };
    assert_eq!(e.hint(), Some("Available types: Int, Float, Bool, String".to_string()));
    let e = HydorError::InvalidBinaryOp {
        operator: TokenType::Plus,
        left_type: Type::Bool,
        right_type: Type::Bool,
        span: Span::default(),
    };
    assert_eq!(e.message(), "Math operator '+' is not supported for type 'Bool'");
    let e = HydorError::InvalidBinaryOp {
        operator: TokenType::Plus,
        left_type: Type::Bool,
        right_type: Type::Integer,
        span: Span::default(),
    };
    assert_eq!(e.message(), "Math operator '+' cannot be used between 'Bool' and 'Int'");
    let e = VynError::IllegalLoopInterruptToken { token_type: TokenType::Break, span: Span::default() };
    assert_eq!(e.message(), "Illegal 'break' token found outside of loops");
}
