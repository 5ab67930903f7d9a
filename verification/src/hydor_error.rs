use vstd::prelude::*;
use crate::ast::Node;
use crate::messages::{is_math_operator, is_ordering_operator};
use crate::runtime_value::RuntimeType;
use crate::span::Span;
use crate::text::{
    alternatives_text, push_decimal, runtime_type_text, spec_decimal, type_text,
};
use crate::tokens::{TokenType, token_type_text};
use crate::types::Type;
use crate::vm::push_str;

verus! {

/// The errors of the stack-based machine and the phases that fed it: those
/// the parser, checker and compiler share with `VynError`, and the machine's
/// own stack faults.
#[derive(Debug)]
pub enum HydorError {
    UnexpectedToken { token: TokenType, span: Span },
    ExpectedToken { expected: TokenType, got: TokenType, span: Span },
    KeywordTypeError { got: TokenType, span: Span },
    InvalidTypeName { got: String, span: Span },
    ExpectedType { got: TokenType, span: Span },
    TypeMismatch { expected: Vec<Type>, found: Type, span: Span },
    DeclarationTypeMismatch { got: Type, expected: Type, span: Span },
    InvalidUnaryOp { operator: TokenType, operand_type: Type, span: Span },
    InvalidBinaryOp { operator: TokenType, left_type: Type, right_type: Type, span: Span },
    UndefinedVariable { name: String, span: Span },
    VariableRedeclaration { name: String, original_span: Span, redeclaration_span: Span },
    RegisterOverflow { span: Span },
    NotImplemented { feature: String, span: Span },
    UnknownAST { node: Node, span: Span },
    UndefinedIdentifier { ident_name: String, span: Span },
    OperandStackUnderflow { stack_length: usize, span: Span },
    OperandStackOverflow { stack_length: usize, span: Span },
    GlobalStackOverflow { stack_length: usize, max: usize, span: Span },
    ArithmeticError { operation: TokenType, left_type: RuntimeType, right_type: RuntimeType, span: Span },
    UnaryOperationError { operation: TokenType, operand_type: RuntimeType, span: Span },
    ComparisonOperationError { operation: TokenType, blame_type: RuntimeType, span: Span },
}

/// The category an error is reported under.
pub open spec fn spec_hydor_category(e: HydorError) -> Seq<char> {
    match e {
        HydorError::UnexpectedToken { .. } | HydorError::ExpectedToken { .. } | HydorError::KeywordTypeError { .. }
        | HydorError::InvalidTypeName { .. } | HydorError::ExpectedType { .. } => "Syntax"@,
        HydorError::TypeMismatch { .. } | HydorError::InvalidUnaryOp { .. } | HydorError::InvalidBinaryOp { .. }
        | HydorError::DeclarationTypeMismatch { .. } | HydorError::UndefinedVariable { .. }
        | HydorError::VariableRedeclaration { .. } => "Type"@,
        HydorError::RegisterOverflow { .. } | HydorError::NotImplemented { .. } | HydorError::UnknownAST { .. }
        | HydorError::UndefinedIdentifier { .. } => "Compiler"@,
        _ => "Runtime"@,
    }
}

/// The source location an error points at: for a redeclaration, the second
/// declaration.
pub open spec fn spec_hydor_span(e: HydorError) -> Span {
    match e {
        HydorError::UnexpectedToken { span, .. } => span,
        HydorError::ExpectedToken { span, .. } => span,
        HydorError::KeywordTypeError { span, .. } => span,
        HydorError::InvalidTypeName { span, .. } => span,
        HydorError::ExpectedType { span, .. } => span,
        HydorError::TypeMismatch { span, .. } => span,
        HydorError::DeclarationTypeMismatch { span, .. } => span,
        HydorError::InvalidUnaryOp { span, .. } => span,
        HydorError::InvalidBinaryOp { span, .. } => span,
        HydorError::UndefinedVariable { span, .. } => span,
        HydorError::VariableRedeclaration { redeclaration_span, .. } => redeclaration_span,
        HydorError::RegisterOverflow { span, .. } => span,
        HydorError::NotImplemented { span, .. } => span,
        HydorError::UnknownAST { span, .. } => span,
        HydorError::UndefinedIdentifier { span, .. } => span,
        HydorError::OperandStackUnderflow { span, .. } => span,
        HydorError::OperandStackOverflow { span, .. } => span,
        HydorError::GlobalStackOverflow { span, .. } => span,
        HydorError::ArithmeticError { span, .. } => span,
        HydorError::UnaryOperationError { span, .. } => span,
        HydorError::ComparisonOperationError { span, .. } => span,
    }
}

/// The message an error is reported with. For a node no phase handles, the
/// message ends where a dump of the node follows.
pub open spec fn spec_hydor_message(e: HydorError) -> Seq<char> {
    match e {
        HydorError::UnexpectedToken { token, .. } => "Unexpected token '"@ + token_type_text(token) + "'"@,
        HydorError::ExpectedToken { expected, got, .. } => "Expected '"@ + token_type_text(expected) + "' but found '"@ + token_type_text(got) + "'"@,
        HydorError::KeywordTypeError { got, .. } => "'"@ + token_type_text(got) + "' is a keyword and cannot be used as a type name"@,
        HydorError::RegisterOverflow { .. } => "Register overflow: expression is too complex"@,
        HydorError::NotImplemented { feature, .. } => "Feature not yet implemented: "@ + feature@,
        HydorError::InvalidTypeName { got, .. } => "'"@ + got@ + "' is not a valid type"@,
        HydorError::ExpectedType { got, .. } => "Expected type annotation, got '"@ + token_type_text(got) + "' instead"@,
        HydorError::DeclarationTypeMismatch { got, expected, .. } => "Type mismatch in variable declaration: expected '"@ + type_text(expected) + "', got '"@ + type_text(got) + "'"@,
        HydorError::InvalidUnaryOp { operator, operand_type, .. } => "Unary operator '"@ + token_type_text(operator) + "' cannot be applied to type '"@ + type_text(operand_type) + "'"@,
        HydorError::UndefinedVariable { name, .. } => "Undefined variable '"@ + name@ + "'"@,
        HydorError::VariableRedeclaration { name, original_span, .. } => "Variable '"@ + name@ + "' is already declared at Ln "@ + spec_decimal(original_span.line as nat) + ":"@ + spec_decimal(original_span.start_column as nat),
        HydorError::UndefinedIdentifier { ident_name, .. } => "Internal compiler error: undefined identifier '"@ + ident_name@ + "' escaped type checking"@,
        HydorError::UnaryOperationError { operation, operand_type, .. } => "Unary operation '"@ + token_type_text(operation) + "' is not supported for type '"@ + runtime_type_text(operand_type) + "'"@,
        HydorError::ComparisonOperationError { operation, blame_type, .. } => "Comparison operator '"@ + token_type_text(operation) + "' cannot be used with type '"@ + runtime_type_text(blame_type) + "'"@,
        HydorError::OperandStackUnderflow { stack_length, .. } => "Operand stack underflow: attempted to pop from stack with "@ + spec_decimal(stack_length as nat) + " elements"@,
        HydorError::OperandStackOverflow { stack_length, .. } => "Operand stack overflow: expression stack exceeded maximum size (current size: "@ + spec_decimal(stack_length as nat) + ")"@,
        HydorError::GlobalStackOverflow { stack_length, max, .. } => "Global stack overflow: too many global variables ("@ + spec_decimal(stack_length as nat) + " / max "@ + spec_decimal(max as nat) + ")"@,
        HydorError::TypeMismatch { expected, found, .. } => if expected@.len() > 1 {
            "Type mismatch: expected "@ + alternatives_text(expected@, expected@.len()) + ", got '"@ + type_text(found)
                + "'"@
        } else {
            "Type mismatch: expected '"@ + type_text(expected@[0]) + "', got '"@ + type_text(found) + "'"@
        },
        HydorError::InvalidBinaryOp { operator, left_type, right_type, .. } => if left_type == right_type {
            "Math operator '"@ + token_type_text(operator) + "' is not supported for type '"@ + type_text(left_type)
                + "'"@
        } else {
            "Math operator '"@ + token_type_text(operator) + "' cannot be used between '"@ + type_text(left_type)
                + "' and '"@ + type_text(right_type) + "'"@
        },
        HydorError::UnknownAST { node, .. } => match node {
            Node::Statement(_) => "Unimplemented statement:\n\n"@,
            Node::Expression(_) => "Unimplemented expression:\n\n"@,
        },
        HydorError::ArithmeticError { operation, left_type, right_type, .. } => if left_type == right_type {
            "Arithmetic operation '"@ + token_type_text(operation) + "' is not supported for type '"@
                + runtime_type_text(left_type) + "'"@
        } else {
            "Arithmetic operation '"@ + token_type_text(operation) + "' cannot be performed between '"@
                + runtime_type_text(left_type) + "' and '"@ + runtime_type_text(right_type) + "'"@
        },
    }
}

/// The hint an error is reported with, if any.
pub open spec fn spec_hydor_hint(e: HydorError) -> Option<Seq<char>> {
    match e {
        HydorError::UnexpectedToken { .. } => Some("Remove this token or check for missing syntax"@),
        HydorError::ExpectedToken { expected, .. } => Some("Insert '"@ + token_type_text(expected) + "' at this location"@),
        HydorError::KeywordTypeError { .. } => Some("Keywords are reserved and cannot be used as type names"@),
        HydorError::ExpectedType { got, .. } => Some("Insert a valid type before '"@ + token_type_text(got) + "' based on the assigned value"@),
        HydorError::RegisterOverflow { .. } => Some("Split this expression into multiple smaller expressions or statements"@),
        HydorError::NotImplemented { feature, .. } => Some("'"@ + feature@ + "' is planned but not yet available in this version"@),
        HydorError::InvalidTypeName { .. } => Some("Available types: Int, Float, Bool, String"@),
        HydorError::DeclarationTypeMismatch { got, expected, .. } => Some("Either change the declared type to '"@ + type_text(got) + "' or provide a value of type '"@ + type_text(expected) + "'"@),
        HydorError::UndefinedVariable { name, .. } => Some("Declare the variable '"@ + name@ + "' before using it"@),
        HydorError::VariableRedeclaration { name, .. } => Some("Remove this declaration or rename the variable to a different name than '"@ + name@ + "'"@),
        HydorError::UndefinedIdentifier { .. } => Some("This is a compiler bug. The type checker should have caught this error"@),
        HydorError::ComparisonOperationError { .. } => Some("Comparison operators require integer or float operands"@),
        HydorError::OperandStackUnderflow { .. } => Some("This is a virtual machine bug. Please report this issue"@),
        HydorError::OperandStackOverflow { .. } => Some("Reduce expression complexity or split expressions into smaller statements"@),
        HydorError::GlobalStackOverflow { .. } => Some("Reduce the number of global variables, or move values into local scopes or functions"@),
        HydorError::UnknownAST { .. } => Some("This is a compiler bug. Please report this issue"@),
        HydorError::TypeMismatch { expected, .. } => if expected@.len() > 1 {
            Some("Ensure the value matches one of the expected types"@)
        } else {
            Some("Convert the value to type '"@ + type_text(expected@[0]) + "'"@)
        },
        HydorError::InvalidUnaryOp { operator, .. } => if operator == TokenType::Not {
            Some("Logical negation requires a boolean operand"@)
        } else if operator == TokenType::Minus {
            Some("Numeric negation requires an integer or float operand"@)
        } else {
            Some("This operator is not supported for the given type"@)
        },
        HydorError::InvalidBinaryOp { operator, left_type, right_type, .. } => if left_type != right_type {
            Some("Both operands must have the same type"@)
        } else if is_math_operator(operator) {
            Some("Arithmetic operators require integer or float operands"@)
        } else if is_ordering_operator(operator) {
            Some("Comparison operators require integer or float operands"@)
        } else {
            Some("This operator is not supported for the given types"@)
        },
        HydorError::ArithmeticError { left_type, right_type, .. } => if left_type == right_type {
            Some("Type '"@ + runtime_type_text(left_type) + "' does not support arithmetic operations"@)
        } else {
            Some("Arithmetic operations require both operands to be the same numeric type"@)
        },
        HydorError::UnaryOperationError { operation, .. } => if operation == TokenType::Minus {
            Some("Negation requires an integer or float operand"@)
        } else if operation == TokenType::Not {
            Some("Logical negation requires a boolean operand"@)
        } else {
            Some("This operation is not supported for the given type"@)
        },
    }
}

/// An error the message and hint can be given for: a type mismatch names at
/// least one expected type.
pub open spec fn hydor_reportable(e: HydorError) -> bool {
    e matches HydorError::TypeMismatch { expected, .. } ==> expected@.len() > 0
}

impl HydorError {
    /// The source location the error points at.
    pub fn span(&self) -> (s: Span)
        ensures
            s == spec_hydor_span(*self),
    {
        match self {
            HydorError::UnexpectedToken { span, .. } => *span,
            HydorError::ExpectedToken { span, .. } => *span,
            HydorError::KeywordTypeError { span, .. } => *span,
            HydorError::InvalidTypeName { span, .. } => *span,
            HydorError::ExpectedType { span, .. } => *span,
            HydorError::TypeMismatch { span, .. } => *span,
            HydorError::DeclarationTypeMismatch { span, .. } => *span,
            HydorError::InvalidUnaryOp { span, .. } => *span,
            HydorError::InvalidBinaryOp { span, .. } => *span,
            HydorError::UndefinedVariable { span, .. } => *span,
            HydorError::VariableRedeclaration { redeclaration_span, .. } => *redeclaration_span,
            HydorError::RegisterOverflow { span, .. } => *span,
            HydorError::NotImplemented { span, .. } => *span,
            HydorError::UnknownAST { span, .. } => *span,
            HydorError::UndefinedIdentifier { span, .. } => *span,
            HydorError::OperandStackUnderflow { span, .. } => *span,
            HydorError::OperandStackOverflow { span, .. } => *span,
            HydorError::GlobalStackOverflow { span, .. } => *span,
            HydorError::ArithmeticError { span, .. } => *span,
            HydorError::UnaryOperationError { span, .. } => *span,
            HydorError::ComparisonOperationError { span, .. } => *span,
        }
    }

    /// The category the error is reported under.
    pub fn category(&self) -> (c: &'static str)
        ensures
            c@ == spec_hydor_category(*self),
    {
        match self {
            HydorError::UnexpectedToken { .. } | HydorError::ExpectedToken { .. }
            | HydorError::KeywordTypeError { .. } | HydorError::InvalidTypeName { .. }
            | HydorError::ExpectedType { .. } => "Syntax",
            HydorError::TypeMismatch { .. } | HydorError::InvalidUnaryOp { .. } | HydorError::InvalidBinaryOp { .. }
            | HydorError::DeclarationTypeMismatch { .. } | HydorError::UndefinedVariable { .. }
            | HydorError::VariableRedeclaration { .. } => "Type",
            HydorError::RegisterOverflow { .. } | HydorError::NotImplemented { .. } | HydorError::UnknownAST { .. }
            | HydorError::UndefinedIdentifier { .. } => "Compiler",
            _ => "Runtime",
        }
    }

    /// The message the error is reported with.
    pub fn message(&self) -> (m: String)
        requires
            hydor_reportable(*self),
        ensures
            m@ == spec_hydor_message(*self),
    {
        match self {
            HydorError::UnexpectedToken { token, .. } => {
                let mut s = String::new();
                push_str(&mut s, "Unexpected token '");
                push_str(&mut s, token.text());
                push_str(&mut s, "'");
                s
            },
            HydorError::ExpectedToken { expected, got, .. } => {
                let mut s = String::new();
                push_str(&mut s, "Expected '");
                push_str(&mut s, expected.text());
                push_str(&mut s, "' but found '");
                push_str(&mut s, got.text());
                push_str(&mut s, "'");
                s
            },
            HydorError::KeywordTypeError { got, .. } => {
                let mut s = String::new();
                push_str(&mut s, "'");
                push_str(&mut s, got.text());
                push_str(&mut s, "' is a keyword and cannot be used as a type name");
                s
            },
            HydorError::RegisterOverflow { .. } => {
                let mut s = String::new();
                push_str(&mut s, "Register overflow: expression is too complex");
                s
            },
            HydorError::NotImplemented { feature, .. } => {
                let mut s = String::new();
                push_str(&mut s, "Feature not yet implemented: ");
                push_str(&mut s, feature.as_str());
                s
            },
            HydorError::InvalidTypeName { got, .. } => {
                let mut s = String::new();
                push_str(&mut s, "'");
                push_str(&mut s, got.as_str());
                push_str(&mut s, "' is not a valid type");
                s
            },
            HydorError::ExpectedType { got, .. } => {
                let mut s = String::new();
                push_str(&mut s, "Expected type annotation, got '");
                push_str(&mut s, got.text());
                push_str(&mut s, "' instead");
                s
            },
            HydorError::DeclarationTypeMismatch { got, expected, .. } => {
                let mut s = String::new();
                push_str(&mut s, "Type mismatch in variable declaration: expected '");
                expected.push_text(&mut s);
                push_str(&mut s, "', got '");
                got.push_text(&mut s);
                push_str(&mut s, "'");
                s
            },
            HydorError::InvalidUnaryOp { operator, operand_type, .. } => {
                let mut s = String::new();
                push_str(&mut s, "Unary operator '");
                push_str(&mut s, operator.text());
                push_str(&mut s, "' cannot be applied to type '");
                operand_type.push_text(&mut s);
                push_str(&mut s, "'");
                s
            },
            HydorError::UndefinedVariable { name, .. } => {
                let mut s = String::new();
                push_str(&mut s, "Undefined variable '");
                push_str(&mut s, name.as_str());
                push_str(&mut s, "'");
                s
            },
            HydorError::VariableRedeclaration { name, original_span, .. } => {
                let mut s = String::new();
                push_str(&mut s, "Variable '");
                push_str(&mut s, name.as_str());
                push_str(&mut s, "' is already declared at Ln ");
                push_decimal(&mut s, original_span.line as u64);
                push_str(&mut s, ":");
                push_decimal(&mut s, original_span.start_column as u64);
                s
            },
            HydorError::UndefinedIdentifier { ident_name, .. } => {
                let mut s = String::new();
                push_str(&mut s, "Internal compiler error: undefined identifier '");
                push_str(&mut s, ident_name.as_str());
                push_str(&mut s, "' escaped type checking");
                s
            },
            HydorError::UnaryOperationError { operation, operand_type, .. } => {
                let mut s = String::new();
                push_str(&mut s, "Unary operation '");
                push_str(&mut s, operation.text());
                push_str(&mut s, "' is not supported for type '");
                push_str(&mut s, operand_type.display_text());
                push_str(&mut s, "'");
                s
            },
            HydorError::ComparisonOperationError { operation, blame_type, .. } => {
                let mut s = String::new();
                push_str(&mut s, "Comparison operator '");
                push_str(&mut s, operation.text());
                push_str(&mut s, "' cannot be used with type '");
                push_str(&mut s, blame_type.display_text());
                push_str(&mut s, "'");
                s
            },
            HydorError::OperandStackUnderflow { stack_length, .. } => {
                let mut s = String::new();
                push_str(&mut s, "Operand stack underflow: attempted to pop from stack with ");
                push_decimal(&mut s, *stack_length as u64);
                push_str(&mut s, " elements");
                s
            },
            HydorError::OperandStackOverflow { stack_length, .. } => {
                let mut s = String::new();
                push_str(&mut s, "Operand stack overflow: expression stack exceeded maximum size (current size: ");
                push_decimal(&mut s, *stack_length as u64);
                push_str(&mut s, ")");
                s
            },
            HydorError::GlobalStackOverflow { stack_length, max, .. } => {
                let mut s = String::new();
                push_str(&mut s, "Global stack overflow: too many global variables (");
                push_decimal(&mut s, *stack_length as u64);
                push_str(&mut s, " / max ");
                push_decimal(&mut s, *max as u64);
                push_str(&mut s, ")");
                s
            },
            HydorError::TypeMismatch { expected, found, .. } => {
                let mut s = String::new();
                if expected.len() > 1 {
                    push_str(&mut s, "Type mismatch: expected ");
                    crate::text::push_alternatives(&mut s, expected);
                    push_str(&mut s, ", got '");
                    found.push_text(&mut s);
                    push_str(&mut s, "'");
                } else {
                    push_str(&mut s, "Type mismatch: expected '");
                    expected[0].push_text(&mut s);
                    push_str(&mut s, "', got '");
                    found.push_text(&mut s);
                    push_str(&mut s, "'");
                }
                s
            },
            HydorError::InvalidBinaryOp { operator, left_type, right_type, .. } => {
                let mut s = String::new();
                push_str(&mut s, "Math operator '");
                push_str(&mut s, operator.text());
                if left_type.same(right_type) {
                    push_str(&mut s, "' is not supported for type '");
                    left_type.push_text(&mut s);
                    push_str(&mut s, "'");
                } else {
                    push_str(&mut s, "' cannot be used between '");
                    left_type.push_text(&mut s);
                    push_str(&mut s, "' and '");
                    right_type.push_text(&mut s);
                    push_str(&mut s, "'");
                }
                s
            },
            HydorError::UnknownAST { node, .. } => {
                let mut s = String::new();
                match node {
                    Node::Statement(_) => push_str(&mut s, "Unimplemented statement:\n\n"),
                    Node::Expression(_) => push_str(&mut s, "Unimplemented expression:\n\n"),
                }
                s
            },
            HydorError::ArithmeticError { operation, left_type, right_type, .. } => {
                let mut s = String::new();
                push_str(&mut s, "Arithmetic operation '");
                push_str(&mut s, operation.text());
                if *left_type == *right_type {
                    push_str(&mut s, "' is not supported for type '");
                    push_str(&mut s, left_type.display_text());
                    push_str(&mut s, "'");
                } else {
                    push_str(&mut s, "' cannot be performed between '");
                    push_str(&mut s, left_type.display_text());
                    push_str(&mut s, "' and '");
                    push_str(&mut s, right_type.display_text());
                    push_str(&mut s, "'");
                }
                s
            },
        }
    }

    /// The hint the error is reported with, if any.
    pub fn hint(&self) -> (h: Option<String>)
        requires
            hydor_reportable(*self),
        ensures
            h matches Some(t) ==> spec_hydor_hint(*self) == Some(t@),
            h is None <==> spec_hydor_hint(*self) is None,
    {
        match self {
            HydorError::UnexpectedToken { .. } => {
                let mut s = String::new();
                push_str(&mut s, "Remove this token or check for missing syntax");
                Some(s)
            },
            HydorError::ExpectedToken { expected, .. } => {
                let mut s = String::new();
                push_str(&mut s, "Insert '");
                push_str(&mut s, expected.text());
                push_str(&mut s, "' at this location");
                Some(s)
            },
            HydorError::KeywordTypeError { .. } => {
                let mut s = String::new();
                push_str(&mut s, "Keywords are reserved and cannot be used as type names");
                Some(s)
            },
            HydorError::ExpectedType { got, .. } => {
                let mut s = String::new();
                push_str(&mut s, "Insert a valid type before '");
                push_str(&mut s, got.text());
                push_str(&mut s, "' based on the assigned value");
                Some(s)
            },
            HydorError::RegisterOverflow { .. } => {
                let mut s = String::new();
                push_str(&mut s, "Split this expression into multiple smaller expressions or statements");
                Some(s)
            },
            HydorError::NotImplemented { feature, .. } => {
                let mut s = String::new();
                push_str(&mut s, "'");
                push_str(&mut s, feature.as_str());
                push_str(&mut s, "' is planned but not yet available in this version");
                Some(s)
            },
            HydorError::InvalidTypeName { .. } => {
                let mut s = String::new();
                push_str(&mut s, "Available types: Int, Float, Bool, String");
                Some(s)
            },
            HydorError::DeclarationTypeMismatch { got, expected, .. } => {
                let mut s = String::new();
                push_str(&mut s, "Either change the declared type to '");
                got.push_text(&mut s);
                push_str(&mut s, "' or provide a value of type '");
                expected.push_text(&mut s);
                push_str(&mut s, "'");
                Some(s)
            },
            HydorError::UndefinedVariable { name, .. } => {
                let mut s = String::new();
                push_str(&mut s, "Declare the variable '");
                push_str(&mut s, name.as_str());
                push_str(&mut s, "' before using it");
                Some(s)
            },
            HydorError::VariableRedeclaration { name, .. } => {
                let mut s = String::new();
                push_str(&mut s, "Remove this declaration or rename the variable to a different name than '");
                push_str(&mut s, name.as_str());
                push_str(&mut s, "'");
                Some(s)
            },
            HydorError::UndefinedIdentifier { .. } => {
                let mut s = String::new();
                push_str(&mut s, "This is a compiler bug. The type checker should have caught this error");
                Some(s)
            },
            HydorError::ComparisonOperationError { .. } => {
                let mut s = String::new();
                push_str(&mut s, "Comparison operators require integer or float operands");
                Some(s)
            },
            HydorError::OperandStackUnderflow { .. } => {
                let mut s = String::new();
                push_str(&mut s, "This is a virtual machine bug. Please report this issue");
                Some(s)
            },
            HydorError::OperandStackOverflow { .. } => {
                let mut s = String::new();
                push_str(&mut s, "Reduce expression complexity or split expressions into smaller statements");
                Some(s)
            },
            HydorError::GlobalStackOverflow { .. } => {
                let mut s = String::new();
                push_str(&mut s, "Reduce the number of global variables, or move values into local scopes or functions");
                Some(s)
            },
            HydorError::UnknownAST { .. } => {
                let mut s = String::new();
                push_str(&mut s, "This is a compiler bug. Please report this issue");
                Some(s)
            },
            HydorError::TypeMismatch { expected, .. } => {
                let mut s = String::new();
                if expected.len() > 1 {
                    push_str(&mut s, "Ensure the value matches one of the expected types");
                } else {
                    push_str(&mut s, "Convert the value to type '");
                    expected[0].push_text(&mut s);
                    push_str(&mut s, "'");
                }
                Some(s)
            },
            HydorError::InvalidUnaryOp { operator, .. } => {
                let mut s = String::new();
                match operator {
                    TokenType::Not => push_str(&mut s, "Logical negation requires a boolean operand"),
                    TokenType::Minus => push_str(&mut s, "Numeric negation requires an integer or float operand"),
                    _ => push_str(&mut s, "This operator is not supported for the given type"),
                }
                Some(s)
            },
            HydorError::InvalidBinaryOp { operator, left_type, right_type, .. } => {
                let mut s = String::new();
                if !left_type.same(right_type) {
                    push_str(&mut s, "Both operands must have the same type");
                } else {
                    match operator {
                        TokenType::Plus | TokenType::Minus | TokenType::Asterisk | TokenType::Slash
                        | TokenType::Caret => push_str(&mut s, "Arithmetic operators require integer or float operands"),
                        TokenType::LessThan | TokenType::LessThanEqual | TokenType::GreaterThan
                        | TokenType::GreaterThanEqual => push_str(&mut s, "Comparison operators require integer or float operands"),
                        _ => push_str(&mut s, "This operator is not supported for the given types"),
                    }
                }
                Some(s)
            },
            HydorError::ArithmeticError { left_type, right_type, .. } => {
                let mut s = String::new();
                if *left_type == *right_type {
                    push_str(&mut s, "Type '");
                    push_str(&mut s, left_type.display_text());
                    push_str(&mut s, "' does not support arithmetic operations");
                } else {
                    push_str(&mut s, "Arithmetic operations require both operands to be the same numeric type");
                }
                Some(s)
            },
            HydorError::UnaryOperationError { operation, .. } => {
                let mut s = String::new();
                match operation {
                    TokenType::Minus => push_str(&mut s, "Negation requires an integer or float operand"),
                    TokenType::Not => push_str(&mut s, "Logical negation requires a boolean operand"),
                    _ => push_str(&mut s, "This operation is not supported for the given type"),
                }
                Some(s)
            },
        }
    }
}

} // verus!
