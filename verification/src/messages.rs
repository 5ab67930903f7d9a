use vstd::prelude::*;
use crate::ast::Node;
use crate::errors::VynError;
use crate::text::{
    alternatives_text, expr_text, push_decimal, push_signed_decimal, runtime_type_text, spec_decimal,
    spec_signed_decimal, token_text, type_text,
};
use crate::tokens::{TokenType, token_type_text};
use crate::span::Span;
use crate::vm::push_str;

verus! {

/// The message an error is reported with. For a node no phase handles, the
/// message ends where a dump of the node follows.
pub open spec fn spec_message(e: VynError) -> Seq<char> {
    match e {
        VynError::UnexpectedToken { token, .. } => "Unexpected token '"@ + token_type_text(token) + "'"@,
        VynError::ExpectedToken { expected, got, .. } => "Expected '"@ + token_type_text(expected) + "' but found '"@ + token_type_text(got) + "'"@,
        VynError::KeywordTypeError { got, .. } => "'"@ + token_type_text(got) + "' is a keyword and cannot be used as a type name"@,
        VynError::RegisterOverflow { .. } => "Register overflow: expression is too complex"@,
        VynError::NotImplemented { feature, .. } => "Feature not yet implemented: "@ + feature@,
        VynError::InvalidTypeName { got, .. } => "'"@ + got@ + "' is not a valid type"@,
        VynError::ExpectedType { got, .. } => "Expected type annotation, got '"@ + token_type_text(got) + "' instead"@,
        VynError::TypeInfer { expr, .. } => "Cannot infer type of expression '"@ + expr_text(expr) + "'"@,
        VynError::StaticMutation { identifier, .. } => "Cannot mutate static identifier '"@ + identifier@ + "'"@,
        VynError::StaticRequiresConstant { .. } => "Cannot use value as a static value"@,
        VynError::ArrayLengthMismatch { expected, got, .. } => "Array length mismatch, expected length '["@ + spec_decimal(expected as nat) + "]' but got '["@ + spec_decimal(got as nat) + "]' instead"@,
        VynError::DivisionByZero { .. } => "Cannot divide by zero"@,
        VynError::TypeAliasRedeclaration { name, .. } => "Cannot redeclare type alias '"@ + name@ + "' in the current scope"@,
        VynError::DeclarationTypeMismatch { got, expected, .. } => "Type mismatch in variable declaration: expected '"@ + type_text(expected) + "', got '"@ + type_text(got) + "'"@,
        VynError::InvalidUnaryOp { operator, operand_type, .. } => "Unary operator '"@ + token_type_text(operator) + "' cannot be applied to type '"@ + type_text(operand_type) + "'"@,
        VynError::CircularStaticDependency { name, .. } => "Circular dependency detected in static variable '"@ + name@ + "'"@,
        VynError::UndefinedStatic { name, .. } => "Undefined static variable '"@ + name@ + "' in constant expression"@,
        VynError::StaticEvaluationFailed { name, .. } => "Failed to evaluate static variable '"@ + name@ + "' at compile time"@,
        VynError::NotStaticExpression { .. } => "Expression is not a compile-time constant"@,
        VynError::InvalidStaticOperation { operation, .. } => "Operation '"@ + operation@ + "' is not allowed in static expressions"@,
        VynError::StaticOverflow { .. } => "Arithmetic overflow in static expression"@,
        VynError::NegativeExponent { .. } => "Cannot use negative exponent in compile-time expression"@,
        VynError::NegativeArraySize { size, .. } => "Array size cannot be negative, got '"@ + spec_signed_decimal(size as int) + "'"@,
        VynError::ArraySizeNotStatic { .. } => "Array size must be a compile-time constant expression"@,
        VynError::InvalidUnaryOperator { operator, .. } => "Unary operator '"@ + token_text(operator) + "' is not valid in this context"@,
        VynError::InvalidBinaryOperator { operator, .. } => "Binary operator '"@ + token_text(operator) + "' is not valid in this context"@,
        VynError::UndefinedVariable { name, .. } => "Undefined variable '"@ + name@ + "'"@,
        VynError::IllegalLoopInterruptToken { token_type, .. } => "Illegal '"@ + token_type_text(token_type) + "' token found outside of loops"@,
        VynError::IndexOutOfBounds { size, idx, .. } => "Cannot index a value in index '"@ + spec_signed_decimal(idx as int) + "' with a length of '"@ + spec_decimal(size as nat) + "'"@,
        VynError::InvalidIndexing { target, .. } => "Cannot index target type '"@ + type_text(target) + "'"@,
        VynError::ImmutableMutation { identifier, .. } => "Cannot mutate immutable identifier '"@ + identifier@ + "'"@,
        VynError::LeftHandAssignment { .. } => "Cannot perform left-handed assignment"@,
        VynError::VariableRedeclaration { name, original_span, .. } => "Variable '"@ + name@ + "' is already declared at Ln "@ + spec_decimal(original_span.line as nat) + ":"@ + spec_decimal(original_span.start_column as nat),
        VynError::UndefinedIdentifier { ident_name, .. } => "Internal compiler error: undefined identifier '"@ + ident_name@ + "' escaped type checking"@,
        VynError::UnaryOperationError { operation, operand_type, .. } => "Unary operation '"@ + token_type_text(operation) + "' is not supported for type '"@ + runtime_type_text(operand_type) + "'"@,
        VynError::ComparisonOperationError { operation, blame_type, .. } => "Comparison operator '"@ + token_type_text(operation) + "' cannot be used with type '"@ + runtime_type_text(blame_type) + "'"@,
        VynError::TypeMismatch { expected, found, .. } => if expected@.len() > 1 {
            "Type mismatch: expected "@ + alternatives_text(expected@, expected@.len()) + ", got '"@ + type_text(found)
                + "'"@
        } else {
            "Type mismatch: expected '"@ + type_text(expected@[0]) + "', got '"@ + type_text(found) + "'"@
        },
        VynError::InvalidBinaryOp { operator, left_type, right_type, .. } => if left_type == right_type {
            "Math operator '"@ + token_type_text(operator) + "' is not supported for type '"@ + type_text(left_type)
                + "'"@
        } else {
            "Math operator '"@ + token_type_text(operator) + "' cannot be used between '"@ + type_text(left_type)
                + "' and '"@ + type_text(right_type) + "'"@
        },
        VynError::UnknownAST { node, .. } => match node {
            Node::Statement(_) => "Unimplemented statement:\n\n"@,
            Node::Expression(_) => "Unimplemented expression:\n\n"@,
        },
        VynError::ArithmeticError { operation, left_type, right_type, .. } => if left_type == right_type {
            "Arithmetic operation '"@ + token_type_text(operation) + "' is not supported for type '"@
                + runtime_type_text(left_type) + "'"@
        } else {
            "Arithmetic operation '"@ + token_type_text(operation) + "' cannot be performed between '"@
                + runtime_type_text(left_type) + "' and '"@ + runtime_type_text(right_type) + "'"@
        },
    }
}

/// The operators a binary arithmetic hint is given for.
pub open spec fn is_math_operator(t: TokenType) -> bool {
    t == TokenType::Plus || t == TokenType::Minus || t == TokenType::Asterisk || t == TokenType::Slash
        || t == TokenType::Caret
}

/// The operators a binary comparison hint is given for.
pub open spec fn is_ordering_operator(t: TokenType) -> bool {
    t == TokenType::LessThan || t == TokenType::LessThanEqual || t == TokenType::GreaterThan
        || t == TokenType::GreaterThanEqual
}

/// The hint an error is reported with, if any.
pub open spec fn spec_hint(e: VynError) -> Option<Seq<char>> {
    match e {
        VynError::UnexpectedToken { .. } => Some("Remove this token or check for missing syntax"@),
        VynError::ExpectedToken { expected, .. } => Some("Insert '"@ + token_type_text(expected) + "' at this location"@),
        VynError::KeywordTypeError { .. } => Some("Keywords are reserved and cannot be used as type names"@),
        VynError::ExpectedType { got, .. } => Some("Insert a valid type before '"@ + token_type_text(got) + "' based on the assigned value"@),
        VynError::RegisterOverflow { .. } => Some("Split this expression into multiple smaller expressions or statements"@),
        VynError::NotImplemented { feature, .. } => Some("'"@ + feature@ + "' is planned but not yet available in this version"@),
        VynError::InvalidTypeName { .. } => Some("Available types: Int, Float, Bool, String"@),
        VynError::TypeInfer { expr, .. } => Some("Annotate a type for expression '"@ + expr_text(expr) + "'"@),
        VynError::StaticRequiresConstant { .. } => Some("Consider changing the variable signiture to be a 'let' variable or change the value to a static value"@),
        VynError::CircularStaticDependency { name, .. } => Some("Static variable '"@ + name@ + "' depends on itself directly or indirectly. Break the circular reference"@),
        VynError::UndefinedStatic { name, .. } => Some("Declare static variable '"@ + name@ + "' before using it in constant expressions"@),
        VynError::StaticEvaluationFailed { name, .. } => Some("Ensure static variable '"@ + name@ + "' has a valid compile-time constant value"@),
        VynError::NotStaticExpression { .. } => Some("Use only literals, static variables, and compile-time operations"@),
        VynError::InvalidStaticOperation { .. } => Some("Only basic arithmetic operations (+, -, *, /, ^) are allowed in static expressions"@),
        VynError::StaticOverflow { .. } => Some("Use smaller values or change the operation to prevent overflow"@),
        VynError::NegativeExponent { .. } => Some("Exponents in compile-time expressions must be non-negative integers"@),
        VynError::NegativeArraySize { .. } => Some("Array size must be a positive integer"@),
        VynError::ArraySizeNotStatic { .. } => Some("Use a literal number or static variable for array size"@),
        VynError::InvalidUnaryOperator { .. } => Some("Only '+', '-', and '!' operators are allowed in constant expressions"@),
        VynError::InvalidBinaryOperator { .. } => Some("Only arithmetic operators (+, -, *, /, ^) are allowed in constant expressions"@),
        VynError::StaticMutation { .. } => Some("Consider changing the variable signiture to be a 'let' variable or remove the assignment expression"@),
        VynError::ArrayLengthMismatch { expected, got, .. } => Some("Consider changing the array length to '"@ + spec_decimal(expected as nat) + "' or adjust the annotated length to '"@ + spec_decimal(got as nat) + "'"@),
        VynError::DeclarationTypeMismatch { got, expected, .. } => Some("Either change the declared type to '"@ + type_text(got) + "' or provide a value of type '"@ + type_text(expected) + "'"@),
        VynError::TypeAliasRedeclaration { .. } => Some("Remove the redeclaration and use it"@),
        VynError::ImmutableMutation { identifier, .. } => Some("Prefix identifier '"@ + identifier@ + "' with '@'"@),
        VynError::UndefinedVariable { name, .. } => Some("Declare the variable '"@ + name@ + "' before using it"@),
        VynError::VariableRedeclaration { name, .. } => Some("Remove this declaration or rename the variable to a different name than '"@ + name@ + "'"@),
        VynError::UnknownAST { .. } => Some("This is a compiler bug. Please report this issue"@),
        VynError::UndefinedIdentifier { .. } => Some("This is a compiler bug. The type checker should have caught this error"@),
        VynError::IllegalLoopInterruptToken { token_type, .. } => Some("Remove the '"@ + token_type_text(token_type) + "' statement"@),
        VynError::ComparisonOperationError { .. } => Some("Comparison operators require integer or float operands"@),
        VynError::TypeMismatch { expected, .. } => if expected@.len() > 1 {
            Some("Ensure the value matches one of the expected types"@)
        } else {
            Some("Convert the value to type '"@ + type_text(expected@[0]) + "'"@)
        },
        VynError::LeftHandAssignment { .. } => None,
        VynError::InvalidIndexing { .. } => None,
        VynError::IndexOutOfBounds { .. } => None,
        VynError::DivisionByZero { .. } => None,
        VynError::InvalidUnaryOp { operator, .. } => if operator == TokenType::Not {
            Some("Logical negation requires a boolean operand"@)
        } else if operator == TokenType::Minus {
            Some("Numeric negation requires an integer or float operand"@)
        } else {
            Some("This operator is not supported for the given type"@)
        },
        VynError::InvalidBinaryOp { operator, left_type, right_type, .. } => if left_type != right_type {
            Some("Both operands must have the same type"@)
        } else if is_math_operator(operator) {
            Some("Arithmetic operators require integer or float operands"@)
        } else if is_ordering_operator(operator) {
            Some("Comparison operators require integer or float operands"@)
        } else {
            Some("This operator is not supported for the given types"@)
        },
        VynError::ArithmeticError { left_type, right_type, .. } => if left_type == right_type {
            Some("Type '"@ + runtime_type_text(left_type) + "' does not support arithmetic operations"@)
        } else {
            Some("Arithmetic operations require both operands to be the same numeric type"@)
        },
        VynError::UnaryOperationError { operation, .. } => if operation == TokenType::Minus {
            Some("Negation requires an integer or float operand"@)
        } else if operation == TokenType::Not {
            Some("Logical negation requires a boolean operand"@)
        } else {
            Some("This operation is not supported for the given type"@)
        },
    }
}

/// An error the message and hint can be given for: a type mismatch names at
/// least one expected type.
pub open spec fn reportable(e: VynError) -> bool {
    e matches VynError::TypeMismatch { expected, .. } ==> expected@.len() > 0
}

impl VynError {
    /// The message the error is reported with.
    pub fn message(&self) -> (m: String)
        requires
            reportable(*self),
        ensures
            m@ == spec_message(*self),
    {
        match self {
            VynError::UnexpectedToken { token, .. } => {
                let mut s = String::new();
                push_str(&mut s, "Unexpected token '");
                push_str(&mut s, token.text());
                push_str(&mut s, "'");
                s
            },
            VynError::ExpectedToken { expected, got, .. } => {
                let mut s = String::new();
                push_str(&mut s, "Expected '");
                push_str(&mut s, expected.text());
                push_str(&mut s, "' but found '");
                push_str(&mut s, got.text());
                push_str(&mut s, "'");
                s
            },
            VynError::KeywordTypeError { got, .. } => {
                let mut s = String::new();
                push_str(&mut s, "'");
                push_str(&mut s, got.text());
                push_str(&mut s, "' is a keyword and cannot be used as a type name");
                s
            },
            VynError::RegisterOverflow { .. } => {
                let mut s = String::new();
                push_str(&mut s, "Register overflow: expression is too complex");
                s
            },
            VynError::NotImplemented { feature, .. } => {
                let mut s = String::new();
                push_str(&mut s, "Feature not yet implemented: ");
                push_str(&mut s, feature.as_str());
                s
            },
            VynError::InvalidTypeName { got, .. } => {
                let mut s = String::new();
                push_str(&mut s, "'");
                push_str(&mut s, got.as_str());
                push_str(&mut s, "' is not a valid type");
                s
            },
            VynError::ExpectedType { got, .. } => {
                let mut s = String::new();
                push_str(&mut s, "Expected type annotation, got '");
                push_str(&mut s, got.text());
                push_str(&mut s, "' instead");
                s
            },
            VynError::TypeInfer { expr, .. } => {
                let mut s = String::new();
                push_str(&mut s, "Cannot infer type of expression '");
                expr.push_text(&mut s);
                push_str(&mut s, "'");
                s
            },
            VynError::StaticMutation { identifier, .. } => {
                let mut s = String::new();
                push_str(&mut s, "Cannot mutate static identifier '");
                push_str(&mut s, identifier.as_str());
                push_str(&mut s, "'");
                s
            },
            VynError::StaticRequiresConstant { .. } => {
                let mut s = String::new();
                push_str(&mut s, "Cannot use value as a static value");
                s
            },
            VynError::ArrayLengthMismatch { expected, got, .. } => {
                let mut s = String::new();
                push_str(&mut s, "Array length mismatch, expected length '[");
                push_decimal(&mut s, *expected as u64);
                push_str(&mut s, "]' but got '[");
                push_decimal(&mut s, *got as u64);
                push_str(&mut s, "]' instead");
                s
            },
            VynError::DivisionByZero { .. } => {
                let mut s = String::new();
                push_str(&mut s, "Cannot divide by zero");
                s
            },
            VynError::TypeAliasRedeclaration { name, .. } => {
                let mut s = String::new();
                push_str(&mut s, "Cannot redeclare type alias '");
                push_str(&mut s, name.as_str());
                push_str(&mut s, "' in the current scope");
                s
            },
            VynError::DeclarationTypeMismatch { got, expected, .. } => {
                let mut s = String::new();
                push_str(&mut s, "Type mismatch in variable declaration: expected '");
                expected.push_text(&mut s);
                push_str(&mut s, "', got '");
                got.push_text(&mut s);
                push_str(&mut s, "'");
                s
            },
            VynError::InvalidUnaryOp { operator, operand_type, .. } => {
                let mut s = String::new();
                push_str(&mut s, "Unary operator '");
                push_str(&mut s, operator.text());
                push_str(&mut s, "' cannot be applied to type '");
                operand_type.push_text(&mut s);
                push_str(&mut s, "'");
                s
            },
            VynError::CircularStaticDependency { name, .. } => {
                let mut s = String::new();
                push_str(&mut s, "Circular dependency detected in static variable '");
                push_str(&mut s, name.as_str());
                push_str(&mut s, "'");
                s
            },
            VynError::UndefinedStatic { name, .. } => {
                let mut s = String::new();
                push_str(&mut s, "Undefined static variable '");
                push_str(&mut s, name.as_str());
                push_str(&mut s, "' in constant expression");
                s
            },
            VynError::StaticEvaluationFailed { name, .. } => {
                let mut s = String::new();
                push_str(&mut s, "Failed to evaluate static variable '");
                push_str(&mut s, name.as_str());
                push_str(&mut s, "' at compile time");
                s
            },
            VynError::NotStaticExpression { .. } => {
                let mut s = String::new();
                push_str(&mut s, "Expression is not a compile-time constant");
                s
            },
            VynError::InvalidStaticOperation { operation, .. } => {
                let mut s = String::new();
                push_str(&mut s, "Operation '");
                push_str(&mut s, operation.as_str());
                push_str(&mut s, "' is not allowed in static expressions");
                s
            },
            VynError::StaticOverflow { .. } => {
                let mut s = String::new();
                push_str(&mut s, "Arithmetic overflow in static expression");
                s
            },
            VynError::NegativeExponent { .. } => {
                let mut s = String::new();
                push_str(&mut s, "Cannot use negative exponent in compile-time expression");
                s
            },
            VynError::NegativeArraySize { size, .. } => {
                let mut s = String::new();
                push_str(&mut s, "Array size cannot be negative, got '");
                push_signed_decimal(&mut s, *size as i64);
                push_str(&mut s, "'");
                s
            },
            VynError::ArraySizeNotStatic { .. } => {
                let mut s = String::new();
                push_str(&mut s, "Array size must be a compile-time constant expression");
                s
            },
            VynError::InvalidUnaryOperator { operator, .. } => {
                let mut s = String::new();
                push_str(&mut s, "Unary operator '");
                operator.push_text(&mut s);
                push_str(&mut s, "' is not valid in this context");
                s
            },
            VynError::InvalidBinaryOperator { operator, .. } => {
                let mut s = String::new();
                push_str(&mut s, "Binary operator '");
                operator.push_text(&mut s);
                push_str(&mut s, "' is not valid in this context");
                s
            },
            VynError::UndefinedVariable { name, .. } => {
                let mut s = String::new();
                push_str(&mut s, "Undefined variable '");
                push_str(&mut s, name.as_str());
                push_str(&mut s, "'");
                s
            },
            VynError::IllegalLoopInterruptToken { token_type, .. } => {
                let mut s = String::new();
                push_str(&mut s, "Illegal '");
                push_str(&mut s, token_type.text());
                push_str(&mut s, "' token found outside of loops");
                s
            },
            VynError::IndexOutOfBounds { size, idx, .. } => {
                let mut s = String::new();
                push_str(&mut s, "Cannot index a value in index '");
                push_signed_decimal(&mut s, *idx as i64);
                push_str(&mut s, "' with a length of '");
                push_decimal(&mut s, *size as u64);
                push_str(&mut s, "'");
                s
            },
            VynError::InvalidIndexing { target, .. } => {
                let mut s = String::new();
                push_str(&mut s, "Cannot index target type '");
                target.push_text(&mut s);
                push_str(&mut s, "'");
                s
            },
            VynError::ImmutableMutation { identifier, .. } => {
                let mut s = String::new();
                push_str(&mut s, "Cannot mutate immutable identifier '");
                push_str(&mut s, identifier.as_str());
                push_str(&mut s, "'");
                s
            },
            VynError::LeftHandAssignment { .. } => {
                let mut s = String::new();
                push_str(&mut s, "Cannot perform left-handed assignment");
                s
            },
            VynError::VariableRedeclaration { name, original_span, .. } => {
                let mut s = String::new();
                push_str(&mut s, "Variable '");
                push_str(&mut s, name.as_str());
                push_str(&mut s, "' is already declared at Ln ");
                push_decimal(&mut s, original_span.line as u64);
                push_str(&mut s, ":");
                push_decimal(&mut s, original_span.start_column as u64);
                s
            },
            VynError::UndefinedIdentifier { ident_name, .. } => {
                let mut s = String::new();
                push_str(&mut s, "Internal compiler error: undefined identifier '");
                push_str(&mut s, ident_name.as_str());
                push_str(&mut s, "' escaped type checking");
                s
            },
            VynError::UnaryOperationError { operation, operand_type, .. } => {
                let mut s = String::new();
                push_str(&mut s, "Unary operation '");
                push_str(&mut s, operation.text());
                push_str(&mut s, "' is not supported for type '");
                push_str(&mut s, operand_type.display_text());
                push_str(&mut s, "'");
                s
            },
            VynError::ComparisonOperationError { operation, blame_type, .. } => {
                let mut s = String::new();
                push_str(&mut s, "Comparison operator '");
                push_str(&mut s, operation.text());
                push_str(&mut s, "' cannot be used with type '");
                push_str(&mut s, blame_type.display_text());
                push_str(&mut s, "'");
                s
            },
            VynError::TypeMismatch { expected, found, .. } => {
                let mut s = String::new();
                if expected.len() > 1 {
                    push_str(&mut s, "Type mismatch: expected ");
                    crate::text::push_alternatives(&mut s, expected);
                    push_str(&mut s, ", got '");
                    found.push_text(&mut s);
                    push_str(&mut s, "'");
                } else {
                    push_str(&mut s, "Type mismatch: expected '");
                    expected[0].push_text(&mut s);
                    push_str(&mut s, "', got '");
                    found.push_text(&mut s);
                    push_str(&mut s, "'");
                }
                s
            },
            VynError::InvalidBinaryOp { operator, left_type, right_type, .. } => {
                let mut s = String::new();
                push_str(&mut s, "Math operator '");
                push_str(&mut s, operator.text());
                if left_type.same(right_type) {
                    push_str(&mut s, "' is not supported for type '");
                    left_type.push_text(&mut s);
                    push_str(&mut s, "'");
                } else {
                    push_str(&mut s, "' cannot be used between '");
                    left_type.push_text(&mut s);
                    push_str(&mut s, "' and '");
                    right_type.push_text(&mut s);
                    push_str(&mut s, "'");
                }
                s
            },
            VynError::UnknownAST { node, .. } => {
                let mut s = String::new();
                match node {
                    Node::Statement(_) => push_str(&mut s, "Unimplemented statement:\n\n"),
                    Node::Expression(_) => push_str(&mut s, "Unimplemented expression:\n\n"),
                }
                s
            },
            VynError::ArithmeticError { operation, left_type, right_type, .. } => {
                let mut s = String::new();
                push_str(&mut s, "Arithmetic operation '");
                push_str(&mut s, operation.text());
                if *left_type == *right_type {
                    push_str(&mut s, "' is not supported for type '");
                    push_str(&mut s, left_type.display_text());
                    push_str(&mut s, "'");
                } else {
                    push_str(&mut s, "' cannot be performed between '");
                    push_str(&mut s, left_type.display_text());
                    push_str(&mut s, "' and '");
                    push_str(&mut s, right_type.display_text());
                    push_str(&mut s, "'");
                }
                s
            },
        }
    }

    /// The hint the error is reported with, if any.
    pub fn hint(&self) -> (h: Option<String>)
        requires
            reportable(*self),
        ensures
            h matches Some(t) ==> spec_hint(*self) == Some(t@),
            h is None <==> spec_hint(*self) is None,
    {
        match self {
            VynError::UnexpectedToken { .. } => {
                let mut s = String::new();
                push_str(&mut s, "Remove this token or check for missing syntax");
                Some(s)
            },
            VynError::ExpectedToken { expected, .. } => {
                let mut s = String::new();
                push_str(&mut s, "Insert '");
                push_str(&mut s, expected.text());
                push_str(&mut s, "' at this location");
                Some(s)
            },
            VynError::KeywordTypeError { .. } => {
                let mut s = String::new();
                push_str(&mut s, "Keywords are reserved and cannot be used as type names");
                Some(s)
            },
            VynError::ExpectedType { got, .. } => {
                let mut s = String::new();
                push_str(&mut s, "Insert a valid type before '");
                push_str(&mut s, got.text());
                push_str(&mut s, "' based on the assigned value");
                Some(s)
            },
            VynError::RegisterOverflow { .. } => {
                let mut s = String::new();
                push_str(&mut s, "Split this expression into multiple smaller expressions or statements");
                Some(s)
            },
            VynError::NotImplemented { feature, .. } => {
                let mut s = String::new();
                push_str(&mut s, "'");
                push_str(&mut s, feature.as_str());
                push_str(&mut s, "' is planned but not yet available in this version");
                Some(s)
            },
            VynError::InvalidTypeName { .. } => {
                let mut s = String::new();
                push_str(&mut s, "Available types: Int, Float, Bool, String");
                Some(s)
            },
            VynError::TypeInfer { expr, .. } => {
                let mut s = String::new();
                push_str(&mut s, "Annotate a type for expression '");
                expr.push_text(&mut s);
                push_str(&mut s, "'");
                Some(s)
            },
            VynError::StaticRequiresConstant { .. } => {
                let mut s = String::new();
                push_str(&mut s, "Consider changing the variable signiture to be a 'let' variable or change the value to a static value");
                Some(s)
            },
            VynError::CircularStaticDependency { name, .. } => {
                let mut s = String::new();
                push_str(&mut s, "Static variable '");
                push_str(&mut s, name.as_str());
                push_str(&mut s, "' depends on itself directly or indirectly. Break the circular reference");
                Some(s)
            },
            VynError::UndefinedStatic { name, .. } => {
                let mut s = String::new();
                push_str(&mut s, "Declare static variable '");
                push_str(&mut s, name.as_str());
                push_str(&mut s, "' before using it in constant expressions");
                Some(s)
            },
            VynError::StaticEvaluationFailed { name, .. } => {
                let mut s = String::new();
                push_str(&mut s, "Ensure static variable '");
                push_str(&mut s, name.as_str());
                push_str(&mut s, "' has a valid compile-time constant value");
                Some(s)
            },
            VynError::NotStaticExpression { .. } => {
                let mut s = String::new();
                push_str(&mut s, "Use only literals, static variables, and compile-time operations");
                Some(s)
            },
            VynError::InvalidStaticOperation { .. } => {
                let mut s = String::new();
                push_str(&mut s, "Only basic arithmetic operations (+, -, *, /, ^) are allowed in static expressions");
                Some(s)
            },
            VynError::StaticOverflow { .. } => {
                let mut s = String::new();
                push_str(&mut s, "Use smaller values or change the operation to prevent overflow");
                Some(s)
            },
            VynError::NegativeExponent { .. } => {
                let mut s = String::new();
                push_str(&mut s, "Exponents in compile-time expressions must be non-negative integers");
                Some(s)
            },
            VynError::NegativeArraySize { .. } => {
                let mut s = String::new();
                push_str(&mut s, "Array size must be a positive integer");
                Some(s)
            },
            VynError::ArraySizeNotStatic { .. } => {
                let mut s = String::new();
                push_str(&mut s, "Use a literal number or static variable for array size");
                Some(s)
            },
            VynError::InvalidUnaryOperator { .. } => {
                let mut s = String::new();
                push_str(&mut s, "Only '+', '-', and '!' operators are allowed in constant expressions");
                Some(s)
            },
            VynError::InvalidBinaryOperator { .. } => {
                let mut s = String::new();
                push_str(&mut s, "Only arithmetic operators (+, -, *, /, ^) are allowed in constant expressions");
                Some(s)
            },
            VynError::StaticMutation { .. } => {
                let mut s = String::new();
                push_str(&mut s, "Consider changing the variable signiture to be a 'let' variable or remove the assignment expression");
                Some(s)
            },
            VynError::ArrayLengthMismatch { expected, got, .. } => {
                let mut s = String::new();
                push_str(&mut s, "Consider changing the array length to '");
                push_decimal(&mut s, *expected as u64);
                push_str(&mut s, "' or adjust the annotated length to '");
                push_decimal(&mut s, *got as u64);
                push_str(&mut s, "'");
                Some(s)
            },
            VynError::DeclarationTypeMismatch { got, expected, .. } => {
                let mut s = String::new();
                push_str(&mut s, "Either change the declared type to '");
                got.push_text(&mut s);
                push_str(&mut s, "' or provide a value of type '");
                expected.push_text(&mut s);
                push_str(&mut s, "'");
                Some(s)
            },
            VynError::TypeAliasRedeclaration { .. } => {
                let mut s = String::new();
                push_str(&mut s, "Remove the redeclaration and use it");
                Some(s)
            },
            VynError::ImmutableMutation { identifier, .. } => {
                let mut s = String::new();
                push_str(&mut s, "Prefix identifier '");
                push_str(&mut s, identifier.as_str());
                push_str(&mut s, "' with '@'");
                Some(s)
            },
            VynError::UndefinedVariable { name, .. } => {
                let mut s = String::new();
                push_str(&mut s, "Declare the variable '");
                push_str(&mut s, name.as_str());
                push_str(&mut s, "' before using it");
                Some(s)
            },
            VynError::VariableRedeclaration { name, .. } => {
                let mut s = String::new();
                push_str(&mut s, "Remove this declaration or rename the variable to a different name than '");
                push_str(&mut s, name.as_str());
                push_str(&mut s, "'");
                Some(s)
            },
            VynError::UnknownAST { .. } => {
                let mut s = String::new();
                push_str(&mut s, "This is a compiler bug. Please report this issue");
                Some(s)
            },
            VynError::UndefinedIdentifier { .. } => {
                let mut s = String::new();
                push_str(&mut s, "This is a compiler bug. The type checker should have caught this error");
                Some(s)
            },
            VynError::IllegalLoopInterruptToken { token_type, .. } => {
                let mut s = String::new();
                push_str(&mut s, "Remove the '");
                push_str(&mut s, token_type.text());
                push_str(&mut s, "' statement");
                Some(s)
            },
            VynError::ComparisonOperationError { .. } => {
                let mut s = String::new();
                push_str(&mut s, "Comparison operators require integer or float operands");
                Some(s)
            },
            VynError::TypeMismatch { expected, .. } => {
                let mut s = String::new();
                if expected.len() > 1 {
                    push_str(&mut s, "Ensure the value matches one of the expected types");
                } else {
                    push_str(&mut s, "Convert the value to type '");
                    expected[0].push_text(&mut s);
                    push_str(&mut s, "'");
                }
                Some(s)
            },
            VynError::LeftHandAssignment { .. } => None,
            VynError::InvalidIndexing { .. } => None,
            VynError::IndexOutOfBounds { .. } => None,
            VynError::DivisionByZero { .. } => None,
            VynError::InvalidUnaryOp { operator, .. } => {
                let mut s = String::new();
                match operator {
                    TokenType::Not => push_str(&mut s, "Logical negation requires a boolean operand"),
                    TokenType::Minus => push_str(&mut s, "Numeric negation requires an integer or float operand"),
                    _ => push_str(&mut s, "This operator is not supported for the given type"),
                }
                Some(s)
            },
            VynError::InvalidBinaryOp { operator, left_type, right_type, .. } => {
                let mut s = String::new();
                if !left_type.same(right_type) {
                    push_str(&mut s, "Both operands must have the same type");
                } else {
                    match operator {
                        TokenType::Plus | TokenType::Minus | TokenType::Asterisk | TokenType::Slash
                        | TokenType::Caret => push_str(&mut s, "Arithmetic operators require integer or float operands"),
                        TokenType::LessThan | TokenType::LessThanEqual | TokenType::GreaterThan
                        | TokenType::GreaterThanEqual => push_str(&mut s, "Comparison operators require integer or float operands"),
                        _ => push_str(&mut s, "This operator is not supported for the given types"),
                    }
                }
                Some(s)
            },
            VynError::ArithmeticError { left_type, right_type, .. } => {
                let mut s = String::new();
                if *left_type == *right_type {
                    push_str(&mut s, "Type '");
                    push_str(&mut s, left_type.display_text());
                    push_str(&mut s, "' does not support arithmetic operations");
                } else {
                    push_str(&mut s, "Arithmetic operations require both operands to be the same numeric type");
                }
                Some(s)
            },
            VynError::UnaryOperationError { operation, .. } => {
                let mut s = String::new();
                match operation {
                    TokenType::Minus => push_str(&mut s, "Negation requires an integer or float operand"),
                    TokenType::Not => push_str(&mut s, "Logical negation requires a boolean operand"),
                    _ => push_str(&mut s, "This operation is not supported for the given type"),
                }
                Some(s)
            },
        }
    }
}

/// Where the marker under a reported span starts on its line (columns count
/// from 1, so one less, and never below zero) and how many characters it
/// covers (the span's width, at least one).
pub fn marker_layout(span: Span) -> (r: (usize, usize))
    ensures
        r.0 == (if span.start_column >= 1 { span.start_column - 1 } else { 0 }),
        r.1 == (if span.end_column > span.start_column { span.end_column - span.start_column } else { 1 }),
{
    let start = span.start_column.saturating_sub(1) as usize;
    let width = if span.end_column > span.start_column {
        (span.end_column - span.start_column) as usize
    } else {
        1
    };
    (start, width)
}

} // verus!
