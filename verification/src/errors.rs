use vstd::prelude::*;
use crate::ast::{Expr, Node};
use crate::runtime_value::RuntimeType;
use crate::span::Span;
use crate::tokens::{Token, TokenType};
use crate::types::Type;

verus! {

/// Everything that can go wrong while compiling or running a program.
#[derive(Debug)]
#[allow(inconsistent_fields)]
pub enum VynError {
    UnexpectedToken { token: TokenType, span: Span },
    ExpectedToken { expected: TokenType, got: TokenType, span: Span },
    KeywordTypeError { got: TokenType, span: Span },
    InvalidTypeName { got: String, span: Span },
    ExpectedType { got: TokenType, span: Span },
    StaticRequiresConstant { span: Span },
    IllegalLoopInterruptToken { token_type: TokenType, span: Span },
    CircularStaticDependency { name: String, span: Span },
    UndefinedStatic { name: String, span: Span },
    StaticEvaluationFailed { name: String, span: Span },
    NotStaticExpression { span: Span },
    InvalidStaticOperation { operation: String, span: Span },
    StaticOverflow { span: Span },
    NegativeExponent { span: Span },
    NegativeArraySize { size: i32, span: Span },
    ArraySizeNotStatic { span: Span },
    InvalidUnaryOperator { operator: Token, span: Span },
    InvalidBinaryOperator { operator: Token, span: Span },
    TypeMismatch { expected: Vec<Type>, found: Type, span: Span },
    DeclarationTypeMismatch { got: Type, expected: Type, span: Span },
    InvalidIndexing { target: Type, span: Span },
    TypeInfer { expr: Expr, span: Span },
    ArrayLengthMismatch { expected: usize, got: usize, span: Span },
    IndexOutOfBounds { size: usize, idx: i64, span: Span },
    StaticMutation { identifier: String, mutator_span: Span, span: Span },
    InvalidUnaryOp { operator: TokenType, operand_type: Type, span: Span },
    InvalidBinaryOp { operator: TokenType, left_type: Type, right_type: Type, span: Span },
    LeftHandAssignment { span: Span },
    ImmutableMutation { identifier: String, span: Span, mutation_span: Span },
    UndefinedVariable { name: String, span: Span },
    VariableRedeclaration { name: String, original_span: Span, redeclaration_span: Span },
    TypeAliasRedeclaration { name: String, span: Span },
    RegisterOverflow { span: Span },
    NotImplemented { feature: String, span: Span },
    UnknownAST { node: Node, span: Span },
    UndefinedIdentifier { ident_name: String, span: Span },
    ArithmeticError { operation: TokenType, left_type: RuntimeType, right_type: RuntimeType, span: Span },
    UnaryOperationError { operation: TokenType, operand_type: RuntimeType, span: Span },
    ComparisonOperationError { operation: TokenType, blame_type: RuntimeType, span: Span },
    DivisionByZero { span: Span },
}

/// The category an error is reported under.
pub open spec fn spec_category(e: VynError) -> Seq<char> {
    match e {
        VynError::UnexpectedToken { .. } => "Syntax"@,
        VynError::ExpectedToken { .. } => "Syntax"@,
        VynError::KeywordTypeError { .. } => "Syntax"@,
        VynError::InvalidTypeName { .. } => "Syntax"@,
        VynError::ExpectedType { .. } => "Syntax"@,
        VynError::StaticRequiresConstant { .. } => "Syntax"@,
        VynError::IllegalLoopInterruptToken { .. } => "Syntax"@,
        VynError::CircularStaticDependency { .. } => "StaticEval"@,
        VynError::UndefinedStatic { .. } => "StaticEval"@,
        VynError::StaticEvaluationFailed { .. } => "StaticEval"@,
        VynError::NotStaticExpression { .. } => "StaticEval"@,
        VynError::InvalidStaticOperation { .. } => "StaticEval"@,
        VynError::StaticOverflow { .. } => "StaticEval"@,
        VynError::NegativeExponent { .. } => "StaticEval"@,
        VynError::NegativeArraySize { .. } => "StaticEval"@,
        VynError::ArraySizeNotStatic { .. } => "StaticEval"@,
        VynError::InvalidUnaryOperator { .. } => "Type"@,
        VynError::InvalidBinaryOperator { .. } => "Type"@,
        VynError::TypeMismatch { .. } => "Type"@,
        VynError::DeclarationTypeMismatch { .. } => "Type"@,
        VynError::InvalidIndexing { .. } => "Type"@,
        VynError::TypeInfer { .. } => "Type"@,
        VynError::ArrayLengthMismatch { .. } => "Type"@,
        VynError::IndexOutOfBounds { .. } => "Index"@,
        VynError::StaticMutation { .. } => "Type"@,
        VynError::InvalidUnaryOp { .. } => "Type"@,
        VynError::InvalidBinaryOp { .. } => "Type"@,
        VynError::LeftHandAssignment { .. } => "Type"@,
        VynError::ImmutableMutation { .. } => "Type"@,
        VynError::UndefinedVariable { .. } => "Type"@,
        VynError::VariableRedeclaration { .. } => "Type"@,
        VynError::TypeAliasRedeclaration { .. } => "Type"@,
        VynError::RegisterOverflow { .. } => "Compiler"@,
        VynError::NotImplemented { .. } => "Compiler"@,
        VynError::UnknownAST { .. } => "Compiler"@,
        VynError::UndefinedIdentifier { .. } => "Compiler"@,
        VynError::ArithmeticError { .. } => "Runtime"@,
        VynError::UnaryOperationError { .. } => "Runtime"@,
        VynError::ComparisonOperationError { .. } => "Runtime"@,
        VynError::DivisionByZero { .. } => "Runtime"@,
    }
}

/// The source location an error points at.
pub open spec fn spec_error_span(e: VynError) -> Span {
    match e {
        VynError::UnexpectedToken { span, .. } => span,
        VynError::ExpectedToken { span, .. } => span,
        VynError::KeywordTypeError { span, .. } => span,
        VynError::InvalidTypeName { span, .. } => span,
        VynError::ExpectedType { span, .. } => span,
        VynError::StaticRequiresConstant { span, .. } => span,
        VynError::IllegalLoopInterruptToken { span, .. } => span,
        VynError::CircularStaticDependency { span, .. } => span,
        VynError::UndefinedStatic { span, .. } => span,
        VynError::StaticEvaluationFailed { span, .. } => span,
        VynError::NotStaticExpression { span, .. } => span,
        VynError::InvalidStaticOperation { span, .. } => span,
        VynError::StaticOverflow { span, .. } => span,
        VynError::NegativeExponent { span, .. } => span,
        VynError::NegativeArraySize { span, .. } => span,
        VynError::ArraySizeNotStatic { span, .. } => span,
        VynError::InvalidUnaryOperator { span, .. } => span,
        VynError::InvalidBinaryOperator { span, .. } => span,
        VynError::TypeMismatch { span, .. } => span,
        VynError::DeclarationTypeMismatch { span, .. } => span,
        VynError::InvalidIndexing { span, .. } => span,
        VynError::TypeInfer { span, .. } => span,
        VynError::ArrayLengthMismatch { span, .. } => span,
        VynError::IndexOutOfBounds { span, .. } => span,
        VynError::StaticMutation { span, .. } => span,
        VynError::InvalidUnaryOp { span, .. } => span,
        VynError::InvalidBinaryOp { span, .. } => span,
        VynError::LeftHandAssignment { span, .. } => span,
        VynError::ImmutableMutation { span, .. } => span,
        VynError::UndefinedVariable { span, .. } => span,
        VynError::VariableRedeclaration { redeclaration_span, .. } => redeclaration_span,
        VynError::TypeAliasRedeclaration { span, .. } => span,
        VynError::RegisterOverflow { span, .. } => span,
        VynError::NotImplemented { span, .. } => span,
        VynError::UnknownAST { span, .. } => span,
        VynError::UndefinedIdentifier { span, .. } => span,
        VynError::ArithmeticError { span, .. } => span,
        VynError::UnaryOperationError { span, .. } => span,
        VynError::ComparisonOperationError { span, .. } => span,
        VynError::DivisionByZero { span, .. } => span,
    }
}

impl VynError {
    /// The category an error is reported under.
    pub fn category(&self) -> (c: &'static str)
        ensures
            c@ == spec_category(*self),
    {
        match self {
            VynError::UnexpectedToken { .. } => "Syntax",
            VynError::ExpectedToken { .. } => "Syntax",
            VynError::KeywordTypeError { .. } => "Syntax",
            VynError::InvalidTypeName { .. } => "Syntax",
            VynError::ExpectedType { .. } => "Syntax",
            VynError::StaticRequiresConstant { .. } => "Syntax",
            VynError::IllegalLoopInterruptToken { .. } => "Syntax",
            VynError::CircularStaticDependency { .. } => "StaticEval",
            VynError::UndefinedStatic { .. } => "StaticEval",
            VynError::StaticEvaluationFailed { .. } => "StaticEval",
            VynError::NotStaticExpression { .. } => "StaticEval",
            VynError::InvalidStaticOperation { .. } => "StaticEval",
            VynError::StaticOverflow { .. } => "StaticEval",
            VynError::NegativeExponent { .. } => "StaticEval",
            VynError::NegativeArraySize { .. } => "StaticEval",
            VynError::ArraySizeNotStatic { .. } => "StaticEval",
            VynError::InvalidUnaryOperator { .. } => "Type",
            VynError::InvalidBinaryOperator { .. } => "Type",
            VynError::TypeMismatch { .. } => "Type",
            VynError::DeclarationTypeMismatch { .. } => "Type",
            VynError::InvalidIndexing { .. } => "Type",
            VynError::TypeInfer { .. } => "Type",
            VynError::ArrayLengthMismatch { .. } => "Type",
            VynError::IndexOutOfBounds { .. } => "Index",
            VynError::StaticMutation { .. } => "Type",
            VynError::InvalidUnaryOp { .. } => "Type",
            VynError::InvalidBinaryOp { .. } => "Type",
            VynError::LeftHandAssignment { .. } => "Type",
            VynError::ImmutableMutation { .. } => "Type",
            VynError::UndefinedVariable { .. } => "Type",
            VynError::VariableRedeclaration { .. } => "Type",
            VynError::TypeAliasRedeclaration { .. } => "Type",
            VynError::RegisterOverflow { .. } => "Compiler",
            VynError::NotImplemented { .. } => "Compiler",
            VynError::UnknownAST { .. } => "Compiler",
            VynError::UndefinedIdentifier { .. } => "Compiler",
            VynError::ArithmeticError { .. } => "Runtime",
            VynError::UnaryOperationError { .. } => "Runtime",
            VynError::ComparisonOperationError { .. } => "Runtime",
            VynError::DivisionByZero { .. } => "Runtime",
        }
    }

    /// The source location an error points at.
    pub fn span(&self) -> (s: Span)
        ensures
            s == spec_error_span(*self),
    {
        match self {
            VynError::UnexpectedToken { span, .. } => *span,
            VynError::ExpectedToken { span, .. } => *span,
            VynError::KeywordTypeError { span, .. } => *span,
            VynError::InvalidTypeName { span, .. } => *span,
            VynError::ExpectedType { span, .. } => *span,
            VynError::StaticRequiresConstant { span, .. } => *span,
            VynError::IllegalLoopInterruptToken { span, .. } => *span,
            VynError::CircularStaticDependency { span, .. } => *span,
            VynError::UndefinedStatic { span, .. } => *span,
            VynError::StaticEvaluationFailed { span, .. } => *span,
            VynError::NotStaticExpression { span, .. } => *span,
            VynError::InvalidStaticOperation { span, .. } => *span,
            VynError::StaticOverflow { span, .. } => *span,
            VynError::NegativeExponent { span, .. } => *span,
            VynError::NegativeArraySize { span, .. } => *span,
            VynError::ArraySizeNotStatic { span, .. } => *span,
            VynError::InvalidUnaryOperator { span, .. } => *span,
            VynError::InvalidBinaryOperator { span, .. } => *span,
            VynError::TypeMismatch { span, .. } => *span,
            VynError::DeclarationTypeMismatch { span, .. } => *span,
            VynError::InvalidIndexing { span, .. } => *span,
            VynError::TypeInfer { span, .. } => *span,
            VynError::ArrayLengthMismatch { span, .. } => *span,
            VynError::IndexOutOfBounds { span, .. } => *span,
            VynError::StaticMutation { span, .. } => *span,
            VynError::InvalidUnaryOp { span, .. } => *span,
            VynError::InvalidBinaryOp { span, .. } => *span,
            VynError::LeftHandAssignment { span, .. } => *span,
            VynError::ImmutableMutation { span, .. } => *span,
            VynError::UndefinedVariable { span, .. } => *span,
            VynError::VariableRedeclaration { redeclaration_span, .. } => *redeclaration_span,
            VynError::TypeAliasRedeclaration { span, .. } => *span,
            VynError::RegisterOverflow { span, .. } => *span,
            VynError::NotImplemented { span, .. } => *span,
            VynError::UnknownAST { span, .. } => *span,
            VynError::UndefinedIdentifier { span, .. } => *span,
            VynError::ArithmeticError { span, .. } => *span,
            VynError::UnaryOperationError { span, .. } => *span,
            VynError::ComparisonOperationError { span, .. } => *span,
            VynError::DivisionByZero { span, .. } => *span,
        }
    }
}

/// The errors found by one phase, in the order they were found.
#[derive(Debug)]
pub struct ErrorCollector {
    pub errors: Vec<VynError>,
}

impl ErrorCollector {
    pub fn new() -> (c: ErrorCollector)
        ensures
            c.errors@ == Seq::<VynError>::empty(),
    {
        ErrorCollector { errors: Vec::new() }
    }

    /// Appends an error.
    pub fn add(&mut self, error: VynError)
        ensures
            final(self).errors@ == old(self).errors@.push(error),
    {
        self.errors.push(error);
    }

    pub fn has_errors(&self) -> (b: bool)
        ensures
            b == (self.errors@.len() > 0),
    {
        self.errors.len() > 0
    }

    pub fn len(&self) -> (n: usize)
        ensures
            n == self.errors@.len(),
    {
        self.errors.len()
    }

    /// The errors, in order.
    pub fn errors(&self) -> (e: &Vec<VynError>)
        ensures
            e@ == self.errors@,
    {
        &self.errors
    }

    /// Forgets every error.
    pub fn clear(&mut self)
        ensures
            final(self).errors@ == Seq::<VynError>::empty(),
    {
        self.errors.clear();
    }

    /// Moves the errors out, leaving the collector empty.
    pub fn take(&mut self) -> (c: ErrorCollector)
        ensures
            c.errors@ == old(self).errors@,
            final(self).errors@ == Seq::<VynError>::empty(),
    {
        let mut errors = Vec::new();
        std::mem::swap(&mut errors, &mut self.errors);
        ErrorCollector { errors }
    }
}

impl Default for ErrorCollector {
    fn default() -> (c: ErrorCollector)
        ensures
            c.errors@ == Seq::<VynError>::empty(),
    {
        ErrorCollector::new()
    }
}

} // verus!
