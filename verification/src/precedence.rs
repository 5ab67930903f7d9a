use vstd::prelude::*;
use crate::tokens::TokenType;

verus! {

/// Binding strength of operators, weakest first.
#[derive(Debug, Clone, Copy, PartialEq, Eq, Structural)]
pub enum Precedence {
    Default,
    Assignment,
    Ternary,
    LogicalOr,
    LogicalAnd,
    Equals,
    Comparison,
    Additive,
    Multiplicative,
    Unary,
    Exponent,
    Call,
    Grouping,
}

/// The numeric level of a precedence: its position in the order above.
pub open spec fn spec_level(p: Precedence) -> u8 {
    match p {
        Precedence::Default => 0,
        Precedence::Assignment => 1,
        Precedence::Ternary => 2,
        Precedence::LogicalOr => 3,
        Precedence::LogicalAnd => 4,
        Precedence::Equals => 5,
        Precedence::Comparison => 6,
        Precedence::Additive => 7,
        Precedence::Multiplicative => 8,
        Precedence::Unary => 9,
        Precedence::Exponent => 10,
        Precedence::Call => 11,
        Precedence::Grouping => 12,
    }
}

/// The precedence an operator token binds with, if it is an operator.
pub open spec fn spec_token_precedence(tt: TokenType) -> Option<Precedence> {
    match tt {
        TokenType::Assign => Some(Precedence::Assignment),
        TokenType::If => Some(Precedence::Ternary),
        TokenType::Or => Some(Precedence::LogicalOr),
        TokenType::And => Some(Precedence::LogicalAnd),
        TokenType::Equal | TokenType::NotEqual => Some(Precedence::Equals),
        TokenType::LessThan
        | TokenType::LessThanEqual
        | TokenType::GreaterThan
        | TokenType::GreaterThanEqual => Some(Precedence::Comparison),
        TokenType::Plus | TokenType::Minus => Some(Precedence::Additive),
        TokenType::Asterisk | TokenType::Slash => Some(Precedence::Multiplicative),
        TokenType::Caret => Some(Precedence::Exponent),
        TokenType::LeftParenthesis | TokenType::BoxColon => Some(Precedence::Call),
        TokenType::Not => Some(Precedence::Unary),
        _ => None,
    }
}

impl Precedence {
    /// The numeric level of this precedence.
    pub fn level(self) -> (l: u8)
        ensures
            l == spec_level(self),
    {
        match self {
            Precedence::Default => 0,
            Precedence::Assignment => 1,
            Precedence::Ternary => 2,
            Precedence::LogicalOr => 3,
            Precedence::LogicalAnd => 4,
            Precedence::Equals => 5,
            Precedence::Comparison => 6,
            Precedence::Additive => 7,
            Precedence::Multiplicative => 8,
            Precedence::Unary => 9,
            Precedence::Exponent => 10,
            Precedence::Call => 11,
            Precedence::Grouping => 12,
        }
    }

    /// The precedence an operator token binds with.
    pub fn get_token_precedence(token_type: &TokenType) -> (p: Option<Precedence>)
        ensures
            p == spec_token_precedence(*token_type),
    {
        match token_type {
            TokenType::Assign => Some(Precedence::Assignment),
            TokenType::If => Some(Precedence::Ternary),
            TokenType::Or => Some(Precedence::LogicalOr),
            TokenType::And => Some(Precedence::LogicalAnd),
            TokenType::Equal | TokenType::NotEqual => Some(Precedence::Equals),
            TokenType::LessThan
            | TokenType::LessThanEqual
            | TokenType::GreaterThan
            | TokenType::GreaterThanEqual => Some(Precedence::Comparison),
            TokenType::Plus | TokenType::Minus => Some(Precedence::Additive),
            TokenType::Asterisk | TokenType::Slash => Some(Precedence::Multiplicative),
            TokenType::Caret => Some(Precedence::Exponent),
            TokenType::LeftParenthesis | TokenType::BoxColon => Some(Precedence::Call),
            TokenType::Not => Some(Precedence::Unary),
            _ => None,
        }
    }
}

} // verus!
