use vstd::prelude::*;
use crate::ast::{Expr, Expression, TypeAnnotation};
use crate::lexer::push_char;
use crate::runtime_value::RuntimeType;
use crate::tokens::{Token, TokenType, spec_token_type, token_type_text};
use crate::types::Type;
use crate::vm::push_str;

verus! {

/// The decimal digit of `d` (0 to 9).
pub open spec fn digit_char(d: int) -> char {
    if d == 0 {
        '0'
    } else if d == 1 {
        '1'
    } else if d == 2 {
        '2'
    } else if d == 3 {
        '3'
    } else if d == 4 {
        '4'
    } else if d == 5 {
        '5'
    } else if d == 6 {
        '6'
    } else if d == 7 {
        '7'
    } else if d == 8 {
        '8'
    } else {
        '9'
    }
}

/// The decimal numeral of `n`, without leading zeros.
pub open spec fn spec_decimal(n: nat) -> Seq<char>
    decreases n,
{
    if n < 10 {
        seq![digit_char(n as int)]
    } else {
        spec_decimal(n / 10).push(digit_char((n % 10) as int))
    }
}

/// The decimal numeral of `i`, with a minus sign when it is negative.
pub open spec fn spec_signed_decimal(i: int) -> Seq<char> {
    if i < 0 {
        seq!['-'] + spec_decimal((-i) as nat)
    } else {
        spec_decimal(i as nat)
    }
}

/// The text of a boolean.
pub open spec fn bool_text(b: bool) -> Seq<char> {
    if b {
        "true"@
    } else {
        "false"@
    }
}

/// The text a value type is shown with.
pub open spec fn type_text(t: Type) -> Seq<char>
    decreases t,
{
    match t {
        Type::Integer => "Int"@,
        Type::Float => "Float"@,
        Type::Bool => "Bool"@,
        Type::String => "String"@,
        Type::Nil => "Nil"@,
        Type::Identifier => "Identifier"@,
        Type::Array(e, n) => "["@ + spec_decimal(n as nat) + "]"@ + type_text(*e),
        Type::Sequence(e) => "[]"@ + type_text(*e),
    }
}

/// The first `n` types, each in single quotes, separated by `" or "`.
pub open spec fn alternatives_text(ts: Seq<Type>, n: nat) -> Seq<char>
    decreases n,
{
    if n == 0 || n > ts.len() {
        Seq::empty()
    } else if n == 1 {
        "'"@ + type_text(ts[0]) + "'"@
    } else {
        alternatives_text(ts, (n - 1) as nat) + " or "@ + "'"@ + type_text(ts[n - 1]) + "'"@
    }
}

/// The text a runtime type is shown with in messages.
pub open spec fn runtime_type_text(t: RuntimeType) -> Seq<char> {
    match t {
        RuntimeType::Integer => "Integer"@,
        RuntimeType::Float => "Float"@,
        RuntimeType::Boolean => "Boolean"@,
        RuntimeType::String => "String"@,
        RuntimeType::Nil => "Nil"@,
    }
}

/// The text a token is shown with: a literal's value (a string in double
/// quotes), an identifier's name, else the name of its kind.
pub open spec fn token_text(t: Token) -> Seq<char> {
    match t {
        Token::Integer(n) => spec_signed_decimal(n as int),
        Token::Float(f) => f@,
        Token::String(s) => "\""@ + s@ + "\""@,
        Token::Identifier(name) => name@,
        _ => token_type_text(spec_token_type(t)),
    }
}

/// The text of an expression, written back in source form with operations
/// parenthesized.
pub open spec fn expr_text(e: Expr) -> Seq<char>
    decreases e, 0nat,
{
    match e {
        Expr::IntegerLiteral(n) => spec_signed_decimal(n as int),
        Expr::FloatLiteral(f) => f@,
        Expr::BooleanLiteral(b) => bool_text(b),
        Expr::StringLiteral(s) => "\""@ + s@ + "\""@,
        Expr::Identifier(name) => name@,
        Expr::NilLiteral => "nil"@,
        Expr::ArrayLiteral { elements } => "["@ + elements_text(elements@, elements@.len()) + "]"@,
        Expr::Unary { operator, right } => "("@ + token_text(operator) + expr_text(right.node) + ")"@,
        Expr::BinaryOperation { left, operator, right } => "("@ + expr_text(left.node) + " "@ + token_text(
            operator,
        ) + " "@ + expr_text(right.node) + ")"@,
        Expr::VariableAssignment { identifier, new_value } => expr_text(identifier.node) + " = "@ + expr_text(
            new_value.node,
        ),
        Expr::Index { target, property } => expr_text(target.node) + "::"@ + expr_text(property.node),
        Expr::IndexAssignment { target, property, new_value } => expr_text(target.node) + "::"@ + expr_text(
            property.node,
        ) + " = "@ + expr_text(new_value.node),
    }
}

/// The texts of the first `n` elements, separated by `", "`.
pub open spec fn elements_text(es: Seq<Box<Expression>>, n: nat) -> Seq<char>
    decreases es, n,
{
    if n == 0 || n > es.len() {
        Seq::empty()
    } else if n == 1 {
        expr_text(es[0].node)
    } else {
        elements_text(es, (n - 1) as nat) + ", "@ + expr_text(es[n - 1].node)
    }
}

/// The text of a type annotation as written.
pub open spec fn annotation_text(t: TypeAnnotation) -> Seq<char>
    decreases t,
{
    match t {
        TypeAnnotation::StringType => "String"@,
        TypeAnnotation::IntegerType => "Integer"@,
        TypeAnnotation::FloatType => "Float"@,
        TypeAnnotation::BooleanType => "Bool"@,
        TypeAnnotation::ArrayType(e, size) => "["@ + expr_text(size.node) + "]"@ + annotation_text(*e),
        TypeAnnotation::SequenceType(e) => "[]"@ + annotation_text(*e),
    }
}

/// The decimal digit of `d`.
fn digit(d: u64) -> (c: char)
    requires
        d < 10,
    ensures
        c == digit_char(d as int),
{
    if d == 0 {
        '0'
    } else if d == 1 {
        '1'
    } else if d == 2 {
        '2'
    } else if d == 3 {
        '3'
    } else if d == 4 {
        '4'
    } else if d == 5 {
        '5'
    } else if d == 6 {
        '6'
    } else if d == 7 {
        '7'
    } else if d == 8 {
        '8'
    } else {
        '9'
    }
}

/// Appends the decimal numeral of `n` to `s`.
pub fn push_decimal(s: &mut String, n: u64)
    ensures
        final(s)@ == old(s)@ + spec_decimal(n as nat),
    decreases n,
{
    if n < 10 {
        push_char(s, digit(n));
    } else {
        push_decimal(s, n / 10);
        push_char(s, digit(n % 10));
    }
}

/// Appends the decimal numeral of `i`, signed, to `s`.
pub fn push_signed_decimal(s: &mut String, i: i64)
    ensures
        final(s)@ == old(s)@ + spec_signed_decimal(i as int),
{
    if i < 0 {
        push_char(s, '-');
        let m: u64 = (0i128 - (i as i128)) as u64;
        push_decimal(s, m);
    } else {
        push_decimal(s, i as u64);
    }
}

impl Type {
    /// The text the type is shown with.
    pub fn to_string(&self) -> (s: String)
        ensures
            s@ == type_text(*self),
    {
        let mut s = String::new();
        self.push_text(&mut s);
        s
    }

    /// Appends the text of the type to `s`.
    pub fn push_text(&self, s: &mut String)
        ensures
            final(s)@ == old(s)@ + type_text(*self),
        decreases self,
    {
        match self {
            Type::Integer => push_str(s, "Int"),
            Type::Float => push_str(s, "Float"),
            Type::Bool => push_str(s, "Bool"),
            Type::String => push_str(s, "String"),
            Type::Nil => push_str(s, "Nil"),
            Type::Identifier => push_str(s, "Identifier"),
            Type::Array(e, n) => {
                push_str(s, "[");
                push_decimal(s, *n as u64);
                push_str(s, "]");
                (**e).push_text(s);
            },
            Type::Sequence(e) => {
                push_str(s, "[]");
                (**e).push_text(s);
            },
        }
    }
}

/// Appends the types of `ts`, each in single quotes, separated by `" or "`.
pub fn push_alternatives(s: &mut String, ts: &Vec<Type>)
    ensures
        final(s)@ == old(s)@ + alternatives_text(ts@, ts@.len()),
{
    let ghost start = s@;
    let mut i: usize = 0;
    while i < ts.len()
        invariant
            0 <= i <= ts@.len(),
            s@ == start + alternatives_text(ts@, i as nat),
        decreases ts@.len() - i,
    {
        if i > 0 {
            push_str(s, " or ");
        }
        push_str(s, "'");
        ts[i].push_text(s);
        push_str(s, "'");
        i = i + 1;
    }
}

impl RuntimeType {
    /// The text the type is shown with in messages.
    pub fn display_text(&self) -> (s: &'static str)
        ensures
            s@ == runtime_type_text(*self),
    {
        match self {
            RuntimeType::Integer => "Integer",
            RuntimeType::Float => "Float",
            RuntimeType::Boolean => "Boolean",
            RuntimeType::String => "String",
            RuntimeType::Nil => "Nil",
        }
    }
}

impl Token {
    /// The text the token is shown with.
    pub fn to_string(&self) -> (s: String)
        ensures
            s@ == token_text(*self),
    {
        let mut s = String::new();
        self.push_text(&mut s);
        s
    }

    /// Appends the text of the token to `s`.
    pub fn push_text(&self, s: &mut String)
        ensures
            final(s)@ == old(s)@ + token_text(*self),
    {
        match self {
            Token::Integer(n) => push_signed_decimal(s, *n as i64),
            Token::Float(f) => push_str(s, f.as_str()),
            Token::String(x) => {
                push_str(s, "\"");
                push_str(s, x.as_str());
                push_str(s, "\"");
            },
            Token::Identifier(name) => push_str(s, name.as_str()),
            _ => push_str(s, self.get_token_type().text()),
        }
    }
}

impl Expr {
    /// The expression written back in source form.
    pub fn to_string(&self) -> (s: String)
        ensures
            s@ == expr_text(*self),
    {
        let mut s = String::new();
        self.push_text(&mut s);
        s
    }

    /// Appends the text of the expression to `s`.
    pub fn push_text(&self, s: &mut String)
        ensures
            final(s)@ == old(s)@ + expr_text(*self),
        decreases self,
    {
        match self {
            Expr::IntegerLiteral(n) => push_signed_decimal(s, *n as i64),
            Expr::FloatLiteral(f) => push_str(s, f.as_str()),
            Expr::BooleanLiteral(b) => {
                if *b {
                    push_str(s, "true")
                } else {
                    push_str(s, "false")
                }
            },
            Expr::StringLiteral(x) => {
                push_str(s, "\"");
                push_str(s, x.as_str());
                push_str(s, "\"");
            },
            Expr::Identifier(name) => push_str(s, name.as_str()),
            Expr::NilLiteral => push_str(s, "nil"),
            Expr::ArrayLiteral { elements } => {
                push_str(s, "[");
                let ghost start = s@;
                let mut i: usize = 0;
                while i < elements.len()
                    invariant
                        0 <= i <= elements@.len(),
                        s@ == start + elements_text(elements@, i as nat),
                        *self is ArrayLiteral,
                        self->elements == *elements,
                    decreases elements@.len() - i,
                {
                    if i > 0 {
                        push_str(s, ", ");
                    }
                    proof {
                        assert(self->elements == *elements);
                        assert(decreases_to!(*self => self->elements));
                        assert(decreases_to!(*elements => elements@));
                        assert(decreases_to!(elements@ => elements@[i as int]));
                        assert(decreases_to!(elements@[i as int] => elements@[i as int].node));
                        assert(decreases_to!(*self => elements@[i as int].node));
                    }
                    elements[i].node.push_text(s);
                    i = i + 1;
                }
                push_str(s, "]");
            },
            Expr::Unary { operator, right } => {
                push_str(s, "(");
                operator.push_text(s);
                right.node.push_text(s);
                push_str(s, ")");
            },
            Expr::BinaryOperation { left, operator, right } => {
                push_str(s, "(");
                left.node.push_text(s);
                push_str(s, " ");
                operator.push_text(s);
                push_str(s, " ");
                right.node.push_text(s);
                push_str(s, ")");
            },
            Expr::VariableAssignment { identifier, new_value } => {
                identifier.node.push_text(s);
                push_str(s, " = ");
                new_value.node.push_text(s);
            },
            Expr::Index { target, property } => {
                target.node.push_text(s);
                push_str(s, "::");
                property.node.push_text(s);
            },
            Expr::IndexAssignment { target, property, new_value } => {
                target.node.push_text(s);
                push_str(s, "::");
                property.node.push_text(s);
                push_str(s, " = ");
                new_value.node.push_text(s);
            },
        }
    }
}

impl TypeAnnotation {
    /// The annotation as written.
    pub fn to_string(&self) -> (s: String)
        ensures
            s@ == annotation_text(*self),
    {
        let mut s = String::new();
        self.push_text(&mut s);
        s
    }

    /// Appends the text of the annotation to `s`.
    pub fn push_text(&self, s: &mut String)
        ensures
            final(s)@ == old(s)@ + annotation_text(*self),
        decreases self,
    {
        match self {
            TypeAnnotation::StringType => push_str(s, "String"),
            TypeAnnotation::IntegerType => push_str(s, "Integer"),
            TypeAnnotation::FloatType => push_str(s, "Float"),
            TypeAnnotation::BooleanType => push_str(s, "Bool"),
            TypeAnnotation::ArrayType(e, size) => {
                push_str(s, "[");
                size.node.push_text(s);
                push_str(s, "]");
                (**e).push_text(s);
            },
            TypeAnnotation::SequenceType(e) => {
                push_str(s, "[]");
                (**e).push_text(s);
            },
        }
    }
}

} // verus!
