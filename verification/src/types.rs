use vstd::prelude::*;

verus! {

/// The types of Vyn values.
#[derive(Debug, PartialEq, Eq)]
pub enum Type {
    Integer,
    Float,
    Bool,
    String,
    Nil,
    Identifier,
    /// A fixed-size array: element type and length.
    Array(Box<Type>, usize),
    /// A growable sequence of elements of one type.
    Sequence(Box<Type>),
}

impl Type {
    /// A copy of this type.
    pub fn copy(&self) -> (t: Type)
        ensures
            t == *self,
        decreases self,
    {
        match self {
            Type::Integer => Type::Integer,
            Type::Float => Type::Float,
            Type::Bool => Type::Bool,
            Type::String => Type::String,
            Type::Nil => Type::Nil,
            Type::Identifier => Type::Identifier,
            Type::Array(t, n) => Type::Array(Box::new((**t).copy()), *n),
            Type::Sequence(t) => Type::Sequence(Box::new((**t).copy())),
        }
    }

    /// Structural equality of two types.
    pub fn same(&self, other: &Type) -> (b: bool)
        ensures
            b == (*self == *other),
        decreases self,
    {
        match (self, other) {
            (Type::Integer, Type::Integer) => true,
            (Type::Float, Type::Float) => true,
            (Type::Bool, Type::Bool) => true,
            (Type::String, Type::String) => true,
            (Type::Nil, Type::Nil) => true,
            (Type::Identifier, Type::Identifier) => true,
            (Type::Array(a, n), Type::Array(b, m)) => *n == *m && (**a).same(&**b),
            (Type::Sequence(a), Type::Sequence(b)) => (**a).same(&**b),
            _ => false,
        }
    }
}

} // verus!
