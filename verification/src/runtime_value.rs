use vstd::prelude::*;

verus! {

/// A value held in a register of the virtual machine. A float is held as the
/// text of its shortest decimal form; strings are indices into the string
/// table.
#[derive(Debug, Clone, PartialEq)]
pub enum RuntimeValue {
    IntegerLiteral(i32),
    FloatLiteral(String),
    BooleanLiteral(bool),
    StringLiteral(usize),
    NilLiteral,
}

/// What a runtime value denotes: a float by the characters of its digits.
pub enum ValueView {
    Int(i32),
    Float(Seq<char>),
    Bool(bool),
    Str(usize),
    Nil,
}

impl View for RuntimeValue {
    type V = ValueView;

    open spec fn view(&self) -> ValueView {
        match *self {
            RuntimeValue::IntegerLiteral(n) => ValueView::Int(n),
            RuntimeValue::FloatLiteral(f) => ValueView::Float(f@),
            RuntimeValue::BooleanLiteral(b) => ValueView::Bool(b),
            RuntimeValue::StringLiteral(i) => ValueView::Str(i),
            RuntimeValue::NilLiteral => ValueView::Nil,
        }
    }
}

/// The values two runtime values denote are equal.
pub fn runtime_value_eq(a: &RuntimeValue, b: &RuntimeValue) -> (r: bool)
    ensures
        r == (a@ == b@),
{
    match (a, b) {
        (RuntimeValue::IntegerLiteral(x), RuntimeValue::IntegerLiteral(y)) => *x == *y,
        (RuntimeValue::FloatLiteral(x), RuntimeValue::FloatLiteral(y)) => x.eq(y),
        (RuntimeValue::BooleanLiteral(x), RuntimeValue::BooleanLiteral(y)) => *x == *y,
        (RuntimeValue::StringLiteral(x), RuntimeValue::StringLiteral(y)) => *x == *y,
        (RuntimeValue::NilLiteral, RuntimeValue::NilLiteral) => true,
        _ => false,
    }
}

/// The runtime type of a value.
#[derive(Debug, Clone, Copy, PartialEq, Eq, Structural)]
pub enum RuntimeType {
    Integer,
    Float,
    Boolean,
    String,
    Nil,
}

impl RuntimeType {
    /// The lower-case name of the type.
    pub fn to_string(&self) -> (s: &'static str)
        ensures
            s@ == (match *self {
                RuntimeType::Integer => "integer"@,
                RuntimeType::Float => "float"@,
                RuntimeType::Boolean => "boolean"@,
                RuntimeType::String => "string"@,
                RuntimeType::Nil => "nil"@,
            }),
    {
        match self {
            RuntimeType::Integer => "integer",
            RuntimeType::Float => "float",
            RuntimeType::Boolean => "boolean",
            RuntimeType::String => "string",
            RuntimeType::Nil => "nil",
        }
    }
}

/// The runtime type of a value.
pub open spec fn spec_runtime_type(v: RuntimeValue) -> RuntimeType {
    match v {
        RuntimeValue::IntegerLiteral(_) => RuntimeType::Integer,
        RuntimeValue::FloatLiteral(_) => RuntimeType::Float,
        RuntimeValue::BooleanLiteral(_) => RuntimeType::Boolean,
        RuntimeValue::StringLiteral(_) => RuntimeType::String,
        RuntimeValue::NilLiteral => RuntimeType::Nil,
    }
}

impl RuntimeValue {
    /// A copy of the value.
    pub fn copy(&self) -> (v: RuntimeValue)
        ensures
            v == *self,
    {
        match self {
            RuntimeValue::IntegerLiteral(n) => RuntimeValue::IntegerLiteral(*n),
            RuntimeValue::FloatLiteral(f) => RuntimeValue::FloatLiteral(f.clone()),
            RuntimeValue::BooleanLiteral(b) => RuntimeValue::BooleanLiteral(*b),
            RuntimeValue::StringLiteral(i) => RuntimeValue::StringLiteral(*i),
            RuntimeValue::NilLiteral => RuntimeValue::NilLiteral,
        }
    }

    pub fn as_int(&self) -> (r: Option<i32>)
        ensures
            r == (match *self {
                RuntimeValue::IntegerLiteral(n) => Some(n),
                _ => None,
            }),
    {
        match self {
            RuntimeValue::IntegerLiteral(n) => Some(*n),
            _ => None,
        }
    }

    /// The digits of a float value.
    pub fn as_float(&self) -> (r: Option<String>)
        ensures
            r == (match *self {
                RuntimeValue::FloatLiteral(f) => Some(f),
                _ => None,
            }),
    {
        match self {
            RuntimeValue::FloatLiteral(f) => Some(f.clone()),
            _ => None,
        }
    }

    pub fn as_bool(&self) -> (r: Option<bool>)
        ensures
            r == (match *self {
                RuntimeValue::BooleanLiteral(b) => Some(b),
                _ => None,
            }),
    {
        match self {
            RuntimeValue::BooleanLiteral(b) => Some(*b),
            _ => None,
        }
    }

    pub fn as_string_index(&self) -> (r: Option<usize>)
        ensures
            r == (match *self {
                RuntimeValue::StringLiteral(i) => Some(i),
                _ => None,
            }),
    {
        match self {
            RuntimeValue::StringLiteral(i) => Some(*i),
            _ => None,
        }
    }

    pub fn is_nil(&self) -> (b: bool)
        ensures
            b == (*self is NilLiteral),
    {
        matches!(self, RuntimeValue::NilLiteral)
    }

    pub fn get_type(&self) -> (t: RuntimeType)
        ensures
            t == spec_runtime_type(*self),
    {
        match self {
            RuntimeValue::IntegerLiteral(_) => RuntimeType::Integer,
            RuntimeValue::FloatLiteral(_) => RuntimeType::Float,
            RuntimeValue::BooleanLiteral(_) => RuntimeType::Boolean,
            RuntimeValue::StringLiteral(_) => RuntimeType::String,
            RuntimeValue::NilLiteral => RuntimeType::Nil,
        }
    }

    pub fn is_number(&self) -> (b: bool)
        ensures
            b == (*self is IntegerLiteral || *self is FloatLiteral),
    {
        matches!(self, RuntimeValue::IntegerLiteral(_) | RuntimeValue::FloatLiteral(_))
    }

    pub fn is_float(&self) -> (b: bool)
        ensures
            b == (*self is FloatLiteral),
    {
        matches!(self, RuntimeValue::FloatLiteral(_))
    }

    pub fn is_string(&self) -> (b: bool)
        ensures
            b == (*self is StringLiteral),
    {
        matches!(self, RuntimeValue::StringLiteral(_))
    }
}

} // verus!
