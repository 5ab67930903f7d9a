use vstd::prelude::*;

verus! {

/// A source location: one line and a half-open column range on it.
#[derive(Debug, Clone, Copy, PartialEq, Eq, Structural)]
pub struct Span {
    pub line: u32,
    pub start_column: u32,
    pub end_column: u32,
}

impl Span {
    /// The span used where no source location applies: all zeros.
    pub fn default_span() -> (s: Span)
        ensures
            s == Span::zero(),
    {
        Span { line: 0, start_column: 0, end_column: 0 }
    }

    pub open spec fn zero() -> Span {
        Span { line: 0, start_column: 0, end_column: 0 }
    }
}

impl Default for Span {
    fn default() -> (s: Span)
        ensures
            s == Span::zero(),
    {
        Span::default_span()
    }
}

/// A value paired with the source location it came from.
#[derive(Debug, Clone, PartialEq)]
pub struct Spanned<T> {
    pub node: T,
    pub span: Span,
}

impl<T> Spanned<T> {
    /// Drops the location and gives back the value.
    pub fn unspan(self) -> (t: T)
        ensures
            t == self.node,
    {
        self.node
    }
}

} // verus!
